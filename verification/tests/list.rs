use node_core::list::{ListCommand, NodeOpts, OutletList, OutletStatus};
use node_core::store::{attr_get, AttributeStore};
use node_core::ApiError;

fn command(node: &[u8]) -> ListCommand {
    ListCommand { node_opts: NodeOpts { api_node: node.to_vec() } }
}

fn outlet(alias: &[u8], worker: &[u8], tcp: &[u8]) -> OutletStatus {
    OutletStatus { alias: alias.to_vec(), worker_addr: worker.to_vec(), tcp_addr: tcp.to_vec() }
}

#[test]
fn lists_outlets_in_order() {
    let response = OutletList {
        list: vec![
            outlet(b"web", b"outlet_web", b"127.0.0.1:5000"),
            outlet(b"db", b"outlet_db", b"127.0.0.1:5432"),
        ],
    };
    let rows = command(b"n1").run(&response).unwrap();
    assert_eq!(rows.len(), 2);
    assert_eq!(rows[0].alias, b"web".to_vec());
    assert_eq!(rows[0].from_outlet, b"outlet_web".to_vec());
    assert_eq!(rows[0].to_tcp, b"127.0.0.1:5000".to_vec());
    assert_eq!(rows[1].alias, b"db".to_vec());
}

#[test]
fn rejects_an_unusable_outlet_address() {
    let response = OutletList {
        list: vec![outlet(b"web", b"outlet_web", b"x"), outlet(b"bad", b"", b"y")],
    };
    let r = command(b"n1").run(&response);
    assert_eq!(r.unwrap_err(), ApiError::InvalidRoute);
}

#[test]
fn rejects_an_unnamed_node() {
    let response = OutletList { list: vec![] };
    let r = command(b"").run(&response);
    assert_eq!(r.unwrap_err(), ApiError::InvalidRoute);
}

#[test]
fn empty_reply_lists_nothing() {
    let response = OutletList { list: vec![] };
    let rows = command(b"n1").run(&response).unwrap();
    assert!(rows.is_empty());
}

#[test]
fn store_last_write_wins() {
    let mut store = AttributeStore::new();
    store.put(b"X".to_vec(), vec![(b"a".to_vec(), b"1".to_vec())]);
    store.put(b"X".to_vec(), vec![(b"a".to_vec(), b"2".to_vec())]);
    let attrs = store.get(&b"X".to_vec()).unwrap();
    assert_eq!(attrs, &vec![(b"a".to_vec(), b"2".to_vec())]);
    assert!(store.get(&b"Y".to_vec()).is_none());
    assert!(store.contains(&b"X".to_vec()));
}

#[test]
fn attribute_lookup_finds_first_match() {
    let attrs = vec![
        (b"a".to_vec(), b"1".to_vec()),
        (b"b".to_vec(), b"2".to_vec()),
        (b"a".to_vec(), b"3".to_vec()),
    ];
    assert_eq!(attr_get(&attrs, &b"a".to_vec()), Some(&b"1".to_vec()));
    assert_eq!(attr_get(&attrs, &b"b".to_vec()), Some(&b"2".to_vec()));
    assert_eq!(attr_get(&attrs, &b"c".to_vec()), None);
}
