//! The outlet list command: turn a node's reply about its TCP outlets into
//! the rows to show, rejecting a reply that names an unusable outlet
//! address. Fetching the reply and printing the rows happen outside the
//! core.

use vstd::prelude::*;

use crate::message::clone_bytes;
use crate::ApiError;

verus! {

/// Which node the command asks, as the user named it.
pub struct NodeOpts {
    pub api_node: Vec<u8>,
}

/// One outlet as the node reports it.
pub struct OutletStatus {
    pub alias: Vec<u8>,
    pub worker_addr: Vec<u8>,
    pub tcp_addr: Vec<u8>,
}

/// The node's reply: every outlet it runs.
pub struct OutletList {
    pub list: Vec<OutletStatus>,
}

/// One row of the listing: the alias, the outlet's worker address, and the
/// TCP address it forwards to.
#[derive(Debug)]
pub struct OutletRow {
    pub alias: Vec<u8>,
    pub from_outlet: Vec<u8>,
    pub to_tcp: Vec<u8>,
}

/// Every outlet in the reply has a usable (non-empty) worker address.
pub open spec fn outlets_listable(outlets: Seq<OutletStatus>) -> bool {
    forall|j: int| 0 <= j < outlets.len() ==> (#[trigger] outlets[j]).worker_addr@.len() > 0
}

/// List the TCP outlets of a node.
pub struct ListCommand {
    pub node_opts: NodeOpts,
}

impl ListCommand {
    /// Compute the listing from the node's reply: one row per outlet, in the
    /// reply's order. A command naming no node, or a reply holding an outlet
    /// with an empty worker address, is rejected whole.
    pub fn run(self, response: &OutletList) -> (r: Result<Vec<OutletRow>, ApiError>)
        ensures
            r is Ok <==> self.node_opts.api_node@.len() > 0 && outlets_listable(response.list@),
            r matches Ok(rows) ==> rows@.len() == response.list@.len() && forall|j: int|
                0 <= j < rows@.len() ==> (#[trigger] rows@[j]).alias@ == response.list@[j].alias@
                    && rows@[j].from_outlet@ == response.list@[j].worker_addr@
                    && rows@[j].to_tcp@ == response.list@[j].tcp_addr@,
            r matches Err(e) ==> e == ApiError::InvalidRoute,
    {
        if self.node_opts.api_node.len() == 0 {
            return Err(ApiError::InvalidRoute);
        }
        let mut rows: Vec<OutletRow> = Vec::new();
        let mut i: usize = 0;
        while i < response.list.len()
            invariant
                i <= response.list@.len(),
                rows@.len() == i,
                forall|j: int|
                    0 <= j < i ==> (#[trigger] response.list@[j]).worker_addr@.len() > 0,
                forall|j: int|
                    0 <= j < i ==> (#[trigger] rows@[j]).alias@ == response.list@[j].alias@
                        && rows@[j].from_outlet@ == response.list@[j].worker_addr@
                        && rows@[j].to_tcp@ == response.list@[j].tcp_addr@,
            decreases response.list@.len() - i,
        {
            let outlet = &response.list[i];
            if outlet.worker_addr.len() == 0 {
                return Err(ApiError::InvalidRoute);
            }
            let row = OutletRow {
                alias: clone_bytes(&outlet.alias),
                from_outlet: clone_bytes(&outlet.worker_addr),
                to_tcp: clone_bytes(&outlet.tcp_addr),
            };
            rows.push(row);
            i += 1;
        }
        Ok(rows)
    }
}

} // verus!
