//! The attribute store: a durable mapping from identity identifier to the
//! set of attributes verified for it. Entries are written only as the result
//! of a successfully verified credential, and each write replaces the whole
//! entry for that identifier, never part of it.

use vstd::prelude::*;

use crate::message::bytes_eq;

verus! {

/// The view of one attribute list: (name, value) pairs in presentation order.
pub open spec fn attrs_view(a: Seq<(Vec<u8>, Vec<u8>)>) -> Seq<(Seq<u8>, Seq<u8>)> {
    Seq::new(a.len(), |i: int| (a[i].0@, a[i].1@))
}

/// The first value bound to `name`, if any.
pub open spec fn attr_lookup(attrs: Seq<(Seq<u8>, Seq<u8>)>, name: Seq<u8>) -> Option<Seq<u8>>
    decreases attrs.len(),
{
    if attrs.len() == 0 {
        None
    } else if attrs[0].0 == name {
        Some(attrs[0].1)
    } else {
        attr_lookup(attrs.skip(1), name)
    }
}

/// The map held by a list of store entries; a later entry for the same
/// identifier replaces an earlier one.
pub open spec fn store_map(entries: Seq<(Vec<u8>, Vec<(Vec<u8>, Vec<u8>)>)>) -> Map<
    Seq<u8>,
    Seq<(Seq<u8>, Seq<u8>)>,
>
    decreases entries.len(),
{
    if entries.len() == 0 {
        Map::empty()
    } else {
        store_map(entries.drop_last()).insert(
            entries.last().0@,
            attrs_view(entries.last().1@),
        )
    }
}

/// Durable mapping from identity identifier to verified attributes.
pub struct AttributeStore {
    pub entries: Vec<(Vec<u8>, Vec<(Vec<u8>, Vec<u8>)>)>,
}

impl View for AttributeStore {
    type V = Map<Seq<u8>, Seq<(Seq<u8>, Seq<u8>)>>;

    open spec fn view(&self) -> Map<Seq<u8>, Seq<(Seq<u8>, Seq<u8>)>> {
        store_map(self.entries@)
    }
}

/// Entries past `k` never hold `id`, so the map looks up `id` as the first
/// `k` entries alone do.
proof fn lemma_store_map_unmatched_suffix(
    entries: Seq<(Vec<u8>, Vec<(Vec<u8>, Vec<u8>)>)>,
    k: int,
    id: Seq<u8>,
)
    requires
        0 <= k <= entries.len(),
        forall|j: int| k <= j < entries.len() ==> (#[trigger] entries[j]).0@ != id,
    ensures
        store_map(entries).contains_key(id) == store_map(entries.take(k)).contains_key(id),
        store_map(entries).contains_key(id) ==> store_map(entries)[id] == store_map(
            entries.take(k),
        )[id],
    decreases entries.len() - k,
{
    if k == entries.len() {
        assert(entries.take(k) =~= entries);
    } else {
        let shorter = entries.drop_last();
        assert(entries.last().0@ != id);
        lemma_store_map_unmatched_suffix(shorter, k, id);
        assert(shorter.take(k) =~= entries.take(k));
    }
}

impl AttributeStore {
    /// An empty store.
    pub fn new() -> (r: AttributeStore)
        ensures
            r@ == Map::<Seq<u8>, Seq<(Seq<u8>, Seq<u8>)>>::empty(),
    {
        let r = AttributeStore { entries: Vec::new() };
        proof {
            assert(r@ =~= Map::<Seq<u8>, Seq<(Seq<u8>, Seq<u8>)>>::empty());
        }
        r
    }

    /// Bind `attributes` to `identifier`, replacing whatever the store held
    /// for it. The write is whole: no other identifier's entry changes.
    pub fn put(&mut self, identifier: Vec<u8>, attributes: Vec<(Vec<u8>, Vec<u8>)>)
        ensures
            final(self)@ == old(self)@.insert(identifier@, attrs_view(attributes@)),
    {
        let ghost id = identifier@;
        let ghost attrs = attributes@;
        self.entries.push((identifier, attributes));
        proof {
            assert(self.entries@.drop_last() =~= old(self).entries@);
            assert(store_map(self.entries@) == store_map(old(self).entries@).insert(
                id,
                attrs_view(attrs),
            ));
        }
    }

    /// The attributes the store holds for `identifier`, if any.
    pub fn get(&self, identifier: &Vec<u8>) -> (r: Option<&Vec<(Vec<u8>, Vec<u8>)>>)
        ensures
            match r {
                Some(attrs) => self@.contains_key(identifier@) && self@[identifier@]
                    == attrs_view(attrs@),
                None => !self@.contains_key(identifier@),
            },
    {
        let mut i: usize = self.entries.len();
        while i > 0
            invariant
                i <= self.entries@.len(),
                forall|j: int|
                    i <= j < self.entries@.len() ==> (#[trigger] self.entries@[j]).0@
                        != identifier@,
            decreases i,
        {
            i -= 1;
            if bytes_eq(&self.entries[i].0, identifier) {
                proof {
                    lemma_store_map_unmatched_suffix(self.entries@, i as int + 1, identifier@);
                    assert(self.entries@.take(i as int + 1).drop_last() =~= self.entries@.take(
                        i as int,
                    ));
                    assert(self.entries@.take(i as int + 1).last() == self.entries@[i as int]);
                }
                return Some(&self.entries[i].1);
            }
        }
        proof {
            lemma_store_map_unmatched_suffix(self.entries@, 0, identifier@);
            assert(self.entries@.take(0) =~= Seq::<(Vec<u8>, Vec<(Vec<u8>, Vec<u8>)>)>::empty());
            assert(!store_map(self.entries@.take(0)).contains_key(identifier@));
        }
        None
    }

    /// Whether the store holds an entry for `identifier`.
    pub fn contains(&self, identifier: &Vec<u8>) -> (r: bool)
        ensures
            r == self@.contains_key(identifier@),
    {
        match self.get(identifier) {
            Some(_) => true,
            None => false,
        }
    }
}

/// The first value bound to `name` in an attribute list, executably.
pub fn attr_get<'a>(attrs: &'a Vec<(Vec<u8>, Vec<u8>)>, name: &Vec<u8>) -> (r: Option<
    &'a Vec<u8>,
>)
    ensures
        match r {
            Some(v) => attr_lookup(attrs_view(attrs@), name@) == Some(v@),
            None => attr_lookup(attrs_view(attrs@), name@) is None,
        },
{
    let ghost all = attrs_view(attrs@);
    proof {
        assert(all.skip(0) =~= all);
    }
    let mut i: usize = 0;
    while i < attrs.len()
        invariant
            i <= attrs@.len(),
            all == attrs_view(attrs@),
            attr_lookup(all, name@) == attr_lookup(all.skip(i as int), name@),
        decreases attrs@.len() - i,
    {
        proof {
            assert(all.skip(i as int)[0] == all[i as int]);
        }
        if bytes_eq(&attrs[i].0, name) {
            return Some(&attrs[i].1);
        }
        proof {
            assert(all.skip(i as int).skip(1) =~= all.skip(i as int + 1));
        }
        i += 1;
    }
    proof {
        assert(all.skip(all.len() as int) =~= Seq::<(Seq<u8>, Seq<u8>)>::empty());
    }
    None
}

} // verus!
