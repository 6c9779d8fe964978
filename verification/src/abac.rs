//! Attribute-based access control: a read-only predicate over the attribute
//! store, consulted before traffic reaches a protected destination.
//!
//! The store such a predicate reads is written only by a successful, fully verified
//! credential exchange, so every attribute a decision rests on was attested
//! by a trusted issuer.

use vstd::prelude::*;

use crate::message::bytes_eq;
use crate::receiver::LocalMessage;
use crate::store::{attr_lookup, attr_get, AttributeStore};

verus! {

/// The first identifier bound to `session_id`, if any.
pub open spec fn session_lookup(entries: Seq<(u64, Vec<u8>)>, session_id: u64) -> Option<Seq<u8>>
    decreases entries.len(),
{
    if entries.len() == 0 {
        None
    } else if entries[0].0 == session_id {
        Some(entries[0].1@)
    } else {
        session_lookup(entries.skip(1), session_id)
    }
}

/// Which verified identifier each live session belongs to. A binding is made
/// at secure-channel establishment and holds for the connection's lifetime.
pub struct SessionBindings {
    pub entries: Vec<(u64, Vec<u8>)>,
}

impl SessionBindings {
    /// No sessions bound.
    pub fn new() -> (r: SessionBindings)
        ensures
            r.entries@.len() == 0,
    {
        SessionBindings { entries: Vec::new() }
    }

    /// Bind `session_id` to `identifier`; a newer binding for the same
    /// session shadows an older one.
    pub fn bind(&mut self, session_id: u64, identifier: Vec<u8>)
        ensures
            final(self).entries@ == seq![(session_id, identifier)] + old(self).entries@,
    {
        self.entries.insert(0, (session_id, identifier));
        proof {
            assert(self.entries@ =~= seq![(session_id, identifier)] + old(self).entries@);
        }
    }

    /// The identifier bound to `session_id`, if any.
    pub fn get(&self, session_id: u64) -> (r: Option<&Vec<u8>>)
        ensures
            match r {
                Some(id) => session_lookup(self.entries@, session_id) == Some(id@),
                None => session_lookup(self.entries@, session_id) is None,
            },
    {
        let ghost all = self.entries@;
        proof {
            assert(all.skip(0) =~= all);
        }
        let mut i: usize = 0;
        while i < self.entries.len()
            invariant
                i <= all.len(),
                all == self.entries@,
                session_lookup(all, session_id) == session_lookup(all.skip(i as int), session_id),
            decreases all.len() - i,
        {
            proof {
                assert(all.skip(i as int)[0] == all[i as int]);
            }
            if self.entries[i].0 == session_id {
                return Some(&self.entries[i].1);
            }
            proof {
                assert(all.skip(i as int).skip(1) =~= all.skip(i as int + 1));
            }
            i += 1;
        }
        proof {
            assert(all.skip(all.len() as int) =~= Seq::<(u64, Vec<u8>)>::empty());
        }
        None
    }
}

/// The access-control gate: a required attribute name/value pair.
pub struct AbacGate {
    pub attribute_name: Vec<u8>,
    pub attribute_value: Vec<u8>,
}

/// What an `AbacGate` decides for a resolved identifier against a store: allow
/// exactly when an identifier is there, the store holds its entry, and the
/// configured attribute is present with exactly the configured value. Any
/// miss — no identifier, unknown identifier, absent attribute, other value —
/// denies.
pub open spec fn gate_allows(
    gate: AbacGate,
    store: Map<Seq<u8>, Seq<(Seq<u8>, Seq<u8>)>>,
    identifier: Option<Seq<u8>>,
) -> bool {
    match identifier {
        Some(id) => store.contains_key(id) && attr_lookup(store[id], gate.attribute_name@)
            == Some(gate.attribute_value@),
        None => false,
    }
}

impl AbacGate {
    /// A gate requiring `attribute_name` to hold `attribute_value`.
    pub fn create(attribute_name: Vec<u8>, attribute_value: Vec<u8>) -> (r: AbacGate)
        ensures
            r.attribute_name@ == attribute_name@,
            r.attribute_value@ == attribute_value@,
    {
        AbacGate { attribute_name, attribute_value }
    }

    /// Decide for an already-resolved identifier. Read-only: a denial is a
    /// normal outcome, not an error.
    pub fn authorize_identifier(&self, identifier: Option<&Vec<u8>>, store: &AttributeStore) -> (r:
        bool)
        ensures
            r == gate_allows(
                *self,
                store@,
                match identifier {
                    Some(id) => Some(id@),
                    None => None,
                },
            ),
    {
        let id = match identifier {
            Some(id) => id,
            None => {
                return false;
            },
        };
        let attrs = match store.get(id) {
            Some(attrs) => attrs,
            None => {
                return false;
            },
        };
        match attr_get(attrs, &self.attribute_name) {
            Some(value) => bytes_eq(value, &self.attribute_value),
            None => false,
        }
    }

    /// Decide for a message: resolve the identifier verified for the
    /// message's originating session, then look its attributes up. A message
    /// with no session, or a session bound to no identifier, is denied.
    pub fn authorize(
        &self,
        message: &LocalMessage,
        sessions: &SessionBindings,
        store: &AttributeStore,
    ) -> (r: bool)
        ensures
            r == match message.session_id {
                Some(sid) => gate_allows(*self, store@, session_lookup(sessions.entries@, sid)),
                None => false,
            },
    {
        let sid = match message.session_id {
            Some(sid) => sid,
            None => {
                return false;
            },
        };
        self.authorize_identifier(sessions.get(sid), store)
    }
}

/// Law: an `AbacGate` never allows an identifier the store has no entry for.
pub proof fn lemma_gate_denies_unknown(
    gate: AbacGate,
    store: Map<Seq<u8>, Seq<(Seq<u8>, Seq<u8>)>>,
    identifier: Seq<u8>,
)
    requires
        !store.contains_key(identifier),
    ensures
        !gate_allows(gate, store, Some(identifier)),
{
}

} // verus!
