use vstd::prelude::*;

use std::collections::HashMap;

use crate::endpoint::Endpoint;
use crate::model::RegistryModel;
use crate::model::lemma_pair_step_wf;
use crate::model::lemma_remove_wf;
use crate::model::pair_step;
use crate::model::wf_model;

verus! {

broadcast use vstd::std_specs::hash::group_hash_axioms;

/// The paired-connection registry: the authoritative mapping from
/// connection identifier to endpoint state, together with the counter the
/// next pair's identifiers are drawn from. Identifier 0 is reserved for
/// the listening socket and is never allocated; identifiers are handed out
/// in increasing order and never reused.
pub struct Registry {
    table: HashMap<u64, Endpoint>,
    next_id: u64,
}

impl Registry {
    /// The mathematical model of the registry contents.
    pub closed spec fn model(self) -> RegistryModel {
        Map::new(
            |id: u64| self.table@.dom().contains(id),
            |id: u64| self.table@[id]@,
        )
    }

    /// The identifier the next accepted pairing will start at.
    pub closed spec fn counter(self) -> u64 {
        self.next_id
    }

    /// Well-formedness: the model invariants hold, and every identifier in
    /// use (including dangling peer identifiers of removed endpoints) lies
    /// strictly between the reserved listener identifier 0 and the counter.
    pub open spec fn wf(self) -> bool {
        &&& wf_model(self.model())
        &&& 1 <= self.counter()
        &&& forall|id: u64| #[trigger] self.model().dom().contains(id) ==> {
            &&& 1 <= id < self.counter()
            &&& 1 <= self.model()[id].peer < self.counter()
        }
    }

    /// An empty registry; the first allocated identifier will be 1.
    pub fn new() -> (r: Registry)
        ensures
            r.wf(),
            r.model() == Map::<u64, crate::endpoint::EndpointModel>::empty(),
            r.counter() == 1,
    {
        let r = Registry { table: HashMap::new(), next_id: 1 };
        proof {
            assert(r.model() =~= Map::<u64, crate::endpoint::EndpointModel>::empty());
        }
        r
    }

    /// Whether `id` currently has a registered endpoint.
    pub fn is_registered(&self, id: u64) -> (r: bool)
        ensures
            r == self.model().dom().contains(id),
    {
        self.table.contains_key(&id)
    }

    /// Pair Manager: a successfully dialed pairing becomes two fresh,
    /// mutually linked endpoints — the client-facing one watched for
    /// readability, the forward-facing one watched for nothing yet. Both
    /// are inserted together: no event can observe one without the other.
    pub fn register_pair(&mut self) -> (ids: (u64, u64))
        requires
            old(self).wf(),
            old(self).counter() + 2 <= u64::MAX,
        ensures
            final(self).wf(),
            ids.0 == old(self).counter(),
            ids.1 == old(self).counter() + 1,
            !old(self).model().dom().contains(ids.0),
            !old(self).model().dom().contains(ids.1),
            final(self).model() == pair_step(old(self).model(), ids.0, ids.1),
            final(self).counter() == old(self).counter() + 2,
    {
        let cid = self.next_id;
        let fid = cid + 1;
        let c = Endpoint::new_client(fid);
        let f = Endpoint::new_forward(cid);
        self.table.insert(cid, c);
        self.table.insert(fid, f);
        self.next_id = self.next_id + 2;
        proof {
            assert(self.model() =~= pair_step(old(self).model(), cid, fid));
            assert forall|id: u64| #[trigger] old(self).model().dom().contains(id) implies id != cid
                && id != fid && old(self).model()[id].peer != cid && old(self).model()[id].peer
                != fid by {}
            lemma_pair_step_wf(old(self).model(), cid, fid);
        }
        (cid, fid)
    }

    /// Pair Manager entry point for one accepted connection: when the dial
    /// of the forward address succeeded, register the pairing and hand back
    /// its two fresh identifiers; when it failed, the accept attempt is
    /// abandoned and the registry is left exactly as it was.
    pub fn on_accept(&mut self, dial_ok: bool) -> (r: Option<(u64, u64)>)
        requires
            old(self).wf(),
            old(self).counter() + 2 <= u64::MAX,
        ensures
            final(self).wf(),
            dial_ok ==> {
                &&& r == Some((old(self).counter(), (old(self).counter() + 1) as u64))
                &&& final(self).model() == pair_step(
                    old(self).model(),
                    old(self).counter(),
                    (old(self).counter() + 1) as u64,
                )
                &&& final(self).counter() == old(self).counter() + 2
            },
            !dial_ok ==> {
                &&& r is None
                &&& final(self).model() == old(self).model()
                &&& final(self).counter() == old(self).counter()
            },
    {
        if dial_ok {
            Some(self.register_pair())
        } else {
            None
        }
    }

    /// The identifier the next accepted pairing will be assigned.
    pub fn next_identifier(&self) -> (r: u64)
        ensures
            r == self.counter(),
    {
        self.next_id
    }

    /// How many endpoints are currently registered.
    pub fn endpoint_count(&self) -> (r: usize)
        ensures
            r == self.model().dom().len(),
    {
        proof {
            assert(self.model().dom() =~= self.table@.dom());
        }
        self.table.len()
    }

    /// The peer identifier of `id`'s endpoint.
    pub fn peer_of(&self, id: u64) -> (r: u64)
        requires
            self.model().dom().contains(id),
        ensures
            r == self.model()[id].peer,
    {
        self.table.get(&id).unwrap().peer
    }

    /// Whether `id`'s outbound direction has been half-closed.
    pub fn is_write_shutdown(&self, id: u64) -> (r: bool)
        requires
            self.model().dom().contains(id),
        ensures
            r == self.model()[id].write_shutdown,
    {
        self.table.get(&id).unwrap().write_shutdown
    }

    /// The interest set `id` is currently registered with.
    pub fn interest_of(&self, id: u64) -> (r: crate::interest::Interest)
        requires
            self.model().dom().contains(id),
        ensures
            r == self.model()[id].interest,
    {
        self.table.get(&id).unwrap().interest
    }

    /// How many bytes are pending delivery to `id`'s socket.
    pub fn pending_len(&self, id: u64) -> (r: usize)
        requires
            self.model().dom().contains(id),
        ensures
            r == self.model()[id].pending.len(),
    {
        self.table.get(&id).unwrap().pending.len()
    }

    /// Raw lookup in the backing table, for this crate's own operations.
    pub(crate) fn table_get(&self, id: u64) -> (r: Option<&Endpoint>)
        ensures
            match r {
                Some(e) => self.model().dom().contains(id) && e@ == self.model()[id],
                None => !self.model().dom().contains(id),
            },
    {
        self.table.get(&id)
    }

    /// Raw removal from the backing table, for this crate's own operations.
    pub(crate) fn table_remove(&mut self, id: u64) -> (r: Option<Endpoint>)
        ensures
            final(self).model() == old(self).model().remove(id),
            final(self).counter() == old(self).counter(),
            match r {
                Some(e) => old(self).model().dom().contains(id) && e@ == old(self).model()[id],
                None => !old(self).model().dom().contains(id),
            },
    {
        let r = self.table.remove(&id);
        proof {
            assert(self.model() =~= old(self).model().remove(id));
        }
        r
    }

    /// Raw insertion into the backing table, for this crate's own operations.
    pub(crate) fn table_insert(&mut self, id: u64, e: Endpoint)
        ensures
            final(self).model() == old(self).model().insert(id, e@),
            final(self).counter() == old(self).counter(),
    {
        self.table.insert(id, e);
        proof {
            assert(self.model() =~= old(self).model().insert(id, e@));
        }
    }

    /// Remove one endpoint outright (used when a fatal socket error ends
    /// its processing); its peer, if still registered, is left in place and
    /// is removed later by its own rule.
    pub fn remove_endpoint(&mut self, id: u64) -> (r: bool)
        requires
            old(self).wf(),
        ensures
            final(self).wf(),
            r == old(self).model().dom().contains(id),
            final(self).model() == old(self).model().remove(id),
            final(self).counter() == old(self).counter(),
    {
        let removed = self.table.remove(&id);
        proof {
            assert(self.model() =~= old(self).model().remove(id));
            lemma_remove_wf(old(self).model(), id);
        }
        removed.is_some()
    }
}

} // verus!
