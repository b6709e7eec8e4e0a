use vstd::prelude::*;

use crate::model::close_step;
use crate::model::entry_ok;
use crate::model::lemma_close_step_wf;
use crate::registry::Registry;

verus! {

impl Registry {
    /// Shutdown Coordinator: a drain-read of `id` reported peer-closed
    /// (end-of-stream with nothing accumulated, or a fatal socket read
    /// error). The relay direction fed by reads of `id` is exhausted, so
    /// the live peer's write half is shut down; `id` itself is removed
    /// exactly when its own write half had already been shut down by the
    /// symmetric event from the peer's side.
    ///
    /// Returns `(shut_peer, removed)`: `shut_peer` names the peer whose
    /// socket the caller must half-close at the socket level (`None` when
    /// the peer is already gone), and `removed` tells the caller to
    /// deregister `id`'s socket and release it.
    pub fn on_peer_closed(&mut self, id: u64) -> (r: (Option<u64>, bool))
        requires
            old(self).wf(),
            old(self).model().dom().contains(id),
        ensures
            final(self).wf(),
            final(self).model() == close_step(old(self).model(), id),
            final(self).counter() == old(self).counter(),
            r.0 == (if old(self).model().dom().contains(old(self).model()[id].peer) {
                Some(old(self).model()[id].peer)
            } else {
                None::<u64>
            }),
            r.1 == old(self).model()[id].write_shutdown,
            old(self).model().dom().contains(old(self).model()[id].peer) ==> {
                let p = old(self).model()[id].peer;
                &&& final(self).model().dom().contains(p)
                &&& final(self).model()[p].write_shutdown
                &&& final(self).model()[p].pending == old(self).model()[p].pending
                &&& final(self).model()[p].peer == id
            },
            r.1 ==> !final(self).model().dom().contains(id),
            !r.1 ==> final(self).model().dom().contains(id) && final(self).model()[id] == old(
                self,
            ).model()[id],
    {
        let (peer, already) = {
            let e = self.table_get(id).unwrap();
            (e.peer, e.write_shutdown)
        };
        let peer_live = match self.table_remove(peer) {
            Some(mut pe) => {
                pe.write_shutdown = true;
                self.table_insert(peer, pe);
                true
            },
            None => false,
        };
        if already {
            let _ = self.table_remove(id);
        }
        proof {
            assert(entry_ok(old(self).model(), id));
            assert(self.model() =~= close_step(old(self).model(), id));
            lemma_close_step_wf(old(self).model(), id);
        }
        (if peer_live { Some(peer) } else { None }, already)
    }
}

} // verus!
