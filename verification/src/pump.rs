use vstd::prelude::*;

use crate::interest::Interest;
use crate::model::commit_step;
use crate::model::finish_write_step;
use crate::model::forward_step;
use crate::model::lemma_commit_step_wf;
use crate::model::lemma_finish_write_step_wf;
use crate::model::lemma_forward_step_wf;
use crate::registry::Registry;

verus! {

/// Classification of one drain-read pass: an
/// end-of-stream indication with nothing accumulated in the same pass is
/// the peer-closed condition that triggers half-close propagation; an
/// end-of-stream after some bytes were accumulated is ordinary progress,
/// and the next pass will report peer-closed on its own.
pub fn classify_read_pass(accumulated: usize, saw_eof: bool) -> (peer_closed: bool)
    ensures
        peer_closed == (saw_eof && accumulated == 0),
{
    saw_eof && accumulated == 0
}

impl Registry {
    /// I/O Pump, read side: one drain-read pass of `id`'s socket
    /// accumulated `data`; append it to the peer's pending-write buffer and
    /// watch the peer for both readability and writability. Returns the
    /// identifier and interest set the caller must re-register (edge
    /// triggered), or `None` when nothing was read or when `id` or its peer
    /// is no longer registered (the bytes then have nowhere to go and are
    /// dropped with the pass).
    pub fn apply_read(&mut self, id: u64, data: Vec<u8>) -> (r: Option<(u64, Interest)>)
        requires
            old(self).wf(),
        ensures
            final(self).wf(),
            final(self).model() == forward_step(old(self).model(), id, data@),
            final(self).counter() == old(self).counter(),
            r == (if data@.len() > 0 && old(self).model().dom().contains(id)
                && old(self).model().dom().contains(old(self).model()[id].peer) {
                Some((old(self).model()[id].peer, Interest::spec_read_write()))
            } else {
                None::<(u64, Interest)>
            }),
    {
        if data.len() == 0 {
            return None;
        }
        let peer = match self.table_get(id) {
            Some(e) => e.peer,
            None => {
                return None;
            },
        };
        match self.table_remove(peer) {
            None => {
                proof {
                    assert(self.model() =~= old(self).model());
                }
                None
            },
            Some(mut pe) => {
                let mut d = data;
                pe.pending.append(&mut d);
                pe.interest = Interest::read_write();
                self.table_insert(peer, pe);
                proof {
                    assert(self.model() =~= forward_step(old(self).model(), id, data@));
                    lemma_forward_step_wf(old(self).model(), id, data@);
                }
                Some((peer, Interest::read_write()))
            },
        }
    }

    /// The bytes currently pending delivery to `id`'s socket, front first:
    /// what a write pass hands to the non-blocking write call.
    pub fn pending_ref<'a>(&'a self, id: u64) -> (r: &'a Vec<u8>)
        requires
            self.model().dom().contains(id),
        ensures
            r@ == self.model()[id].pending,
    {
        &self.table_get(id).unwrap().pending
    }

    /// I/O Pump, write side: `n` bytes from the front of `id`'s
    /// pending-write buffer were confirmed sent; they leave the buffer, and
    /// the bytes delivered so far stay a prefix of the bytes enqueued.
    pub fn commit_written(&mut self, id: u64, n: usize)
        requires
            old(self).wf(),
            old(self).model().dom().contains(id),
            n <= old(self).model()[id].pending.len(),
        ensures
            final(self).wf(),
            final(self).model() == commit_step(old(self).model(), id, n as int),
            final(self).counter() == old(self).counter(),
            final(self).model()[id].pending == old(self).model()[id].pending.skip(n as int),
    {
        let mut e = self.table_remove(id).unwrap();
        let tail = e.pending.split_off(n);
        e.pending = tail;
        self.table_insert(id, e);
        proof {
            assert(self.model() =~= commit_step(old(self).model(), id, n as int));
            lemma_commit_step_wf(old(self).model(), id, n as int);
        }
    }

    /// End of a write pass for `id`: a residual buffer on a write-shutdown
    /// endpoint is discarded undelivered (its length is returned for the
    /// caller's diagnostics), and the interest set is recomputed — readable
    /// always, writable exactly when bytes remain pending. The returned
    /// interest is what the caller must re-register `id` with.
    pub fn finish_write_pass(&mut self, id: u64) -> (r: (Interest, usize))
        requires
            old(self).wf(),
            old(self).model().dom().contains(id),
        ensures
            final(self).wf(),
            final(self).model() == finish_write_step(old(self).model(), id),
            final(self).counter() == old(self).counter(),
            r.0 == final(self).model()[id].interest,
            r.0 == Interest::spec_for_pending(final(self).model()[id].pending.len()),
            r.1 == (if old(self).model()[id].write_shutdown {
                old(self).model()[id].pending.len()
            } else {
                0
            }),
    {
        let mut e = self.table_remove(id).unwrap();
        let mut discarded: usize = 0;
        if e.write_shutdown {
            discarded = e.pending.len();
            e.pending.clear();
            proof {
                assert(e.pending@ =~= Seq::<u8>::empty());
            }
        }
        let i = Interest::for_pending(e.pending.len());
        e.interest = i;
        self.table_insert(id, e);
        proof {
            assert(self.model() =~= finish_write_step(old(self).model(), id));
            lemma_finish_write_step_wf(old(self).model(), id);
        }
        (i, discarded)
    }
}

} // verus!
