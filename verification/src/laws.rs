use vstd::prelude::*;

use crate::interest::Interest;
use crate::model::RegistryModel;
use crate::model::close_step;
use crate::model::commit_step;
use crate::model::entry_ok;
use crate::model::finish_write_step;
use crate::model::forward_step;
use crate::model::lemma_close_step_wf;
use crate::model::lemma_forward_step_wf;
use crate::model::pair_step;
use crate::model::wf_model;

verus! {

/// The concatenation of a series of read passes, oldest first.
pub open spec fn concat_chunks(chunks: Seq<Seq<u8>>) -> Seq<u8>
    decreases chunks.len(),
{
    if chunks.len() == 0 {
        Seq::empty()
    } else {
        chunks.first() + concat_chunks(chunks.drop_first())
    }
}

/// The registry after a series of drain-read passes of `id`, each
/// forwarding one accumulated chunk to `id`'s peer.
pub open spec fn forward_all(m: RegistryModel, id: u64, chunks: Seq<Seq<u8>>) -> RegistryModel
    decreases chunks.len(),
{
    if chunks.len() == 0 {
        m
    } else {
        forward_all(forward_step(m, id, chunks.first()), id, chunks.drop_first())
    }
}

/// Byte-exact, order-preserving relay: across any series of read passes of
/// one endpoint, its peer's pending-write buffer grows by exactly the
/// concatenation of the bytes read, in that order, while the pairing, the
/// half-close flags, and the set of registered endpoints stay as they were.
pub proof fn lemma_relay_byte_exact(m: RegistryModel, id: u64, chunks: Seq<Seq<u8>>)
    requires
        wf_model(m),
        m.dom().contains(id),
        m.dom().contains(m[id].peer),
    ensures
        wf_model(forward_all(m, id, chunks)),
        forward_all(m, id, chunks).dom() == m.dom(),
        forward_all(m, id, chunks)[id].peer == m[id].peer,
        forward_all(m, id, chunks)[m[id].peer].pending == m[m[id].peer].pending + concat_chunks(
            chunks,
        ),
        forward_all(m, id, chunks)[m[id].peer].peer == m[m[id].peer].peer,
        forward_all(m, id, chunks)[m[id].peer].write_shutdown == m[m[id].peer].write_shutdown,
    decreases chunks.len(),
{
    let p = m[id].peer;
    assert(entry_ok(m, id));
    if chunks.len() == 0 {
        assert(m[p].pending + concat_chunks(chunks) =~= m[p].pending);
    } else {
        let c = chunks.first();
        let m1 = forward_step(m, id, c);
        lemma_forward_step_wf(m, id, c);
        assert(m1.dom() =~= m.dom());
        lemma_relay_byte_exact(m1, id, chunks.drop_first());
        assert(m1[p].pending + concat_chunks(chunks.drop_first()) =~= m[p].pending
            + concat_chunks(chunks));
    }
}

/// A peer whose pending-write buffer starts empty holds, after any series
/// of read passes of its partner, exactly the bytes those passes read —
/// the relay neither loses, duplicates, nor reorders a byte.
pub proof fn lemma_relay_delivers_exactly(m: RegistryModel, id: u64, chunks: Seq<Seq<u8>>)
    requires
        wf_model(m),
        m.dom().contains(id),
        m.dom().contains(m[id].peer),
        m[m[id].peer].pending.len() == 0,
    ensures
        forward_all(m, id, chunks)[m[id].peer].pending == concat_chunks(chunks),
{
    lemma_relay_byte_exact(m, id, chunks);
    assert(m[m[id].peer].pending + concat_chunks(chunks) =~= concat_chunks(chunks));
}

/// Draining from the front in successive write passes preserves order:
/// delivering `n1` bytes and then `n2` more delivers exactly the first
/// `n1 + n2` bytes of the buffer, and leaves exactly the rest.
pub proof fn lemma_drain_order_preserving(b: Seq<u8>, n1: int, n2: int)
    requires
        0 <= n1,
        0 <= n2,
        n1 + n2 <= b.len(),
    ensures
        b.take(n1) + b.skip(n1).take(n2) == b.take(n1 + n2),
        b.skip(n1).skip(n2) == b.skip(n1 + n2),
{
    assert(b.take(n1) + b.skip(n1).take(n2) =~= b.take(n1 + n2));
    assert(b.skip(n1).skip(n2) =~= b.skip(n1 + n2));
}

/// Half-close propagation: when a read of `id` observes end-of-stream, the
/// live peer's write half is shut down within that same step; `id` itself
/// is removed exactly when its own write half was already shut down by the
/// symmetric event from the peer's side — never before its own read side
/// has seen end-of-stream.
pub proof fn lemma_half_close_propagation(m: RegistryModel, id: u64)
    requires
        wf_model(m),
        m.dom().contains(id),
    ensures
        m.dom().contains(m[id].peer) ==> close_step(m, id)[m[id].peer].write_shutdown,
        m.dom().contains(m[id].peer) ==> close_step(m, id)[m[id].peer].pending == m[m[id].peer].pending,
        !m[id].write_shutdown ==> close_step(m, id).dom().contains(id) && close_step(m, id)[id]
            == m[id],
        m[id].write_shutdown ==> !close_step(m, id).dom().contains(id),
        wf_model(close_step(m, id)),
{
    assert(entry_ok(m, id));
    lemma_close_step_wf(m, id);
}

/// Re-registering an endpoint with the same computed interest set changes
/// nothing: the write-pass epilogue is idempotent.
pub proof fn lemma_rearm_idempotent(m: RegistryModel, id: u64)
    requires
        m.dom().contains(id),
    ensures
        finish_write_step(finish_write_step(m, id), id) == finish_write_step(m, id),
{
    assert(finish_write_step(finish_write_step(m, id), id) =~~= finish_write_step(m, id));
}

/// An endpoint whose interest set already equals the computed one, and
/// which holds no undeliverable residue, is left exactly as it was by the
/// write-pass epilogue: re-registration behaves as a no-op.
pub proof fn lemma_rearm_noop(m: RegistryModel, id: u64)
    requires
        m.dom().contains(id),
        m[id].interest == Interest::spec_for_pending(m[id].pending.len()),
        m[id].write_shutdown ==> m[id].pending.len() == 0,
    ensures
        finish_write_step(m, id) == m,
{
    assert(finish_write_step(m, id) =~~= m);
}

/// Boundary: a write pass that fully drains the pending buffer drops
/// "writable" from the interest set at the very next re-registration; one
/// that leaves bytes pending (on an endpoint still open for writing) keeps
/// it. "Readable" is always kept.
pub proof fn lemma_write_pass_interest(m: RegistryModel, id: u64, n: int)
    requires
        wf_model(m),
        m.dom().contains(id),
        0 <= n <= m[id].pending.len(),
    ensures
        finish_write_step(commit_step(m, id, n), id)[id].interest.readable,
        finish_write_step(commit_step(m, id, n), id)[id].interest.writable <==> (n
            < m[id].pending.len() && !m[id].write_shutdown),
{
}

/// Boundary: at the end of a write pass, an endpoint whose write half is
/// shut down holds no residual bytes — an undeliverable remainder is
/// discarded rather than kept to grow without bound — and it is watched
/// for readability only.
pub proof fn lemma_residual_discarded(m: RegistryModel, id: u64)
    requires
        m.dom().contains(id),
        m[id].write_shutdown,
    ensures
        finish_write_step(m, id)[id].pending.len() == 0,
        finish_write_step(m, id)[id].interest == Interest::spec_readable(),
{
}

/// Full teardown: once both directions of a fresh pairing have reached
/// end-of-stream — the observing side first, then the peer, then the
/// observing side being reaped — both endpoints are gone from the
/// registry, and the registry is exactly what it was before the pair was
/// ever registered: no dangling peer reference remains.
pub proof fn lemma_pair_teardown(m: RegistryModel, cid: u64, fid: u64)
    requires
        wf_model(m),
        cid != fid,
        forall|id: u64| #[trigger] m.dom().contains(id) ==> id != cid && id != fid && m[id].peer
            != cid && m[id].peer != fid,
    ensures
        !close_step(close_step(close_step(pair_step(m, cid, fid), cid), fid), cid).dom().contains(
            cid,
        ),
        !close_step(close_step(close_step(pair_step(m, cid, fid), cid), fid), cid).dom().contains(
            fid,
        ),
        close_step(close_step(close_step(pair_step(m, cid, fid), cid), fid), cid) == m,
{
    let m0 = pair_step(m, cid, fid);
    let m1 = close_step(m0, cid);
    let m2 = close_step(m1, fid);
    let m3 = close_step(m2, cid);
    assert(m3 =~~= m);
}

} // verus!
