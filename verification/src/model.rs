use vstd::prelude::*;

use crate::endpoint::EndpointModel;
use crate::endpoint::client_start;
use crate::endpoint::forward_start;
use crate::interest::Interest;

verus! {

/// The mathematical model of the registry: identifier -> endpoint model.
pub type RegistryModel = Map<u64, EndpointModel>;

/// What holds of one registered entry in a well-formed registry:
/// no endpoint is its own peer; pairing is mutual while both endpoints
/// live; and an endpoint with bytes pending is watched for writability.
pub open spec fn entry_ok(m: RegistryModel, id: u64) -> bool {
    &&& m[id].peer != id
    &&& m.dom().contains(m[id].peer) ==> m[m[id].peer].peer == id
    &&& m[id].pending.len() > 0 ==> m[id].interest.writable
}

/// Well-formedness of the registry model.
pub open spec fn wf_model(m: RegistryModel) -> bool {
    forall|id: u64| m.dom().contains(id) ==> #[trigger] entry_ok(m, id)
}

/// `e` with its write-shutdown flag raised and everything else unchanged.
pub open spec fn with_write_shutdown(e: EndpointModel) -> EndpointModel {
    EndpointModel {
        peer: e.peer,
        write_shutdown: true,
        pending: e.pending,
        interest: e.interest,
    }
}

/// Pair Manager step: one accepted connection and one successful dial
/// become two fresh, mutually linked endpoints.
pub open spec fn pair_step(m: RegistryModel, cid: u64, fid: u64) -> RegistryModel {
    m.insert(cid, client_start(fid)).insert(fid, forward_start(cid))
}

/// I/O Pump, read side: the bytes drained from `id`'s socket are appended
/// to its peer's pending-write buffer, and the peer is watched for both
/// readability and writability. Nothing changes when nothing was read or
/// when either end of the pairing is gone.
pub open spec fn forward_step(m: RegistryModel, id: u64, data: Seq<u8>) -> RegistryModel {
    if data.len() > 0 && m.dom().contains(id) && m.dom().contains(m[id].peer) {
        let p = m[id].peer;
        m.insert(
            p,
            EndpointModel {
                peer: m[p].peer,
                write_shutdown: m[p].write_shutdown,
                pending: m[p].pending + data,
                interest: Interest::spec_read_write(),
            },
        )
    } else {
        m
    }
}

/// I/O Pump, write side: `n` bytes from the front of `id`'s pending-write
/// buffer were confirmed sent and leave the buffer.
pub open spec fn commit_step(m: RegistryModel, id: u64, n: int) -> RegistryModel {
    if m.dom().contains(id) {
        m.insert(
            id,
            EndpointModel {
                peer: m[id].peer,
                write_shutdown: m[id].write_shutdown,
                pending: m[id].pending.skip(n),
                interest: m[id].interest,
            },
        )
    } else {
        m
    }
}

/// End of a write pass: a residual buffer on a write-shutdown endpoint is
/// discarded undelivered, and the interest set is recomputed (readable
/// always, writable exactly when bytes remain pending).
pub open spec fn finish_write_step(m: RegistryModel, id: u64) -> RegistryModel {
    if m.dom().contains(id) {
        let kept = if m[id].write_shutdown {
            Seq::<u8>::empty()
        } else {
            m[id].pending
        };
        m.insert(
            id,
            EndpointModel {
                peer: m[id].peer,
                write_shutdown: m[id].write_shutdown,
                pending: kept,
                interest: Interest::spec_for_pending(kept.len()),
            },
        )
    } else {
        m
    }
}

/// Shutdown Coordinator step, taken when a read of `id` observes
/// end-of-stream: the live peer's write half is shut down, and `id` itself
/// is removed exactly when its own write half had already been shut down
/// by the symmetric event from the peer's side.
pub open spec fn close_step(m: RegistryModel, id: u64) -> RegistryModel {
    if m.dom().contains(id) {
        let p = m[id].peer;
        let m1 = if m.dom().contains(p) {
            m.insert(p, with_write_shutdown(m[p]))
        } else {
            m
        };
        if m[id].write_shutdown {
            m1.remove(id)
        } else {
            m1
        }
    } else {
        m
    }
}

/// Freshly allocated identifiers keep the registry well formed.
pub proof fn lemma_pair_step_wf(m: RegistryModel, cid: u64, fid: u64)
    requires
        wf_model(m),
        cid != fid,
        forall|id: u64| #[trigger] m.dom().contains(id) ==> id != cid && id != fid
            && m[id].peer != cid && m[id].peer != fid,
    ensures
        wf_model(pair_step(m, cid, fid)),
{
    let mm = pair_step(m, cid, fid);
    assert forall|id: u64| mm.dom().contains(id) implies #[trigger] entry_ok(mm, id) by {
        if id == cid || id == fid {
        } else {
            assert(m.dom().contains(id));
            assert(entry_ok(m, id));
        }
    }
}

/// Forwarding read bytes to the peer keeps the registry well formed.
pub proof fn lemma_forward_step_wf(m: RegistryModel, id: u64, data: Seq<u8>)
    requires
        wf_model(m),
    ensures
        wf_model(forward_step(m, id, data)),
{
    let mm = forward_step(m, id, data);
    if data.len() > 0 && m.dom().contains(id) && m.dom().contains(m[id].peer) {
        let p = m[id].peer;
        assert(entry_ok(m, id));
        assert(entry_ok(m, p));
        assert forall|k: u64| mm.dom().contains(k) implies #[trigger] entry_ok(mm, k) by {
            assert(m.dom().contains(k));
            assert(entry_ok(m, k));
        }
    }
}

/// Consuming delivered bytes from the front keeps the registry well formed.
pub proof fn lemma_commit_step_wf(m: RegistryModel, id: u64, n: int)
    requires
        wf_model(m),
        0 <= n,
        m.dom().contains(id) ==> n <= m[id].pending.len(),
    ensures
        wf_model(commit_step(m, id, n)),
{
    let mm = commit_step(m, id, n);
    if m.dom().contains(id) {
        assert(entry_ok(m, id));
        assert(mm[id].pending.len() == m[id].pending.len() - n);
        assert forall|k: u64| mm.dom().contains(k) implies #[trigger] entry_ok(mm, k) by {
            assert(m.dom().contains(k));
            assert(entry_ok(m, k));
        }
    }
}

/// Recomputing the interest set (and discarding a residual buffer on a
/// write-shutdown endpoint) keeps the registry well formed.
pub proof fn lemma_finish_write_step_wf(m: RegistryModel, id: u64)
    requires
        wf_model(m),
    ensures
        wf_model(finish_write_step(m, id)),
{
    let mm = finish_write_step(m, id);
    if m.dom().contains(id) {
        assert(entry_ok(m, id));
        assert forall|k: u64| mm.dom().contains(k) implies #[trigger] entry_ok(mm, k) by {
            assert(m.dom().contains(k));
            assert(entry_ok(m, k));
        }
    }
}

/// The half-close transition keeps the registry well formed.
pub proof fn lemma_close_step_wf(m: RegistryModel, id: u64)
    requires
        wf_model(m),
    ensures
        wf_model(close_step(m, id)),
{
    let mm = close_step(m, id);
    if m.dom().contains(id) {
        assert(entry_ok(m, id));
        assert forall|k: u64| mm.dom().contains(k) implies #[trigger] entry_ok(mm, k) by {
            assert(m.dom().contains(k));
            assert(entry_ok(m, k));
        }
    }
}

/// Removing any one endpoint keeps the registry well formed: every clause
/// of `entry_ok` only constrains entries that are present.
pub proof fn lemma_remove_wf(m: RegistryModel, id: u64)
    requires
        wf_model(m),
    ensures
        wf_model(m.remove(id)),
{
    let mm = m.remove(id);
    assert forall|k: u64| mm.dom().contains(k) implies #[trigger] entry_ok(mm, k) by {
        assert(m.dom().contains(k));
        assert(entry_ok(m, k));
    }
}

} // verus!
