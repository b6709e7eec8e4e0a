use vstd::prelude::*;

verus! {

/// A readiness interest set for one registered socket: which of the two
/// readiness conditions the reactor should watch for on that socket.
#[derive(Clone, Copy, PartialEq, Eq, Structural, Debug)]
pub struct Interest {
    pub readable: bool,
    pub writable: bool,
}

impl Interest {
    /// The empty interest set: watch for nothing (the initial state of a
    /// freshly dialed forward-facing endpoint, which has nothing to flush
    /// and nothing has been read on its behalf yet).
    pub open spec fn spec_none() -> Interest {
        Interest { readable: false, writable: false }
    }

    /// Readable only: the initial state of an accepted client-facing endpoint.
    pub open spec fn spec_readable() -> Interest {
        Interest { readable: true, writable: false }
    }

    /// Both readable and writable: the state of a peer endpoint right after
    /// freshly read bytes were appended to its pending-write buffer.
    pub open spec fn spec_read_write() -> Interest {
        Interest { readable: true, writable: true }
    }

    /// The interest set recomputed at the end of a write pass: readable
    /// always, writable exactly when bytes remain pending.
    pub open spec fn spec_for_pending(pending_len: nat) -> Interest {
        Interest { readable: true, writable: pending_len > 0 }
    }

    pub fn none() -> (r: Interest)
        ensures
            r == Self::spec_none(),
    {
        Interest { readable: false, writable: false }
    }

    pub fn readable_only() -> (r: Interest)
        ensures
            r == Self::spec_readable(),
    {
        Interest { readable: true, writable: false }
    }

    pub fn read_write() -> (r: Interest)
        ensures
            r == Self::spec_read_write(),
    {
        Interest { readable: true, writable: true }
    }

    /// Recompute the interest set from the current pending-buffer length.
    pub fn for_pending(pending_len: usize) -> (r: Interest)
        ensures
            r == Self::spec_for_pending(pending_len as nat),
    {
        Interest { readable: true, writable: pending_len > 0 }
    }
}

} // verus!
