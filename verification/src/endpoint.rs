use vstd::prelude::*;

use crate::interest::Interest;

verus! {

/// The mathematical model of one endpoint: what every contract in this
/// crate speaks of.
#[verifier::ext_equal]
pub ghost struct EndpointModel {
    /// Identifier of the other endpoint of the pairing.
    pub peer: u64,
    /// True once this endpoint's outbound direction has been half-closed.
    pub write_shutdown: bool,
    /// Bytes awaiting delivery to this endpoint's socket, front first.
    pub pending: Seq<u8>,
    /// The interest set this endpoint is registered with.
    pub interest: Interest,
}

/// One socket half of a proxied pairing: the identifier of its peer, the
/// half-close flag of its own write direction, the bytes pending delivery
/// to its socket, and the interest set it is registered with. The socket
/// handle itself stays with the caller that performs the I/O; it is keyed
/// by the same identifier as this entry.
pub struct Endpoint {
    pub peer: u64,
    pub write_shutdown: bool,
    pub pending: Vec<u8>,
    pub interest: Interest,
}

impl View for Endpoint {
    type V = EndpointModel;

    open spec fn view(&self) -> EndpointModel {
        EndpointModel {
            peer: self.peer,
            write_shutdown: self.write_shutdown,
            pending: self.pending@,
            interest: self.interest,
        }
    }
}

/// The state of a client-facing endpoint right after its pairing is
/// created: empty buffer, write half open, watching for readability only.
pub open spec fn client_start(peer: u64) -> EndpointModel {
    EndpointModel {
        peer: peer,
        write_shutdown: false,
        pending: Seq::empty(),
        interest: Interest::spec_readable(),
    }
}

/// The state of a forward-facing endpoint right after its pairing is
/// created: empty buffer, write half open, watching for nothing yet
/// (nothing has been read on its behalf).
pub open spec fn forward_start(peer: u64) -> EndpointModel {
    EndpointModel {
        peer: peer,
        write_shutdown: false,
        pending: Seq::empty(),
        interest: Interest::spec_none(),
    }
}

impl Endpoint {
    /// A fresh client-facing endpoint paired with `peer`.
    pub fn new_client(peer: u64) -> (r: Endpoint)
        ensures
            r@ == client_start(peer),
    {
        let r = Endpoint {
            peer: peer,
            write_shutdown: false,
            pending: Vec::new(),
            interest: Interest::readable_only(),
        };
        proof {
            assert(r@ =~= client_start(peer));
        }
        r
    }

    /// A fresh forward-facing endpoint paired with `peer`.
    pub fn new_forward(peer: u64) -> (r: Endpoint)
        ensures
            r@ == forward_start(peer),
    {
        let r = Endpoint {
            peer: peer,
            write_shutdown: false,
            pending: Vec::new(),
            interest: Interest::none(),
        };
        proof {
            assert(r@ =~= forward_start(peer));
        }
        r
    }
}

} // verus!
