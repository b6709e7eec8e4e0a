use tcp_relay::interest::Interest;
use tcp_relay::pump::classify_read_pass;
use tcp_relay::registry::Registry;

fn paired() -> (Registry, u64, u64) {
    let mut reg = Registry::new();
    let ids = reg.on_accept(true).unwrap();
    (reg, ids.0, ids.1)
}

#[test]
fn accept_registers_linked_pair() {
    let (reg, c, f) = paired();
    assert_eq!((c, f), (1, 2));
    assert!(reg.is_registered(c));
    assert!(reg.is_registered(f));
    assert_eq!(reg.peer_of(c), f);
    assert_eq!(reg.peer_of(f), c);
    assert_eq!(reg.interest_of(c), Interest { readable: true, writable: false });
    assert_eq!(reg.interest_of(f), Interest { readable: false, writable: false });
    assert_eq!(reg.pending_len(c), 0);
    assert_eq!(reg.pending_len(f), 0);
    assert!(!reg.is_write_shutdown(c));
    assert!(!reg.is_write_shutdown(f));
    assert_eq!(reg.endpoint_count(), 2);
    assert_eq!(reg.next_identifier(), 3);
}

#[test]
fn dial_failure_leaves_registry_untouched() {
    let mut reg = Registry::new();
    assert_eq!(reg.on_accept(false), None);
    assert_eq!(reg.endpoint_count(), 0);
    // the loop keeps serving subsequent accepts
    let ids = reg.on_accept(true).unwrap();
    assert_eq!(reg.endpoint_count(), 2);
    assert!(reg.is_registered(ids.0));
    assert!(reg.is_registered(ids.1));
}

#[test]
fn ping_pong_byte_identical() {
    let (mut reg, c, f) = paired();
    // client sends "PING": drained from c, forwarded to f's buffer
    let r = reg.apply_read(c, b"PING".to_vec());
    assert_eq!(r, Some((f, Interest { readable: true, writable: true })));
    assert_eq!(reg.pending_ref(f).as_slice(), b"PING");
    // write pass on f delivers all of it
    reg.commit_written(f, 4);
    let (i, discarded) = reg.finish_write_pass(f);
    assert_eq!(i, Interest { readable: true, writable: false });
    assert_eq!(discarded, 0);
    assert_eq!(reg.pending_len(f), 0);
    // forward side replies "PONG" before anyone closes
    let r = reg.apply_read(f, b"PONG".to_vec());
    assert_eq!(r, Some((c, Interest { readable: true, writable: true })));
    assert_eq!(reg.pending_ref(c).as_slice(), b"PONG");
    reg.commit_written(c, 4);
    let (i, discarded) = reg.finish_write_pass(c);
    assert_eq!(i, Interest { readable: true, writable: false });
    assert_eq!(discarded, 0);
    assert!(reg.is_registered(c) && reg.is_registered(f));
    assert!(!reg.is_write_shutdown(c) && !reg.is_write_shutdown(f));
}

#[test]
fn relay_preserves_order_across_chunks() {
    let (mut reg, c, f) = paired();
    reg.apply_read(c, b"AB".to_vec());
    reg.apply_read(c, b"CD".to_vec());
    assert_eq!(reg.pending_ref(f).as_slice(), b"ABCD");
    reg.commit_written(f, 2);
    assert_eq!(reg.pending_ref(f).as_slice(), b"CD");
    reg.apply_read(c, b"EF".to_vec());
    assert_eq!(reg.pending_ref(f).as_slice(), b"CDEF");
}

#[test]
fn half_close_propagates_and_reply_still_delivered() {
    let (mut reg, c, f) = paired();
    // client sends 10 bytes, then half-closes
    reg.apply_read(c, b"0123456789".to_vec());
    let (shut_peer, removed) = reg.on_peer_closed(c);
    assert_eq!(shut_peer, Some(f));
    assert!(!removed);
    // the forward-side socket observes its write half closed
    assert!(reg.is_write_shutdown(f));
    assert!(!reg.is_write_shutdown(c));
    assert!(reg.is_registered(c));
    // a reply from the forward side is still delivered to the client
    let r = reg.apply_read(f, b"reply".to_vec());
    assert_eq!(r, Some((c, Interest { readable: true, writable: true })));
    assert_eq!(reg.pending_ref(c).as_slice(), b"reply");
    reg.commit_written(c, 5);
    let (i, discarded) = reg.finish_write_pass(c);
    assert_eq!(i, Interest { readable: true, writable: false });
    assert_eq!(discarded, 0);
    // the client endpoint is removed only after its own read side ends
    assert!(reg.is_registered(c));
}

#[test]
fn full_teardown_removes_both_endpoints() {
    let (mut reg, c, f) = paired();
    let (shut_peer, removed) = reg.on_peer_closed(c);
    assert_eq!((shut_peer, removed), (Some(f), false));
    let (shut_peer, removed) = reg.on_peer_closed(f);
    assert_eq!((shut_peer, removed), (Some(c), true));
    assert!(!reg.is_registered(f));
    assert!(reg.is_write_shutdown(c));
    let (shut_peer, removed) = reg.on_peer_closed(c);
    assert_eq!((shut_peer, removed), (None, true));
    assert_eq!(reg.endpoint_count(), 0);
    assert!(!reg.is_registered(c) && !reg.is_registered(f));
}

#[test]
fn drained_buffer_drops_writable_partial_keeps_it() {
    let (mut reg, c, f) = paired();
    reg.apply_read(c, b"xyz".to_vec());
    assert_eq!(reg.interest_of(f), Interest { readable: true, writable: true });
    // full drain: writable is gone at the very next re-registration
    reg.commit_written(f, 3);
    let (i, _) = reg.finish_write_pass(f);
    assert_eq!(i, Interest { readable: true, writable: false });
    assert_eq!(reg.interest_of(f), Interest { readable: true, writable: false });
    // partial drain: writable stays
    reg.apply_read(c, b"xyz".to_vec());
    reg.commit_written(f, 1);
    let (i, _) = reg.finish_write_pass(f);
    assert_eq!(i, Interest { readable: true, writable: true });
    assert_eq!(reg.pending_ref(f).as_slice(), b"yz");
}

#[test]
fn residual_buffer_discarded_after_shutdown() {
    let (mut reg, c, f) = paired();
    reg.apply_read(c, b"stale".to_vec());
    // the client's remote stops sending: f's write half is shut down while
    // five undelivered bytes are still pending toward f
    let (shut_peer, _) = reg.on_peer_closed(c);
    assert_eq!(shut_peer, Some(f));
    assert_eq!(reg.pending_len(f), 5);
    // the next write pass on f discards the residue instead of keeping it
    let (i, discarded) = reg.finish_write_pass(f);
    assert_eq!(discarded, 5);
    assert_eq!(reg.pending_len(f), 0);
    assert_eq!(i, Interest { readable: true, writable: false });
}

#[test]
fn reregistration_with_same_interest_is_noop() {
    let (mut reg, c, f) = paired();
    reg.apply_read(c, b"ab".to_vec());
    reg.commit_written(f, 2);
    let (i1, _) = reg.finish_write_pass(f);
    let before = (reg.pending_len(f), reg.interest_of(f), reg.is_write_shutdown(f), reg.peer_of(f));
    let (i2, d2) = reg.finish_write_pass(f);
    assert_eq!(i1, i2);
    assert_eq!(d2, 0);
    let after = (reg.pending_len(f), reg.interest_of(f), reg.is_write_shutdown(f), reg.peer_of(f));
    assert_eq!(before, after);
    assert_eq!(reg.endpoint_count(), 2);
}

#[test]
fn classify_read_pass_boundaries() {
    // end-of-stream with nothing accumulated: the peer-closed condition
    assert!(classify_read_pass(0, true));
    // end-of-stream after progress: ordinary success for this pass
    assert!(!classify_read_pass(4, true));
    // would-block without end-of-stream: never peer-closed
    assert!(!classify_read_pass(0, false));
    assert!(!classify_read_pass(4, false));
}

#[test]
fn fatal_error_removes_only_that_endpoint() {
    let (mut reg, c, f) = paired();
    assert!(reg.remove_endpoint(c));
    assert!(!reg.is_registered(c));
    assert!(reg.is_registered(f));
    assert_eq!(reg.endpoint_count(), 1);
    assert!(!reg.remove_endpoint(c));
}

#[test]
fn identifiers_are_never_reused() {
    let (mut reg, c, f) = paired();
    reg.on_peer_closed(c);
    reg.on_peer_closed(f);
    reg.on_peer_closed(c);
    assert_eq!(reg.endpoint_count(), 0);
    let ids = reg.on_accept(true).unwrap();
    assert_eq!(ids, (3, 4));
}

#[test]
fn empty_read_and_stale_peer_change_nothing() {
    let (mut reg, c, f) = paired();
    // a wakeup with nothing read forwards nothing
    assert_eq!(reg.apply_read(c, Vec::new()), None);
    assert_eq!(reg.pending_len(f), 0);
    // bytes read for a peer that is already gone are dropped with the pass
    reg.remove_endpoint(f);
    assert_eq!(reg.apply_read(c, b"x".to_vec()), None);
    assert!(reg.is_registered(c));
    assert_eq!(reg.pending_len(c), 0);
    assert_eq!(reg.endpoint_count(), 1);
}
