use ws_gateway::announce::announcement;
use ws_gateway::gateway::Gateway;
use ws_gateway::relay::{relay_recipients, RelayMode};

#[test]
fn registration_issues_one_then_two() {
    // Client A registers and is issued 1; client B, racing it, is issued
    // the next value — never the same as A's.
    let mut gw: Gateway<&str> = Gateway::new();
    let a = gw.register("session-a");
    let b = gw.register("session-b");
    assert_eq!(a, 1);
    assert_eq!(b, 2);
    assert_ne!(a, b);
    assert_eq!(gw.get(a), Some(&"session-a"));
    assert_eq!(gw.get(b), Some(&"session-b"));
}

#[test]
fn deregistered_identity_is_never_reused() {
    let mut gw: Gateway<&str> = Gateway::new();
    let a = gw.register("a");
    gw.deregister(a);
    assert_eq!(gw.get(a), None);
    let b = gw.register("b");
    assert_ne!(a, b);
    assert_eq!(b, 2);
}

#[test]
fn deregister_is_idempotent_and_leaves_no_trace() {
    let mut gw: Gateway<&str> = Gateway::new();
    let a = gw.register("a");
    let b = gw.register("b");
    gw.deregister(a);
    gw.deregister(a);
    assert_eq!(gw.len(), 1);
    assert!(!gw.contains(a));
    assert_eq!(gw.get(b), Some(&"b"));
}

#[test]
fn echo_mode_returns_the_frame_to_its_sender_once() {
    // Scenario: in echo mode a client sends the binary frame [0x01, 0x02]
    // and receives back exactly that frame, once.
    let mut gw: Gateway<&str> = Gateway::new();
    let sender = gw.register("client");
    let recipients = relay_recipients(RelayMode::Echo, sender, &gw);
    assert_eq!(recipients, vec![sender]);
}

#[test]
fn broadcast_mode_reaches_every_other_client_once() {
    // Scenario: A, B and C registered; A sends "hi"; B and C each receive
    // it exactly once and A receives nothing.
    let mut gw: Gateway<&str> = Gateway::new();
    let a = gw.register("a");
    let b = gw.register("b");
    let c = gw.register("c");
    let mut recipients = relay_recipients(RelayMode::Broadcast, a, &gw);
    recipients.sort();
    assert_eq!(recipients, vec![b, c]);
}

#[test]
fn abrupt_disconnect_does_not_break_later_broadcasts() {
    // Scenario: B disconnects abruptly mid-broadcast. A's subsequent
    // broadcast still reaches C, and B's identity is gone from the table.
    let mut gw: Gateway<&str> = Gateway::new();
    let a = gw.register("a");
    let b = gw.register("b");
    let c = gw.register("c");
    let first = gw.broadcast_targets(Some(a));
    assert!(first.contains(&b) && first.contains(&c));
    // The send to B fails; B is presumed dead and evicted.
    gw.remove_all(&vec![b]);
    assert!(!gw.contains(b));
    let second = gw.broadcast_targets(Some(a));
    assert_eq!(second, vec![c]);
}

#[test]
fn announcement_renders_the_identity_in_decimal() {
    assert_eq!(announcement(1), b"Your cid is 1".to_vec());
    assert_eq!(announcement(0), b"Your cid is 0".to_vec());
    assert_eq!(announcement(42), b"Your cid is 42".to_vec());
    assert_eq!(announcement(9007199254740993), b"Your cid is 9007199254740993".to_vec());
    assert_eq!(
        announcement(u64::MAX),
        b"Your cid is 18446744073709551615".to_vec()
    );
}
