use rust_streamer::endpoint::{ReceiverEndpoint, SignalEvent, CONTROL_PORT, MEDIA_PORT};
use rust_streamer::ip::Ipv4Host;
use rust_streamer::registry::{FanoutCommand, FanoutRegistry};

fn endpoint(last_octet: u8) -> ReceiverEndpoint {
    ReceiverEndpoint {
        host: Ipv4Host { a: 192, b: 168, c: 0, d: last_octet },
        port: CONTROL_PORT,
    }
}

fn add(e: ReceiverEndpoint) -> FanoutCommand {
    FanoutCommand::AddDestination { host: e.host, port: MEDIA_PORT }
}

fn remove(e: ReceiverEndpoint) -> FanoutCommand {
    FanoutCommand::RemoveDestination { host: e.host, port: MEDIA_PORT }
}

#[test]
fn starts_empty() {
    let r = FanoutRegistry::new();
    assert_eq!(r.count(), 0);
    assert!(!r.is_active(&endpoint(1)));
}

#[test]
fn connect_adds_exactly_one_destination() {
    let mut r = FanoutRegistry::new();
    let a = endpoint(1);
    assert_eq!(r.on_connect(a), Some(add(a)));
    assert!(r.is_active(&a));
    assert_eq!(r.count(), 1);
}

#[test]
fn duplicate_connect_is_a_no_op() {
    let mut r = FanoutRegistry::new();
    let a = endpoint(1);
    assert_eq!(r.on_connect(a), Some(add(a)));
    assert_eq!(r.on_connect(a), None);
    assert_eq!(r.count(), 1);
    assert!(r.is_active(&a));
}

#[test]
fn disconnect_of_unknown_endpoint_is_a_no_op() {
    let mut r = FanoutRegistry::new();
    let a = endpoint(1);
    let b = endpoint(2);
    assert_eq!(r.on_connect(a), Some(add(a)));
    assert_eq!(r.on_disconnect(b), None);
    assert_eq!(r.count(), 1);
    assert!(r.is_active(&a));
}

#[test]
fn two_receivers_then_one_leaves() {
    // Two receivers connect at endpoints A and B: both become destinations,
    // one add command each. B disconnects: only A stays, one remove for B.
    let mut r = FanoutRegistry::new();
    let a = endpoint(10);
    let b = endpoint(20);
    assert_eq!(r.on_connect(a), Some(add(a)));
    assert_eq!(r.on_connect(b), Some(add(b)));
    assert_eq!(r.count(), 2);
    assert!(r.is_active(&a) && r.is_active(&b));
    assert_eq!(r.on_disconnect(b), Some(remove(b)));
    assert_eq!(r.count(), 1);
    assert!(r.is_active(&a));
    assert!(!r.is_active(&b));
}

#[test]
fn signal_events_drive_the_registry() {
    let mut r = FanoutRegistry::new();
    let a = endpoint(1);
    let b = endpoint(2);
    assert_eq!(r.on_signal_event(&SignalEvent::Connected(a)), Some(add(a)));
    assert_eq!(r.on_signal_event(&SignalEvent::Connected(b)), Some(add(b)));
    assert_eq!(r.on_signal_event(&SignalEvent::Connected(a)), None);
    assert_eq!(r.on_signal_event(&SignalEvent::Disconnected(None)), None);
    assert_eq!(
        r.on_signal_event(&SignalEvent::Disconnected(Some(a))),
        Some(remove(a))
    );
    assert_eq!(r.on_signal_event(&SignalEvent::Disconnected(Some(a))), None);
    assert_eq!(r.count(), 1);
    assert!(r.is_active(&b));
}

#[test]
fn replay_leaves_exactly_the_unmatched_connects() {
    let a = endpoint(1);
    let b = endpoint(2);
    let c = endpoint(3);
    let events = vec![
        SignalEvent::Connected(a),
        SignalEvent::Connected(b),
        SignalEvent::Disconnected(Some(a)),
        SignalEvent::Connected(c),
        SignalEvent::Disconnected(None),
        SignalEvent::Connected(a),
        SignalEvent::Disconnected(Some(b)),
    ];
    let r = rust_streamer::registry::replay_events(&events);
    assert_eq!(r.count(), 2);
    assert!(r.is_active(&a));
    assert!(!r.is_active(&b));
    assert!(r.is_active(&c));
}

#[test]
fn interleavings_of_two_endpoints_agree() {
    // Per-endpoint order is fixed (connect before disconnect); the
    // interleaving across endpoints must not matter.
    let a = endpoint(1);
    let b = endpoint(2);
    let one = vec![
        SignalEvent::Connected(a),
        SignalEvent::Connected(b),
        SignalEvent::Disconnected(Some(b)),
    ];
    let two = vec![
        SignalEvent::Connected(b),
        SignalEvent::Disconnected(Some(b)),
        SignalEvent::Connected(a),
    ];
    let r1 = rust_streamer::registry::replay_events(&one);
    let r2 = rust_streamer::registry::replay_events(&two);
    assert_eq!(r1.count(), 1);
    assert_eq!(r2.count(), 1);
    assert!(r1.is_active(&a) && r2.is_active(&a));
    assert!(!r1.is_active(&b) && !r2.is_active(&b));
}
