//! Receiver endpoints and the connection lifecycle events of the signaling
//! layer.
//!
//! A signal connection carries no payload: its open/close lifecycle alone is
//! the protocol. The signaling layer turns that lifecycle into
//! [`SignalEvent`]s, and the set of endpoints whose latest event is a connect
//! — the *live set* — is what the fan-out registry must mirror.

use vstd::prelude::*;
use crate::ip::Ipv4Host;

verus! {

/// Port of the control channel: one persistent connection per receiver.
pub const CONTROL_PORT: u16 = 9000;

/// Port of the media channel: every media destination is (receiver host,
/// this port).
pub const MEDIA_PORT: u16 = 9001;

/// The network address of a connected receiver, unique per live connection.
#[derive(PartialEq, Eq, Structural, Clone, Copy, Debug)]
pub struct ReceiverEndpoint {
    pub host: Ipv4Host,
    pub port: u16,
}

/// A connection lifecycle notification from the signaling layer. The
/// transport does not always know which peer a lost connection belonged to,
/// so a disconnect may come without an endpoint.
#[derive(Clone, Copy, Debug)]
pub enum SignalEvent {
    Connected(ReceiverEndpoint),
    Disconnected(Option<ReceiverEndpoint>),
}

/// The endpoints left connected after one more event.
pub open spec fn live_step(live: Set<ReceiverEndpoint>, ev: SignalEvent) -> Set<ReceiverEndpoint> {
    match ev {
        SignalEvent::Connected(e) => live.insert(e),
        SignalEvent::Disconnected(Some(e)) => live.remove(e),
        SignalEvent::Disconnected(None) => live,
    }
}

/// The endpoints left connected after a whole event history.
pub open spec fn live_set(events: Seq<SignalEvent>) -> Set<ReceiverEndpoint>
    decreases events.len(),
{
    if events.len() == 0 {
        Set::empty()
    } else {
        live_step(live_set(events.drop_last()), events.last())
    }
}

/// No disconnect for `e` comes after position `i` of the history.
pub open spec fn no_later_disconnect(
    events: Seq<SignalEvent>,
    i: int,
    e: ReceiverEndpoint,
) -> bool {
    forall|j: int|
        i < j < events.len() ==> #[trigger] events[j] != SignalEvent::Disconnected(Some(e))
}

/// Some connect for `e` in the history is not followed by a disconnect
/// for `e`.
pub open spec fn has_unmatched_connected(events: Seq<SignalEvent>, e: ReceiverEndpoint) -> bool {
    exists|i: int|
        0 <= i < events.len() && #[trigger] events[i] == SignalEvent::Connected(e)
            && no_later_disconnect(events, i, e)
}

/// The live set is exactly the set of endpoints with an unmatched connect:
/// whatever the interleaving of events, an endpoint is live after processing
/// a history precisely when some connect for it is not followed by a
/// disconnect for it.
pub proof fn lemma_live_set_is_unmatched_connected(events: Seq<SignalEvent>, e: ReceiverEndpoint)
    ensures
        live_set(events).contains(e) <==> has_unmatched_connected(events, e),
    decreases events.len(),
{
    if events.len() == 0 {
    } else {
        let s = events.drop_last();
        let ev = events.last();
        lemma_live_set_is_unmatched_connected(s, e);
        let n = events.len() as int;
        assert(forall|j: int| 0 <= j < n - 1 ==> #[trigger] events[j] == s[j]);
        match ev {
            SignalEvent::Connected(e2) => {
                if e2 == e {
                    assert(events[n - 1] == SignalEvent::Connected(e));
                    assert(no_later_disconnect(events, n - 1, e));
                    assert(has_unmatched_connected(events, e));
                    assert(live_set(events).contains(e));
                } else {
                    lemma_unmatched_push_irrelevant(events, e);
                }
            },
            SignalEvent::Disconnected(oe) => {
                if oe == Some(e) {
                    assert(!live_set(events).contains(e));
                    if has_unmatched_connected(events, e) {
                        let i = choose|i: int|
                            0 <= i < n && #[trigger] events[i] == SignalEvent::Connected(e)
                                && no_later_disconnect(events, i, e);
                        assert(i < n - 1);
                        assert(events[n - 1] != SignalEvent::Disconnected(Some(e)));
                        assert(false);
                    }
                } else {
                    lemma_unmatched_push_irrelevant(events, e);
                }
            },
        }
    }
}

/// Appending an event that neither connects nor disconnects `e` does not
/// change whether `e` has an unmatched connect.
proof fn lemma_unmatched_push_irrelevant(events: Seq<SignalEvent>, e: ReceiverEndpoint)
    requires
        events.len() > 0,
        events.last() != SignalEvent::Connected(e),
        events.last() != SignalEvent::Disconnected(Some(e)),
    ensures
        has_unmatched_connected(events, e) <==> has_unmatched_connected(
            events.drop_last(),
            e,
        ),
{
    let s = events.drop_last();
    let n = events.len() as int;
    assert(forall|j: int| 0 <= j < n - 1 ==> #[trigger] events[j] == s[j]);
    if has_unmatched_connected(s, e) {
        let i = choose|i: int|
            0 <= i < s.len() && #[trigger] s[i] == SignalEvent::Connected(e)
                && no_later_disconnect(s, i, e);
        assert(events[i] == SignalEvent::Connected(e));
        assert forall|j: int| i < j < n implies #[trigger] events[j] != SignalEvent::Disconnected(
            Some(e),
        ) by {
            if j < n - 1 {
                assert(events[j] == s[j]);
            }
        }
        assert(has_unmatched_connected(events, e));
    }
    if has_unmatched_connected(events, e) {
        let i = choose|i: int|
            0 <= i < n && #[trigger] events[i] == SignalEvent::Connected(e)
                && no_later_disconnect(events, i, e);
        assert(i < n - 1);
        assert(s[i] == SignalEvent::Connected(e));
        assert forall|j: int| i < j < s.len() implies #[trigger] s[j] != SignalEvent::Disconnected(
            Some(e),
        ) by {
            assert(events[j] == s[j]);
        }
        assert(has_unmatched_connected(s, e));
    }
}

} // verus!
