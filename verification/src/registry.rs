//! The fan-out registry: the caster-side table of active media destinations.
//!
//! The registry is driven by the connect/disconnect notifications of the
//! signaling layer, and each effective change returns exactly one command for
//! the media pipeline, so that the pipeline's destination list always equals
//! the registry. Both notifications are idempotent: a repeated connect and a
//! disconnect of an unknown endpoint change nothing and issue no command.

use vstd::prelude::*;
use crate::endpoint::{
    has_unmatched_connected, live_set, live_step, ReceiverEndpoint, SignalEvent,
    lemma_live_set_is_unmatched_connected, MEDIA_PORT,
};

verus! {

/// A destination mutation for the media pipeline, addressed by
/// (receiver host, fixed media port).
#[derive(PartialEq, Eq, Structural, Clone, Copy, Debug)]
pub enum FanoutCommand {
    AddDestination { host: crate::ip::Ipv4Host, port: u16 },
    RemoveDestination { host: crate::ip::Ipv4Host, port: u16 },
}

/// The command that makes `e` a media destination.
pub open spec fn add_command(e: ReceiverEndpoint) -> FanoutCommand {
    FanoutCommand::AddDestination { host: e.host, port: MEDIA_PORT }
}

/// The command that removes `e` as a media destination.
pub open spec fn remove_command(e: ReceiverEndpoint) -> FanoutCommand {
    FanoutCommand::RemoveDestination { host: e.host, port: MEDIA_PORT }
}

/// Caster-side mapping from receiver endpoint to "currently an active media
/// destination". Viewed as the set of active endpoints.
pub struct FanoutRegistry {
    entries: Vec<ReceiverEndpoint>,
}

impl View for FanoutRegistry {
    type V = Set<ReceiverEndpoint>;

    closed spec fn view(&self) -> Set<ReceiverEndpoint> {
        self.entries@.to_set()
    }
}

impl FanoutRegistry {
    /// The internal table lists each active endpoint exactly once.
    pub closed spec fn wf(&self) -> bool {
        self.entries@.no_duplicates()
    }

    /// An empty registry: no receiver is a destination yet.
    pub fn new() -> (r: FanoutRegistry)
        ensures
            r.wf(),
            r@ == Set::<ReceiverEndpoint>::empty(),
    {
        let r = FanoutRegistry { entries: Vec::new() };
        proof {
            assert(r@ =~= Set::<ReceiverEndpoint>::empty());
        }
        r
    }

    /// How many receivers are active destinations.
    pub fn count(&self) -> (n: usize)
        requires
            self.wf(),
        ensures
            n == self@.len(),
    {
        proof {
            self.entries@.unique_seq_to_set();
        }
        self.entries.len()
    }

    /// Is `e` currently an active destination?
    pub fn is_active(&self, e: &ReceiverEndpoint) -> (r: bool)
        ensures
            r == self@.contains(*e),
    {
        let n = self.entries.len();
        let mut i: usize = 0;
        while i < n
            invariant
                n == self.entries.len(),
                i <= n,
                forall|k: int| 0 <= k < i ==> self.entries@[k] != *e,
            decreases n - i,
        {
            if self.entries[i] == *e {
                proof {
                    assert(self.entries@.contains(*e));
                }
                return true;
            }
            i = i + 1;
        }
        proof {
            if self.entries@.contains(*e) {
                let k = choose|k: int| 0 <= k < self.entries@.len() && self.entries@[k] == *e;
                assert(false);
            }
        }
        false
    }

    /// A receiver connected. If it was not yet a destination it becomes one
    /// and the one command that adds it is returned; a duplicate connect
    /// leaves the registry unchanged and issues no command.
    pub fn on_connect(&mut self, e: ReceiverEndpoint) -> (cmd: Option<FanoutCommand>)
        requires
            old(self).wf(),
        ensures
            final(self).wf(),
            final(self)@ == old(self)@.insert(e),
            old(self)@.contains(e) ==> final(self)@ == old(self)@ && cmd is None,
            !old(self)@.contains(e) ==> cmd == Some(add_command(e)),
    {
        if self.is_active(&e) {
            proof {
                assert(old(self)@.insert(e) =~= old(self)@);
            }
            None
        } else {
            self.entries.push(e);
            proof {
                assert(self.entries@.drop_last() =~= old(self).entries@);
                assert(self.entries@.last() == e);
                assert forall|x: ReceiverEndpoint| self.entries@.contains(x)
                    <==> (old(self).entries@.contains(x) || x == e) by {
                    if self.entries@.contains(x) {
                        let k = choose|k: int|
                            0 <= k < self.entries@.len() && self.entries@[k] == x;
                        if k < self.entries@.len() - 1 {
                            assert(old(self).entries@[k] == x);
                        }
                    }
                    if old(self).entries@.contains(x) {
                        let k = choose|k: int|
                            0 <= k < old(self).entries@.len() && old(self).entries@[k] == x;
                        assert(self.entries@[k] == x);
                    }
                    if x == e {
                        assert(self.entries@.last() == x);
                    }
                }
                assert(self@ =~= old(self)@.insert(e));
            }
            Some(FanoutCommand::AddDestination { host: e.host, port: MEDIA_PORT })
        }
    }

    /// A receiver disconnected. If it was a destination it stops being one
    /// and the one command that removes it is returned; a disconnect of an
    /// endpoint that is not active leaves the registry unchanged and issues
    /// no command.
    pub fn on_disconnect(&mut self, e: ReceiverEndpoint) -> (cmd: Option<FanoutCommand>)
        requires
            old(self).wf(),
        ensures
            final(self).wf(),
            final(self)@ == old(self)@.remove(e),
            !old(self)@.contains(e) ==> final(self)@ == old(self)@ && cmd is None,
            old(self)@.contains(e) ==> cmd == Some(remove_command(e)),
    {
        let n = self.entries.len();
        let mut i: usize = 0;
        while i < n
            invariant
                n == self.entries.len(),
                i <= n,
                self.entries == old(self).entries,
                self.entries@.no_duplicates(),
                forall|k: int| 0 <= k < i ==> self.entries@[k] != e,
            decreases n - i,
        {
            if self.entries[i] == e {
                self.entries.remove(i);
                proof {
                    let s = old(self).entries@;
                    assert(s.remove(i as int) == self.entries@);
                    lemma_remove_keeps_no_duplicates(s, i as int);
                    lemma_remove_unique_to_set(s, i as int);
                }
                return Some(FanoutCommand::RemoveDestination { host: e.host, port: MEDIA_PORT });
            }
            i = i + 1;
        }
        proof {
            if self.entries@.contains(e) {
                let k = choose|k: int| 0 <= k < self.entries@.len() && self.entries@[k] == e;
                assert(false);
            }
            assert(old(self)@.remove(e) =~= old(self)@);
        }
        None
    }

    /// Route one signaling event to the registry: the active set tracks one
    /// step of the live-connection set, and the returned command is the one
    /// mutation the media pipeline needs for that step.
    pub fn on_signal_event(&mut self, ev: &SignalEvent) -> (cmd: Option<FanoutCommand>)
        requires
            old(self).wf(),
        ensures
            final(self).wf(),
            final(self)@ == live_step(old(self)@, *ev),
            final(self)@ == old(self)@ ==> cmd is None,
            ev matches SignalEvent::Connected(e) ==> (!old(self)@.contains(*e) ==> cmd == Some(
                add_command(*e),
            )),
            ev matches SignalEvent::Disconnected(Some(e)) ==> (old(self)@.contains(*e) ==> cmd
                == Some(remove_command(*e))),
    {
        match ev {
            SignalEvent::Connected(e) => self.on_connect(*e),
            SignalEvent::Disconnected(Some(e)) => self.on_disconnect(*e),
            SignalEvent::Disconnected(None) => None,
        }
    }
}

/// Registry consistency: processing any event history, in the order
/// delivered, leaves the registry's active set equal to the live-connection
/// set — exactly the endpoints with a connect not followed by a disconnect.
pub fn replay_events(events: &Vec<SignalEvent>) -> (r: FanoutRegistry)
    ensures
        r.wf(),
        r@ == live_set(events@),
        forall|e: ReceiverEndpoint|
            #[trigger] r@.contains(e) <==> has_unmatched_connected(events@, e),
{
    let n = events.len();
    let mut r = FanoutRegistry::new();
    let mut i: usize = 0;
    while i < n
        invariant
            n == events@.len(),
            i <= n,
            r.wf(),
            r@ == live_set(events@.subrange(0, i as int)),
        decreases n - i,
    {
        let _ = r.on_signal_event(&events[i]);
        proof {
            let pre = events@.subrange(0, i as int);
            let post = events@.subrange(0, i as int + 1);
            assert(post.drop_last() =~= pre);
            assert(post.last() == events@[i as int]);
        }
        i = i + 1;
    }
    proof {
        assert(events@.subrange(0, n as int) =~= events@);
        assert forall|e: ReceiverEndpoint|
            #[trigger] r@.contains(e) <==> has_unmatched_connected(events@, e) by {
            lemma_live_set_is_unmatched_connected(events@, e);
        }
    }
    r
}

/// Removing one position of a duplicate-free sequence keeps it
/// duplicate-free.
proof fn lemma_remove_keeps_no_duplicates(s: Seq<ReceiverEndpoint>, i: int)
    requires
        s.no_duplicates(),
        0 <= i < s.len(),
    ensures
        s.remove(i).no_duplicates(),
{
    let t = s.remove(i);
    assert forall|p: int, q: int| 0 <= p < q < t.len() implies t[p] != t[q] by {
        let p2 = if p < i {
            p
        } else {
            p + 1
        };
        let q2 = if q < i {
            q
        } else {
            q + 1
        };
        assert(t[p] == s[p2] && t[q] == s[q2]);
    }
}

/// Removing the one position that holds `s[i]` from a duplicate-free
/// sequence removes exactly that element from the set of its elements.
proof fn lemma_remove_unique_to_set(s: Seq<ReceiverEndpoint>, i: int)
    requires
        s.no_duplicates(),
        0 <= i < s.len(),
    ensures
        s.remove(i).to_set() == s.to_set().remove(s[i]),
{
    let t = s.remove(i);
    assert forall|x: ReceiverEndpoint| t.to_set().contains(x) <==> s.to_set().remove(
        s[i],
    ).contains(x) by {
        if t.contains(x) {
            let k = choose|k: int| 0 <= k < t.len() && t[k] == x;
            let k2 = if k < i {
                k
            } else {
                k + 1
            };
            assert(s[k2] == x);
            assert(x != s[i]);
        }
        if s.contains(x) && x != s[i] {
            let k = choose|k: int| 0 <= k < s.len() && s[k] == x;
            let k2 = if k < i {
                k
            } else {
                k - 1
            };
            assert(t[k2] == x);
        }
    }
    assert(t.to_set() =~= s.to_set().remove(s[i]));
}

} // verus!
