//! The transmission state machine.
//!
//! The machine gates every user intent against the current state, as one
//! serial decision point: callers hand it intents and asynchronous session
//! outcomes one at a time, and it answers with the action the embedder must
//! carry out on the live session — construct and start one, drive the
//! pipeline, destroy the session. The transition function is total: a pair
//! of state and intent that no transition handles is a no-op or a typed
//! rejection, never a failure.

use vstd::prelude::*;
use crate::ip::{ipv4_of_text, is_ipv4_text, parse_ipv4, Ipv4Host};
use crate::region::ScreenRegion;
use crate::streaming::PipelineState;

verus! {

/// Which role a start outcome belongs to.
#[derive(PartialEq, Eq, Structural, Clone, Copy, Debug)]
pub enum Mode {
    Caster,
    Receiver,
}

impl Default for Mode {
    /// The UI opens in caster mode.
    fn default() -> (r: Self)
        ensures
            r == Mode::Caster,
    {
        Mode::Caster
    }
}

/// The transmission lifecycle: idle, casting (possibly paused and possibly
/// blanked), or receiving.
#[derive(PartialEq, Eq, Structural, Clone, Copy, Debug)]
pub enum TransmissionState {
    Idle,
    Casting { paused: bool, blanked: bool },
    Receiving,
}

impl Default for TransmissionState {
    /// A transmission begins idle.
    fn default() -> (r: Self)
        ensures
            r == TransmissionState::Idle,
    {
        TransmissionState::Idle
    }
}

/// A user intent, as the UI or CLI issues it.
#[derive(Clone, Debug)]
pub enum Intent {
    /// Start broadcasting this screen.
    StartCast,
    /// Start receiving from the caster at this address text.
    StartReceive(String),
    /// Stop emitting frames but keep every receiver connected.
    Pause,
    /// Emit frames again after a pause.
    Resume,
    /// Blank the outgoing picture, or restore it if already blanked.
    ToggleBlank,
    /// Capture this region of the screen from now on.
    SetRegion(ScreenRegion),
    /// End the transmission, whichever role is live.
    Stop,
}

/// Rejection of an intent before anything is attempted: the state does not
/// change and nothing reaches the network or the pipeline.
#[derive(PartialEq, Eq, Structural, Clone, Copy, Debug)]
pub enum ValidationError {
    /// The receiver address text is not a well-formed IPv4 address.
    BadAddress,
    /// The capture rectangle has no extent and is not the reserved zero
    /// region.
    BadRegion,
}

/// What the embedder must do to the live session in answer to an intent.
#[derive(PartialEq, Eq, Structural, Clone, Copy, Debug)]
pub enum SessionAction {
    /// Construct a caster session capturing `region`, start it, and report
    /// the outcome through [`TransmissionMachine::confirm_start`].
    StartCaster { region: ScreenRegion },
    /// Construct a receiver session toward `host`, start it, and report the
    /// outcome through [`TransmissionMachine::confirm_start`].
    StartReceiver { host: Ipv4Host },
    /// Drive the live session's pipeline into this state.
    SetPipeline(PipelineState),
    /// Blank the live caster session's outgoing picture.
    Blank,
    /// Restore the live caster session's picture.
    Restore,
    /// Re-aim the live caster session's capture.
    ApplyRegion(ScreenRegion),
    /// Destroy the live session and release everything it owns.
    StopSession,
}

/// What the machine is: the lifecycle state and the capture region selected
/// for the (current or next) caster session.
pub struct MachineView {
    pub state: TransmissionState,
    pub region: ScreenRegion,
}

/// The transition function of the machine, one intent at a time: the next
/// view and the answer handed to the caller. Every pair of state and intent
/// is covered; pairs that no transition handles leave the view unchanged and
/// answer "nothing to do".
pub open spec fn intent_outcome(m: MachineView, intent: Intent) -> (MachineView, Result<
    Option<SessionAction>,
    ValidationError,
>) {
    match (m.state, intent) {
        (TransmissionState::Idle, Intent::StartCast) => (
            m,
            Ok(Some(SessionAction::StartCaster { region: m.region })),
        ),
        (TransmissionState::Idle, Intent::StartReceive(ip)) => if is_ipv4_text(ip@) {
            (m, Ok(Some(SessionAction::StartReceiver { host: ipv4_of_text(ip@) })))
        } else {
            (m, Err(ValidationError::BadAddress))
        },
        (TransmissionState::Casting { paused: _, blanked }, Intent::Pause) => (
            MachineView { state: TransmissionState::Casting { paused: true, blanked }, ..m },
            Ok(Some(SessionAction::SetPipeline(PipelineState::Paused))),
        ),
        (TransmissionState::Casting { paused: _, blanked }, Intent::Resume) => (
            MachineView { state: TransmissionState::Casting { paused: false, blanked }, ..m },
            Ok(Some(SessionAction::SetPipeline(PipelineState::Playing))),
        ),
        (TransmissionState::Casting { paused, blanked }, Intent::ToggleBlank) => (
            MachineView { state: TransmissionState::Casting { paused, blanked: !blanked }, ..m },
            Ok(
                Some(
                    if blanked {
                        SessionAction::Restore
                    } else {
                        SessionAction::Blank
                    },
                ),
            ),
        ),
        (TransmissionState::Idle, Intent::SetRegion(r)) => if r.wf() {
            (MachineView { region: r, ..m }, Ok(None))
        } else {
            (m, Err(ValidationError::BadRegion))
        },
        (TransmissionState::Casting { .. }, Intent::SetRegion(r)) => if r.wf() {
            (MachineView { region: r, ..m }, Ok(Some(SessionAction::ApplyRegion(r))))
        } else {
            (m, Err(ValidationError::BadRegion))
        },
        (TransmissionState::Casting { .. }, Intent::Stop) => (
            MachineView { state: TransmissionState::Idle, ..m },
            Ok(Some(SessionAction::StopSession)),
        ),
        (TransmissionState::Receiving, Intent::Stop) => (
            MachineView { state: TransmissionState::Idle, ..m },
            Ok(Some(SessionAction::StopSession)),
        ),
        _ => (m, Ok(None)),
    }
}

/// The view after a start attempt reports back: only a successful start
/// from idle enters the role's state; a failed one leaves the machine idle,
/// and a report in any other state changes nothing.
pub open spec fn start_outcome(m: MachineView, mode: Mode, ok: bool) -> MachineView {
    if m.state is Idle && ok {
        match mode {
            Mode::Caster => MachineView {
                state: TransmissionState::Casting { paused: false, blanked: false },
                ..m
            },
            Mode::Receiver => MachineView { state: TransmissionState::Receiving, ..m },
        }
    } else {
        m
    }
}

/// The pairs of state and intent that some transition handles (with either
/// an action or a validation answer); every other pair is a no-op.
pub open spec fn handled_pair(state: TransmissionState, intent: Intent) -> bool {
    match (state, intent) {
        (TransmissionState::Idle, Intent::StartCast) => true,
        (TransmissionState::Idle, Intent::StartReceive(_)) => true,
        (TransmissionState::Idle, Intent::SetRegion(_)) => true,
        (TransmissionState::Casting { .. }, Intent::Pause) => true,
        (TransmissionState::Casting { .. }, Intent::Resume) => true,
        (TransmissionState::Casting { .. }, Intent::ToggleBlank) => true,
        (TransmissionState::Casting { .. }, Intent::SetRegion(_)) => true,
        (TransmissionState::Casting { .. }, Intent::Stop) => true,
        (TransmissionState::Receiving, Intent::Stop) => true,
        _ => false,
    }
}

/// State machine totality: a pair of state and intent that no transition
/// handles leaves the machine unchanged and is answered with "nothing to
/// do" — never a failure.
pub proof fn lemma_unhandled_intent_is_noop(m: MachineView, intent: Intent)
    requires
        !handled_pair(m.state, intent),
    ensures
        intent_outcome(m, intent) == (m, Ok::<Option<SessionAction>, ValidationError>(None)),
{
}

/// A rejected intent never changes the machine: whenever the answer is a
/// validation error, the view is the one from before the intent.
pub proof fn lemma_rejected_intent_is_noop(m: MachineView, intent: Intent)
    ensures
        intent_outcome(m, intent).1 is Err ==> intent_outcome(m, intent).0 == m,
{
}

/// Fatal-error collapse leaves a machine from which a new transmission
/// starts cleanly: in the collapsed view, a start intent is accepted and
/// asks for a fresh session with the region that was selected before.
pub proof fn lemma_collapse_allows_restart(m: MachineView)
    ensures
        ({
            let collapsed = MachineView { state: TransmissionState::Idle, ..m };
            intent_outcome(collapsed, Intent::StartCast) == (
                collapsed,
                Ok::<Option<SessionAction>, ValidationError>(
                    Some(SessionAction::StartCaster { region: m.region }),
                ),
            )
        }),
{
}

/// The transmission state machine. All intents and outcome reports must be
/// handed to it serially, from one thread of control.
pub struct TransmissionMachine {
    state: TransmissionState,
    region: ScreenRegion,
}

impl View for TransmissionMachine {
    type V = MachineView;

    closed spec fn view(&self) -> MachineView {
        MachineView { state: self.state, region: self.region }
    }
}

impl TransmissionMachine {
    /// A machine starts idle, with the full screen selected.
    pub fn new() -> (m: TransmissionMachine)
        ensures
            m@.state == TransmissionState::Idle,
            m@.region.is_full_screen(),
    {
        TransmissionMachine {
            state: TransmissionState::Idle,
            region: ScreenRegion { startx: 0, starty: 0, endx: 0, endy: 0 },
        }
    }

    /// The current lifecycle state.
    pub fn state(&self) -> (s: TransmissionState)
        ensures
            s == self@.state,
    {
        self.state
    }

    /// The capture region selected for the current or next caster session.
    pub fn region(&self) -> (r: ScreenRegion)
        ensures
            r == self@.region,
    {
        self.region
    }

    /// Validate one intent against the current state and answer with what
    /// must be done, exactly as the transition function says: the action to
    /// carry out, "nothing to do", or a typed rejection that changed
    /// nothing.
    pub fn handle_intent(&mut self, intent: &Intent) -> (r: Result<
        Option<SessionAction>,
        ValidationError,
    >)
        ensures
            ({
                let o = intent_outcome(old(self)@, *intent);
                final(self)@ == o.0 && r == o.1
            }),
            r is Err ==> final(self)@ == old(self)@,
    {
        match intent {
            Intent::StartCast => {
                match self.state {
                    TransmissionState::Idle => Ok(
                        Some(SessionAction::StartCaster { region: self.region }),
                    ),
                    _ => Ok(None),
                }
            },
            Intent::StartReceive(ip) => {
                match self.state {
                    TransmissionState::Idle => {
                        match parse_ipv4(ip.as_str()) {
                            Some(host) => Ok(Some(SessionAction::StartReceiver { host })),
                            None => Err(ValidationError::BadAddress),
                        }
                    },
                    _ => Ok(None),
                }
            },
            Intent::Pause => {
                match self.state {
                    TransmissionState::Casting { paused: _, blanked } => {
                        self.state = TransmissionState::Casting { paused: true, blanked };
                        Ok(Some(SessionAction::SetPipeline(PipelineState::Paused)))
                    },
                    _ => Ok(None),
                }
            },
            Intent::Resume => {
                match self.state {
                    TransmissionState::Casting { paused: _, blanked } => {
                        self.state = TransmissionState::Casting { paused: false, blanked };
                        Ok(Some(SessionAction::SetPipeline(PipelineState::Playing)))
                    },
                    _ => Ok(None),
                }
            },
            Intent::ToggleBlank => {
                match self.state {
                    TransmissionState::Casting { paused, blanked } => {
                        self.state = TransmissionState::Casting { paused, blanked: !blanked };
                        if blanked {
                            Ok(Some(SessionAction::Restore))
                        } else {
                            Ok(Some(SessionAction::Blank))
                        }
                    },
                    _ => Ok(None),
                }
            },
            Intent::SetRegion(r) => {
                match self.state {
                    TransmissionState::Idle => {
                        match ScreenRegion::new(r.startx, r.starty, r.endx, r.endy) {
                            Some(region) => {
                                self.region = region;
                                Ok(None)
                            },
                            None => Err(ValidationError::BadRegion),
                        }
                    },
                    TransmissionState::Casting { .. } => {
                        match ScreenRegion::new(r.startx, r.starty, r.endx, r.endy) {
                            Some(region) => {
                                self.region = region;
                                Ok(Some(SessionAction::ApplyRegion(region)))
                            },
                            None => Err(ValidationError::BadRegion),
                        }
                    },
                    _ => Ok(None),
                }
            },
            Intent::Stop => {
                match self.state {
                    TransmissionState::Casting { .. } => {
                        self.state = TransmissionState::Idle;
                        Ok(Some(SessionAction::StopSession))
                    },
                    TransmissionState::Receiving => {
                        self.state = TransmissionState::Idle;
                        Ok(Some(SessionAction::StopSession))
                    },
                    _ => Ok(None),
                }
            },
        }
    }

    /// Report how a requested start ended. Only a success reported while
    /// idle enters the role's state; a failure leaves the machine idle with
    /// the construction error surfaced by the caller, and a report in any
    /// other state changes nothing.
    pub fn confirm_start(&mut self, mode: Mode, ok: bool)
        ensures
            final(self)@ == start_outcome(old(self)@, mode, ok),
    {
        if ok {
            match self.state {
                TransmissionState::Idle => {
                    match mode {
                        Mode::Caster => {
                            self.state = TransmissionState::Casting {
                                paused: false,
                                blanked: false,
                            };
                        },
                        Mode::Receiver => {
                            self.state = TransmissionState::Receiving;
                        },
                    }
                },
                _ => {},
            }
        }
    }

    /// Fatal-error collapse: a pipeline or connection failure reported
    /// while a session is live forces the machine to idle, whatever
    /// sub-state it was in; the caller must destroy the session exactly
    /// when this returns true.
    pub fn on_fatal_error(&mut self) -> (was_live: bool)
        ensures
            final(self)@.state == TransmissionState::Idle,
            final(self)@.region == old(self)@.region,
            was_live == !(old(self)@.state is Idle),
    {
        let was_live = match self.state {
            TransmissionState::Idle => false,
            _ => true,
        };
        self.state = TransmissionState::Idle;
        was_live
    }

    /// The receiver's signal connection was reported closed. While
    /// receiving this forces the machine to idle exactly as an explicit
    /// stop would, and returns true so the caller destroys the session and
    /// tells the user it was involuntary; in any other state it changes
    /// nothing.
    pub fn on_connection_lost(&mut self) -> (was_receiving: bool)
        ensures
            was_receiving == (old(self)@.state is Receiving),
            old(self)@.state is Receiving ==> final(self)@ == (MachineView {
                state: TransmissionState::Idle,
                ..old(self)@
            }),
            !(old(self)@.state is Receiving) ==> *final(self) == *old(self),
    {
        match self.state {
            TransmissionState::Receiving => {
                self.state = TransmissionState::Idle;
                true
            },
            _ => false,
        }
    }
}

} // verus!
