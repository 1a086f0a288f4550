//! The caster-side session model.
//!
//! A caster session owns the fan-out registry and drives one capturing,
//! encoding media pipeline. The listener that accepts receivers and the
//! engine itself live outside this crate; the embedder forwards every
//! connect/disconnect notification to [`StreamingServer::on_signal_event`]
//! and executes each returned command, so the engine's destination list and
//! state stay equal to this model.

use vstd::prelude::*;
use crate::endpoint::{live_step, ReceiverEndpoint, SignalEvent};
use crate::region::ScreenRegion;
use crate::registry::{add_command, remove_command, FanoutCommand, FanoutRegistry};
use crate::streaming::{PipelineCommand, PipelineState};

verus! {

/// Why a caster session could not be produced or has failed.
#[derive(PartialEq, Eq, Structural, Clone, Copy, Debug)]
pub enum StreamingServerError {
    /// The control-channel listener could not be opened or broke down.
    Connection,
    /// The media engine failed to build or to change state.
    Pipeline,
    /// A capture rectangle with no extent (other than the reserved zero
    /// region) was rejected; the pipeline was not touched.
    InvalidRegion,
}

/// What a caster session is: what its pipeline must be doing, whether the
/// screen is blanked, which region is captured, and which receivers are
/// media destinations.
pub struct ServerView {
    pub pipeline: PipelineState,
    pub blanked: bool,
    pub region: ScreenRegion,
    pub destinations: Set<ReceiverEndpoint>,
}

impl ServerView {
    /// A fresh caster session: pipeline down, nothing blanked, full screen,
    /// no destinations.
    pub open spec fn initial() -> ServerView {
        ServerView {
            pipeline: PipelineState::Null,
            blanked: false,
            region: ScreenRegion { startx: 0, starty: 0, endx: 0, endy: 0 },
            destinations: Set::empty(),
        }
    }
}

/// The caster session: one screen-capturing pipeline fanning out to the
/// receivers the registry holds.
pub struct StreamingServer {
    pipeline: PipelineState,
    blanked: bool,
    region: ScreenRegion,
    registry: FanoutRegistry,
}

impl View for StreamingServer {
    type V = ServerView;

    closed spec fn view(&self) -> ServerView {
        ServerView {
            pipeline: self.pipeline,
            blanked: self.blanked,
            region: self.region,
            destinations: self.registry@,
        }
    }
}

impl StreamingServer {
    /// The session's registry lists each destination exactly once, and the
    /// capture region is a valid rectangle.
    pub closed spec fn wf(&self) -> bool {
        self.registry.wf() && self.region.wf()
    }

    /// Open a caster session. The model itself cannot fail; failures of the
    /// outside engine or listener are the embedder's to report, with this
    /// session then discarded unstarted.
    pub fn new() -> (r: Result<StreamingServer, StreamingServerError>)
        ensures
            match r {
                Ok(s) => s@ == ServerView::initial() && s.wf(),
                Err(_) => false,
            },
    {
        let s = StreamingServer {
            pipeline: PipelineState::Null,
            blanked: false,
            region: ScreenRegion { startx: 0, starty: 0, endx: 0, endy: 0 },
            registry: FanoutRegistry::new(),
        };
        proof {
            assert(s@.destinations =~= ServerView::initial().destinations);
        }
        Ok(s)
    }

    /// Start casting: the pipeline must be driven to `Playing`. Receivers,
    /// the blanking flag and the region are untouched.
    pub fn start(&mut self) -> (cmd: PipelineCommand)
        ensures
            cmd == PipelineCommand::SetState(PipelineState::Playing),
            final(self)@ == (ServerView { pipeline: PipelineState::Playing, ..old(self)@ }),
            old(self).wf() ==> final(self).wf(),
    {
        self.pipeline = PipelineState::Playing;
        PipelineCommand::SetState(PipelineState::Playing)
    }

    /// Pause casting: the pipeline stops emitting but receivers stay
    /// connected and remain destinations — nothing but the pipeline state
    /// changes.
    pub fn pause(&mut self) -> (cmd: PipelineCommand)
        ensures
            cmd == PipelineCommand::SetState(PipelineState::Paused),
            final(self)@ == (ServerView { pipeline: PipelineState::Paused, ..old(self)@ }),
            old(self).wf() ==> final(self).wf(),
    {
        self.pipeline = PipelineState::Paused;
        PipelineCommand::SetState(PipelineState::Paused)
    }

    /// Tear the pipeline down. The registry is not cleared here: the session
    /// is being destroyed, and its listener's trailing disconnects are the
    /// embedder's to deliver while it still exists.
    pub fn stop(&mut self) -> (cmd: PipelineCommand)
        ensures
            cmd == PipelineCommand::SetState(PipelineState::Null),
            final(self)@ == (ServerView { pipeline: PipelineState::Null, ..old(self)@ }),
            old(self).wf() ==> final(self).wf(),
    {
        self.pipeline = PipelineState::Null;
        PipelineCommand::SetState(PipelineState::Null)
    }

    /// Blank the outgoing picture: a constant frame replaces the screen
    /// while encoding continues; distinct from [`Self::pause`], which stops
    /// output.
    pub fn blank_screen(&mut self) -> (cmd: PipelineCommand)
        ensures
            cmd == PipelineCommand::Blank,
            final(self)@ == (ServerView { blanked: true, ..old(self)@ }),
            old(self).wf() ==> final(self).wf(),
    {
        self.blanked = true;
        PipelineCommand::Blank
    }

    /// Show the captured screen again after a blank.
    pub fn restore_screen(&mut self) -> (cmd: PipelineCommand)
        ensures
            cmd == PipelineCommand::Restore,
            final(self)@ == (ServerView { blanked: false, ..old(self)@ }),
            old(self).wf() ==> final(self).wf(),
    {
        self.blanked = false;
        PipelineCommand::Restore
    }

    /// Aim the capture at a rectangle, live — no restart. The rectangle is
    /// validated first: it is accepted exactly when it is the reserved zero
    /// region or has positive extent in both directions; otherwise nothing
    /// changes and the pipeline is not touched.
    pub fn capture_resize(&mut self, startx: u32, starty: u32, endx: u32, endy: u32) -> (r:
        Result<PipelineCommand, StreamingServerError>)
        ensures
            ({
                let region = ScreenRegion { startx, starty, endx, endy };
                match r {
                    Ok(cmd) => region.wf() && cmd == PipelineCommand::ApplyRegion(region)
                        && final(self)@ == (ServerView { region, ..old(self)@ }),
                    Err(e) => !region.wf() && e == StreamingServerError::InvalidRegion
                        && *final(self) == *old(self),
                }
            }),
            old(self).wf() ==> final(self).wf(),
    {
        match ScreenRegion::new(startx, starty, endx, endy) {
            Some(region) => {
                self.region = region;
                Ok(PipelineCommand::ApplyRegion(region))
            },
            None => Err(StreamingServerError::InvalidRegion),
        }
    }

    /// Capture the whole screen again, through the same uniform region
    /// command, using the reserved zero region.
    pub fn capture_fullscreen(&mut self) -> (cmd: PipelineCommand)
        ensures
            ({
                let full = ScreenRegion { startx: 0, starty: 0, endx: 0, endy: 0 };
                cmd == PipelineCommand::ApplyRegion(full) && final(self)@ == (ServerView {
                    region: full,
                    ..old(self)@
                })
            }),
            old(self).wf() ==> final(self).wf(),
    {
        match self.capture_resize(0, 0, 0, 0) {
            Ok(cmd) => cmd,
            Err(_) => {
                proof {
                    assert(false);
                }
                PipelineCommand::ApplyRegion(
                    ScreenRegion { startx: 0, starty: 0, endx: 0, endy: 0 },
                )
            },
        }
    }

    /// Route one connect/disconnect notification into the fan-out registry:
    /// the destination set tracks the live connections, and each effective
    /// change returns exactly the one matching destination command for the
    /// engine — a duplicate connect or a stray disconnect returns none.
    pub fn on_signal_event(&mut self, ev: &SignalEvent) -> (cmd: Option<FanoutCommand>)
        requires
            old(self).wf(),
        ensures
            final(self).wf(),
            final(self)@ == (ServerView {
                destinations: live_step(old(self)@.destinations, *ev),
                ..old(self)@
            }),
            final(self)@.destinations == old(self)@.destinations ==> cmd is None,
            ev matches SignalEvent::Connected(e) ==> (!old(self)@.destinations.contains(*e)
                ==> cmd == Some(add_command(*e))),
            ev matches SignalEvent::Disconnected(Some(e)) ==> (old(self)@.destinations.contains(
                *e,
            ) ==> cmd == Some(remove_command(*e))),
    {
        self.registry.on_signal_event(ev)
    }

    /// How many receivers are currently media destinations.
    pub fn destination_count(&self) -> (n: usize)
        requires
            self.wf(),
        ensures
            n == self@.destinations.len(),
    {
        self.registry.count()
    }

    /// Is this receiver currently a media destination?
    pub fn is_destination(&self, e: &ReceiverEndpoint) -> (r: bool)
        ensures
            r == self@.destinations.contains(*e),
    {
        self.registry.is_active(e)
    }
}

} // verus!
