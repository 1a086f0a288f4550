//! The transmission session facade.
//!
//! A session is the live, role-specific handle of one transmission: a
//! [`client::StreamingClient`] on a receiver or a [`server::StreamingServer`]
//! on the caster, behind the one [`Streaming`] facade. The media engine
//! itself runs outside this crate; a session here is the verified model of
//! what that engine must be told, so every operation returns the
//! [`PipelineCommand`] the embedder has to execute, and the model state says
//! what the pipeline's state must be once it has.

pub mod client;
pub mod server;

use vstd::prelude::*;
use crate::region::ScreenRegion;

verus! {

/// The media pipeline states a session drives the engine through.
#[derive(PartialEq, Eq, Structural, Clone, Copy, Debug)]
pub enum PipelineState {
    /// Torn down: nothing is captured, sent or decoded.
    Null,
    /// Built but not emitting.
    Paused,
    /// Emitting (capturing and sending, or decoding).
    Playing,
}

/// One synchronous order for the media pipeline engine.
#[derive(PartialEq, Eq, Structural, Clone, Copy, Debug)]
pub enum PipelineCommand {
    /// Drive the pipeline into the given state.
    SetState(PipelineState),
    /// Re-aim the capture source at the given region, live.
    ApplyRegion(ScreenRegion),
    /// Substitute a constant frame without stopping encoding.
    Blank,
    /// Show the captured screen again.
    Restore,
}

/// The session facade: the one live role-specific session.
pub enum Streaming {
    Client(client::StreamingClient),
    Server(server::StreamingServer),
}

impl Streaming {
    /// Open a receiver session toward the caster at `ip`.
    ///
    /// The address text is validated first: a session is returned exactly
    /// when `ip` is a well-formed dotted-decimal IPv4 address, and it is
    /// aimed at that host. Whether the caster is reachable is the
    /// embedder's transport's outcome, reported later through the session's
    /// disconnect notification.
    pub fn new_client(ip: &str) -> (r: Result<Streaming, client::StreamingClientError>)
        ensures
            match r {
                Ok(s) => crate::ip::is_ipv4_text(ip@) && (s matches Streaming::Client(c)
                    && c@ == (client::ClientView {
                    host: crate::ip::ipv4_of_text(ip@),
                    pipeline: PipelineState::Null,
                    connected: true,
                })),
                Err(e) => !crate::ip::is_ipv4_text(ip@) && e
                    == client::StreamingClientError::InvalidAddress,
            },
    {
        match client::StreamingClient::new(ip) {
            Ok(c) => Ok(Streaming::Client(c)),
            Err(e) => Err(e),
        }
    }

    /// Open a caster session: nothing is emitted and no receiver is a
    /// destination until the pipeline is started and receivers connect.
    pub fn new_server() -> (r: Result<Streaming, server::StreamingServerError>)
        ensures
            match r {
                Ok(s) => s matches Streaming::Server(v) && v@ == server::ServerView::initial(),
                Err(_) => false,
            },
    {
        match server::StreamingServer::new() {
            Ok(v) => Ok(Streaming::Server(v)),
            Err(e) => Err(e),
        }
    }

    /// Start the transmission: either role drives its pipeline to
    /// `Playing` and changes nothing else.
    pub fn start(&mut self) -> (cmd: PipelineCommand)
        ensures
            cmd == PipelineCommand::SetState(PipelineState::Playing),
            match *old(self) {
                Streaming::Client(c) => *final(self) matches Streaming::Client(c2) && c2@ == (
                client::ClientView { pipeline: PipelineState::Playing, ..c@ }),
                Streaming::Server(v) => *final(self) matches Streaming::Server(v2) && v2@ == (
                server::ServerView { pipeline: PipelineState::Playing, ..v@ }),
            },
    {
        match self {
            Streaming::Client(c) => c.start(),
            Streaming::Server(v) => v.start(),
        }
    }

    /// Stop the transmission: either role tears its pipeline down and
    /// changes nothing else of its own state.
    pub fn stop(&mut self) -> (cmd: PipelineCommand)
        ensures
            cmd == PipelineCommand::SetState(PipelineState::Null),
            match *old(self) {
                Streaming::Client(c) => *final(self) matches Streaming::Client(c2) && c2@ == (
                client::ClientView { pipeline: PipelineState::Null, ..c@ }),
                Streaming::Server(v) => *final(self) matches Streaming::Server(v2) && v2@ == (
                server::ServerView { pipeline: PipelineState::Null, ..v@ }),
            },
    {
        match self {
            Streaming::Client(c) => c.stop(),
            Streaming::Server(v) => v.stop(),
        }
    }
}

} // verus!
