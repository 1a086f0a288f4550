//! The receiver-side session model.
//!
//! A receiver session pairs one signal connection to the caster's control
//! endpoint with one decoding media pipeline. The transport and the decoder
//! live outside this crate; the embedder constructs this model once its
//! connection is open, executes every returned [`PipelineCommand`], and
//! forwards the transport's single close notification to [`StreamingClient::on_disconnect`].

use vstd::prelude::*;
use crate::ip::{ipv4_of_text, is_ipv4_text, parse_ipv4, Ipv4Host};
use crate::streaming::{PipelineCommand, PipelineState};

verus! {

/// Why a receiver session could not be produced or has failed.
#[derive(PartialEq, Eq, Structural, Clone, Copy, Debug)]
pub enum StreamingClientError {
    /// The caster address text is not a well-formed IPv4 address; nothing
    /// was attempted over the network.
    InvalidAddress,
    /// The control channel could not be opened or broke down.
    Connection,
    /// The media engine failed to build or to change state.
    Pipeline,
}

/// What a receiver session is: whom it listens to, what its pipeline must
/// be doing, and whether its signal connection is still open.
pub struct ClientView {
    pub host: Ipv4Host,
    pub pipeline: PipelineState,
    pub connected: bool,
}

/// The receiver session: decodes the stream of one caster while a signal
/// connection to that caster stays open.
pub struct StreamingClient {
    host: Ipv4Host,
    pipeline: PipelineState,
    connected: bool,
}

impl View for StreamingClient {
    type V = ClientView;

    closed spec fn view(&self) -> ClientView {
        ClientView { host: self.host, pipeline: self.pipeline, connected: self.connected }
    }
}

impl StreamingClient {
    /// Open a session toward the caster at `ip`.
    ///
    /// The text is validated first and rejected before anything else would
    /// happen: a session comes back exactly when `ip` is well formed, aimed
    /// at that host, with its pipeline still down and its connection
    /// considered open.
    pub fn new(ip: &str) -> (r: Result<StreamingClient, StreamingClientError>)
        ensures
            match r {
                Ok(c) => is_ipv4_text(ip@) && c@ == (ClientView {
                    host: ipv4_of_text(ip@),
                    pipeline: PipelineState::Null,
                    connected: true,
                }),
                Err(e) => !is_ipv4_text(ip@) && e == StreamingClientError::InvalidAddress,
            },
    {
        match parse_ipv4(ip) {
            Some(host) => Ok(
                StreamingClient { host, pipeline: PipelineState::Null, connected: true },
            ),
            None => Err(StreamingClientError::InvalidAddress),
        }
    }

    /// The caster this session listens to.
    pub fn host(&self) -> (h: Ipv4Host)
        ensures
            h == self@.host,
    {
        self.host
    }

    /// Arm the decoder: the pipeline must be driven to `Playing`.
    pub fn start(&mut self) -> (cmd: PipelineCommand)
        ensures
            cmd == PipelineCommand::SetState(PipelineState::Playing),
            final(self)@ == (ClientView { pipeline: PipelineState::Playing, ..old(self)@ }),
    {
        self.pipeline = PipelineState::Playing;
        PipelineCommand::SetState(PipelineState::Playing)
    }

    /// Whether the signal connection is still open: true from construction
    /// until the transport reports the connection closed.
    pub fn is_connected(&self) -> (r: bool)
        ensures
            r == self@.connected,
    {
        self.connected
    }

    /// The signal connection closed on us — caster gone or network failure.
    /// The pipeline must be torn down and the session reports itself
    /// disconnected; the notification is consumed exactly once per session
    /// because a session never reconnects.
    pub fn on_disconnect(&mut self) -> (cmd: PipelineCommand)
        ensures
            cmd == PipelineCommand::SetState(PipelineState::Null),
            final(self)@ == (ClientView {
                pipeline: PipelineState::Null,
                connected: false,
                ..old(self)@
            }),
    {
        self.pipeline = PipelineState::Null;
        self.connected = false;
        PipelineCommand::SetState(PipelineState::Null)
    }

    /// Dispose of the session on our own initiative: the pipeline must be
    /// torn down. Unlike [`Self::on_disconnect`], this does not mark the
    /// connection as lost — closing our own connection is not a disconnect
    /// notification, so the owner does not double-handle its teardown.
    pub fn stop(&mut self) -> (cmd: PipelineCommand)
        ensures
            cmd == PipelineCommand::SetState(PipelineState::Null),
            final(self)@ == (ClientView { pipeline: PipelineState::Null, ..old(self)@ }),
    {
        self.pipeline = PipelineState::Null;
        PipelineCommand::SetState(PipelineState::Null)
    }
}

} // verus!
