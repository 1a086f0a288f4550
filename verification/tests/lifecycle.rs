use rust_streamer::endpoint::{ReceiverEndpoint, SignalEvent, CONTROL_PORT};
use rust_streamer::ip::Ipv4Host;
use rust_streamer::machine::{
    Intent, Mode, SessionAction, TransmissionMachine, TransmissionState, ValidationError,
};
use rust_streamer::region::ScreenRegion;
use rust_streamer::streaming::client::StreamingClient;
use rust_streamer::streaming::server::StreamingServer;
use rust_streamer::streaming::{PipelineCommand, PipelineState, Streaming};

fn casting(paused: bool, blanked: bool) -> TransmissionState {
    TransmissionState::Casting { paused, blanked }
}

fn start_casting(m: &mut TransmissionMachine) {
    let r = m.handle_intent(&Intent::StartCast);
    assert!(matches!(r, Ok(Some(SessionAction::StartCaster { .. }))));
    m.confirm_start(Mode::Caster, true);
    assert_eq!(m.state(), casting(false, false));
}

fn start_receiving(m: &mut TransmissionMachine) {
    let r = m.handle_intent(&Intent::StartReceive(String::from("10.0.0.7")));
    assert_eq!(
        r,
        Ok(Some(SessionAction::StartReceiver {
            host: Ipv4Host { a: 10, b: 0, c: 0, d: 7 }
        }))
    );
    m.confirm_start(Mode::Receiver, true);
    assert_eq!(m.state(), TransmissionState::Receiving);
}

#[test]
fn machine_starts_idle() {
    let m = TransmissionMachine::new();
    assert_eq!(m.state(), TransmissionState::Idle);
    assert_eq!(m.region(), ScreenRegion { startx: 0, starty: 0, endx: 0, endy: 0 });
}

#[test]
fn bad_address_is_rejected_and_state_stays_idle() {
    // Validating "300.1.1.1" as the receiver address fails before any
    // connection is attempted; the machine stays idle.
    let mut m = TransmissionMachine::new();
    let r = m.handle_intent(&Intent::StartReceive(String::from("300.1.1.1")));
    assert_eq!(r, Err(ValidationError::BadAddress));
    assert_eq!(m.state(), TransmissionState::Idle);
}

#[test]
fn failed_start_leaves_machine_idle() {
    let mut m = TransmissionMachine::new();
    let r = m.handle_intent(&Intent::StartCast);
    assert!(matches!(r, Ok(Some(SessionAction::StartCaster { .. }))));
    m.confirm_start(Mode::Caster, false);
    assert_eq!(m.state(), TransmissionState::Idle);
}

#[test]
fn pause_resume_and_blank_toggle() {
    let mut m = TransmissionMachine::new();
    start_casting(&mut m);
    assert_eq!(
        m.handle_intent(&Intent::Pause),
        Ok(Some(SessionAction::SetPipeline(PipelineState::Paused)))
    );
    assert_eq!(m.state(), casting(true, false));
    assert_eq!(
        m.handle_intent(&Intent::Resume),
        Ok(Some(SessionAction::SetPipeline(PipelineState::Playing)))
    );
    assert_eq!(m.state(), casting(false, false));
    assert_eq!(m.handle_intent(&Intent::ToggleBlank), Ok(Some(SessionAction::Blank)));
    assert_eq!(m.state(), casting(false, true));
    assert_eq!(m.handle_intent(&Intent::ToggleBlank), Ok(Some(SessionAction::Restore)));
    assert_eq!(m.state(), casting(false, false));
}

#[test]
fn stop_returns_to_idle_from_either_role() {
    let mut m = TransmissionMachine::new();
    start_casting(&mut m);
    assert_eq!(m.handle_intent(&Intent::Stop), Ok(Some(SessionAction::StopSession)));
    assert_eq!(m.state(), TransmissionState::Idle);
    start_receiving(&mut m);
    assert_eq!(m.handle_intent(&Intent::Stop), Ok(Some(SessionAction::StopSession)));
    assert_eq!(m.state(), TransmissionState::Idle);
}

#[test]
fn unhandled_pairs_are_no_ops() {
    // Pairs of state and intent that no transition lists change nothing
    // and are answered with "nothing to do".
    let mut m = TransmissionMachine::new();
    assert_eq!(m.handle_intent(&Intent::Pause), Ok(None));
    assert_eq!(m.handle_intent(&Intent::Resume), Ok(None));
    assert_eq!(m.handle_intent(&Intent::ToggleBlank), Ok(None));
    assert_eq!(m.handle_intent(&Intent::Stop), Ok(None));
    assert_eq!(m.state(), TransmissionState::Idle);

    start_casting(&mut m);
    assert_eq!(m.handle_intent(&Intent::StartCast), Ok(None));
    assert_eq!(
        m.handle_intent(&Intent::StartReceive(String::from("10.0.0.1"))),
        Ok(None)
    );
    assert_eq!(m.state(), casting(false, false));
    assert_eq!(m.handle_intent(&Intent::Stop), Ok(Some(SessionAction::StopSession)));

    start_receiving(&mut m);
    assert_eq!(m.handle_intent(&Intent::StartCast), Ok(None));
    assert_eq!(m.handle_intent(&Intent::Pause), Ok(None));
    assert_eq!(m.handle_intent(&Intent::Resume), Ok(None));
    assert_eq!(m.handle_intent(&Intent::ToggleBlank), Ok(None));
    assert_eq!(
        m.handle_intent(&Intent::SetRegion(ScreenRegion {
            startx: 0,
            starty: 0,
            endx: 10,
            endy: 10
        })),
        Ok(None)
    );
    assert_eq!(m.state(), TransmissionState::Receiving);
}

#[test]
fn fatal_error_collapses_every_live_sub_state() {
    // A pipeline error in any sub-state of casting, or while receiving,
    // forces the machine to idle; a later start is accepted cleanly.
    let sub_states = [(false, false), (true, false), (false, true), (true, true)];
    for (paused, blanked) in sub_states {
        let mut m = TransmissionMachine::new();
        start_casting(&mut m);
        if paused {
            m.handle_intent(&Intent::Pause).unwrap();
        }
        if blanked {
            m.handle_intent(&Intent::ToggleBlank).unwrap();
        }
        assert_eq!(m.state(), casting(paused, blanked));
        assert!(m.on_fatal_error());
        assert_eq!(m.state(), TransmissionState::Idle);
        let r = m.handle_intent(&Intent::StartCast);
        assert!(matches!(r, Ok(Some(SessionAction::StartCaster { .. }))));
    }

    let mut m = TransmissionMachine::new();
    start_receiving(&mut m);
    assert!(m.on_fatal_error());
    assert_eq!(m.state(), TransmissionState::Idle);
    start_receiving(&mut m);

    let mut idle = TransmissionMachine::new();
    assert!(!idle.on_fatal_error());
    assert_eq!(idle.state(), TransmissionState::Idle);
}

#[test]
fn region_selection_is_validated() {
    let mut m = TransmissionMachine::new();
    let good = ScreenRegion { startx: 10, starty: 20, endx: 110, endy: 220 };
    assert_eq!(m.handle_intent(&Intent::SetRegion(good)), Ok(None));
    assert_eq!(m.region(), good);
    let bad = ScreenRegion { startx: 10, starty: 20, endx: 10, endy: 220 };
    assert_eq!(
        m.handle_intent(&Intent::SetRegion(bad)),
        Err(ValidationError::BadRegion)
    );
    assert_eq!(m.region(), good);

    start_casting(&mut m);
    let other = ScreenRegion { startx: 0, starty: 0, endx: 5, endy: 5 };
    assert_eq!(
        m.handle_intent(&Intent::SetRegion(other)),
        Ok(Some(SessionAction::ApplyRegion(other)))
    );
    assert_eq!(m.region(), other);
}

#[test]
fn started_caster_carries_selected_region() {
    let mut m = TransmissionMachine::new();
    let area = ScreenRegion { startx: 1, starty: 2, endx: 3, endy: 4 };
    assert_eq!(m.handle_intent(&Intent::SetRegion(area)), Ok(None));
    assert_eq!(
        m.handle_intent(&Intent::StartCast),
        Ok(Some(SessionAction::StartCaster { region: area }))
    );
}

#[test]
fn start_report_outside_idle_changes_nothing() {
    let mut m = TransmissionMachine::new();
    start_casting(&mut m);
    m.confirm_start(Mode::Receiver, true);
    assert_eq!(m.state(), casting(false, false));
    m.confirm_start(Mode::Caster, false);
    assert_eq!(m.state(), casting(false, false));
}

#[test]
fn failed_receiver_start_stays_idle() {
    let mut m = TransmissionMachine::new();
    let r = m.handle_intent(&Intent::StartReceive(String::from("10.0.0.7")));
    assert!(matches!(r, Ok(Some(SessionAction::StartReceiver { .. }))));
    m.confirm_start(Mode::Receiver, false);
    assert_eq!(m.state(), TransmissionState::Idle);
}

#[test]
fn pause_and_resume_keep_destinations() {
    // Pause then resume with one receiver connected: the registry does not
    // change across either call, only the pipeline state toggles.
    let mut s = StreamingServer::new().unwrap();
    let a = ReceiverEndpoint {
        host: Ipv4Host { a: 10, b: 1, c: 1, d: 1 },
        port: CONTROL_PORT,
    };
    s.start();
    assert!(s.on_signal_event(&SignalEvent::Connected(a)).is_some());
    assert_eq!(s.destination_count(), 1);
    assert_eq!(s.pause(), PipelineCommand::SetState(PipelineState::Paused));
    assert_eq!(s.destination_count(), 1);
    assert!(s.is_destination(&a));
    assert_eq!(s.start(), PipelineCommand::SetState(PipelineState::Playing));
    assert_eq!(s.destination_count(), 1);
    assert!(s.is_destination(&a));
}

#[test]
fn server_region_commands() {
    let mut s = StreamingServer::new().unwrap();
    assert_eq!(
        s.capture_resize(0, 0, 640, 480),
        Ok(PipelineCommand::ApplyRegion(ScreenRegion {
            startx: 0,
            starty: 0,
            endx: 640,
            endy: 480
        }))
    );
    assert!(s.capture_resize(9, 9, 9, 9).is_err());
    assert_eq!(
        s.capture_fullscreen(),
        PipelineCommand::ApplyRegion(ScreenRegion { startx: 0, starty: 0, endx: 0, endy: 0 })
    );
}

#[test]
fn server_blank_and_restore() {
    let mut s = StreamingServer::new().unwrap();
    assert_eq!(s.blank_screen(), PipelineCommand::Blank);
    assert_eq!(s.restore_screen(), PipelineCommand::Restore);
}

#[test]
fn receiver_disconnect_forces_idle_without_stop() {
    // The caster's server goes away: the client's connection closes, its
    // is_connected turns false, and the machine collapses to idle without
    // an explicit stop intent.
    let mut c = StreamingClient::new("172.16.5.5").unwrap();
    let mut m = TransmissionMachine::new();
    start_receiving(&mut m);
    assert_eq!(c.start(), PipelineCommand::SetState(PipelineState::Playing));
    assert!(c.is_connected());
    assert_eq!(c.on_disconnect(), PipelineCommand::SetState(PipelineState::Null));
    assert!(!c.is_connected());
    assert!(m.on_connection_lost());
    assert_eq!(m.state(), TransmissionState::Idle);
    assert!(!m.on_connection_lost());
}

#[test]
fn client_validates_address_first() {
    assert!(StreamingClient::new("10.0.0.300").is_err());
    let c = StreamingClient::new("10.0.0.30").unwrap();
    assert_eq!(c.host(), Ipv4Host { a: 10, b: 0, c: 0, d: 30 });
    assert!(c.is_connected());
}

#[test]
fn client_own_stop_keeps_connected_flag() {
    let mut c = StreamingClient::new("10.0.0.9").unwrap();
    c.start();
    assert_eq!(c.stop(), PipelineCommand::SetState(PipelineState::Null));
    assert!(c.is_connected());
}

#[test]
fn facade_dispatches_both_roles() {
    let mut s = Streaming::new_server().unwrap();
    assert!(matches!(s, Streaming::Server(_)));
    assert_eq!(s.start(), PipelineCommand::SetState(PipelineState::Playing));
    assert_eq!(s.stop(), PipelineCommand::SetState(PipelineState::Null));

    let mut c = Streaming::new_client("192.0.2.1").unwrap();
    assert!(matches!(c, Streaming::Client(_)));
    assert_eq!(c.start(), PipelineCommand::SetState(PipelineState::Playing));
    assert_eq!(c.stop(), PipelineCommand::SetState(PipelineState::Null));

    assert!(Streaming::new_client("not-an-address").is_err());
}
