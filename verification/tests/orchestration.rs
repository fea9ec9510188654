use moonlight_web::orchestrator::{
    orchestrate, stage_launching, stage_preparing, OrchestratorAction, OrchestratorEvent,
    OrchestratorState,
};
use moonlight_web::peer::{ipc_directive, ServerIpcMessage, TransportDirective};
use moonlight_web::session::SessionError;
use moonlight_web::settings::{Colorspace, StreamSettings};
use moonlight_web::video::{fragment_range, DecodeResult, VideoFormat, VideoSender, FORMAT_H264};

#[test]
fn non_hybrid_happy_path() {
    // The client's first message arrives without the hybrid flag.
    let (s1, a1) = orchestrate(
        OrchestratorState::AwaitingInit,
        OrchestratorEvent::InitReceived { hybrid: false },
    );
    assert_eq!(s1, OrchestratorState::Preparing);
    assert_eq!(a1, OrchestratorAction::SpawnOnly);

    let (s2, a2) = orchestrate(s1, OrchestratorEvent::StreamerSpawned);
    assert_eq!(s2, OrchestratorState::Launching);
    assert_eq!(a2, OrchestratorAction::NoAction);

    let (s3, a3) = orchestrate(s2, OrchestratorEvent::StreamStarted);
    assert_eq!(s3, OrchestratorState::Streaming);
    assert_eq!(a3, OrchestratorAction::ReportLaunchComplete);

    // One keyframe unit that fits one packet is sent as exactly one fragment.
    let mut video = VideoSender::new(FORMAT_H264);
    assert!(video.setup(VideoFormat::H264));
    let unit: Vec<u8> = vec![0, 0, 1, 0x65, 0x88, 0x80];
    let fragments = fragment_range(&unit, 3, unit.len(), 1188);
    assert_eq!(fragments.len(), 1);
    assert_eq!(video.conclude_unit(&vec![true]), DecodeResult::Sent);
}

#[test]
fn hybrid_init_reserves_a_session() {
    let (s, a) = orchestrate(
        OrchestratorState::AwaitingInit,
        OrchestratorEvent::InitReceived { hybrid: true },
    );
    assert_eq!(s, OrchestratorState::Preparing);
    assert_eq!(a, OrchestratorAction::ReserveHybridAndSpawn);
}

#[test]
fn primary_close_stops_from_every_state() {
    for state in [
        OrchestratorState::AwaitingInit,
        OrchestratorState::Preparing,
        OrchestratorState::Launching,
        OrchestratorState::Streaming,
        OrchestratorState::Stopped,
    ] {
        let (s, a) = orchestrate(state, OrchestratorEvent::PrimaryClosed);
        assert_eq!(s, OrchestratorState::Stopped);
        assert_eq!(a, OrchestratorAction::StopAndKillChild);
    }
}

#[test]
fn faults_surface_a_terminal_error() {
    let (s, a) = orchestrate(OrchestratorState::Launching, OrchestratorEvent::Fault);
    assert_eq!(s, OrchestratorState::Stopped);
    assert_eq!(a, OrchestratorAction::SurfaceInternalError);
}

#[test]
fn unexpected_events_change_nothing() {
    let (s, a) = orchestrate(OrchestratorState::Streaming, OrchestratorEvent::StreamerSpawned);
    assert_eq!(s, OrchestratorState::Streaming);
    assert_eq!(a, OrchestratorAction::NoAction);
}

#[test]
fn stage_names() {
    assert_eq!(stage_preparing(), "Preparing Stream");
    assert_eq!(stage_launching(), "Launch Streamer");
}

#[test]
fn input_leg_error_codes() {
    assert_eq!(SessionError::TokenExpired.code(), "TokenExpired");
    assert_eq!(SessionError::TokenInvalid.code(), "TokenInvalid");
    assert_eq!(SessionError::SessionNotFound.code(), "SessionNotFound");
    assert_eq!(SessionError::InputAlreadyConnected.code(), "InputAlreadyConnected");
    // Errors about a session that is going or gone are outside the leg's
    // vocabulary and report as a session that cannot be found.
    assert_eq!(SessionError::PrimaryDisconnected.code(), "SessionNotFound");
    assert_eq!(SessionError::SessionShuttingDown.code(), "SessionNotFound");
}

#[test]
fn forwarded_configuration_is_the_bootstrap_concern() {
    let settings = StreamSettings {
        bitrate: 20_000_000,
        packet_size: 1024,
        fps: 60,
        width: 1920,
        height: 1080,
        video_frame_queue_size: 3,
        audio_sample_queue_size: 16,
        play_audio_local: false,
        video_supported_formats: 1,
        video_colorspace: Colorspace::Rec709,
        video_color_range_full: false,
        hybrid_mode: true,
    };
    assert!(matches!(
        ipc_directive(ServerIpcMessage::Init(settings)),
        TransportDirective::NoDirective
    ));
}
