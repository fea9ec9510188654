use moonlight_web::api::{external_ip_mismatch, nat_issue, remote_accessible_after_nat, upnp_issue};
use moonlight_web::fuji::fuji_internal_url;
use moonlight_web::peer::{
    datagram_transport_clears_input, input_channel_plan, input_peer_state_action, ipc_directive,
    is_input_path, peer_state_action, route_outbound, session_request_decision, InputPeerAction,
    PeerConnectionState, PeerEmission, RouteDecision, ServerIpcMessage, SessionAcceptNotice,
    SessionRequestDecision, TerminationTimer, TimerEffect, TransportDirective, TransportShutdown,
    TIMEOUT_MS,
};
use moonlight_web::packets::{TransportChannel, CHANNEL_GENERAL, CHANNEL_STATS, CHANNEL_TOUCH};
use moonlight_web::remote::{
    attach_remote_access, build_ice_servers, build_remote_access_info, detect_nat_info,
    discover_external_ip, DetailedHost, RemoteAccessProvider, RemoteConfig, RtcIceServer,
};
use moonlight_web::settings::cert_hash_hex;
use moonlight_web::stun::{
    classify_nat, extract_mapped_address, is_cgnat_address, NatDetectionResult, NatType,
    StunAttribute, StunClient, StunResult,
};
use moonlight_web::supervisor::{parse_pid_line, StreamerProcessManager};

#[test]
fn test_nat_type_str() {
    assert_eq!(NatType::NoNat.as_str(), "none");
    assert_eq!(NatType::Symmetric.as_str(), "symmetric");
    assert_eq!(NatType::CarrierGradeNat.as_str(), "carrier_grade_nat");
}

#[test]
fn test_cgnat_detection() {
    assert!(is_cgnat_address(100, 64, 0, 1));
    assert!(is_cgnat_address(100, 127, 255, 254));
    assert!(!is_cgnat_address(100, 63, 0, 1));
    assert!(!is_cgnat_address(100, 128, 0, 1));
    assert!(!is_cgnat_address(192, 168, 1, 1));
}

#[test]
fn nat_classification_cases() {
    let first = StunResult {
        external_ip: [203, 0, 113, 7],
        external_port: 40_000,
        stun_server: "a".to_string(),
    };

    // No probe answer at all: detection failed, and the failure is reported.
    let failed = classify_nat(None, None, None);
    assert!(!failed.success);
    assert!(failed.error.is_some());
    assert!(failed.external_ip.is_none());
    assert_eq!(failed.nat_type, NatType::Unknown);

    // The local address equals the mapped one: no NAT.
    let none = classify_nat(Some(&first), None, Some([203, 0, 113, 7]));
    assert_eq!(none.nat_type, NatType::NoNat);

    // A second server sees another port: symmetric NAT.
    let second = StunResult {
        external_ip: [203, 0, 113, 7],
        external_port: 40_001,
        stun_server: "b".to_string(),
    };
    let sym = classify_nat(Some(&first), Some(&second), None);
    assert_eq!(sym.nat_type, NatType::Symmetric);

    // A second server sees another address: double NAT.
    let other_ip = StunResult {
        external_ip: [198, 51, 100, 1],
        external_port: 40_000,
        stun_server: "b".to_string(),
    };
    let double = classify_nat(Some(&first), Some(&other_ip), None);
    assert_eq!(double.nat_type, NatType::DoubleNat);

    // Consistent results: the common port-restricted case is assumed.
    let same = StunResult {
        external_ip: [203, 0, 113, 7],
        external_port: 40_000,
        stun_server: "b".to_string(),
    };
    let pr = classify_nat(Some(&first), Some(&same), None);
    assert_eq!(pr.nat_type, NatType::PortRestricted);

    // A carrier-grade mapped address wins over everything.
    let cg = StunResult {
        external_ip: [100, 70, 0, 1],
        external_port: 1,
        stun_server: "a".to_string(),
    };
    let cgr = classify_nat(Some(&cg), Some(&second), Some([100, 70, 0, 1]));
    assert_eq!(cgr.nat_type, NatType::CarrierGradeNat);
}

#[test]
fn nat_support_and_description() {
    assert!(NatType::NoNat.supports_direct_connection());
    assert!(NatType::PortRestricted.supports_direct_connection());
    assert!(!NatType::Symmetric.supports_direct_connection());
    assert!(!NatType::CarrierGradeNat.supports_direct_connection());
    assert_eq!(NatType::Symmetric.description(), "Symmetric NAT (TURN relay may be needed)");
}

#[test]
fn stun_client_defaults() {
    let c = StunClient::new();
    assert_eq!(c.timeout_secs, 3);
    assert_eq!(c.stun_servers.len(), 4);
    assert_eq!(c.stun_servers[0], "stun.l.google.com:19302");
    let custom = StunClient::with_servers(vec!["stun.example.org:3478".to_string()]);
    assert_eq!(custom.stun_servers.len(), 1);
}

#[test]
fn mapped_address_prefers_first_xor() {
    let attrs = vec![
        StunAttribute::Other,
        StunAttribute::MappedAddress { ip: [1, 1, 1, 1], port: 1 },
        StunAttribute::XorMappedAddress { ip: [2, 2, 2, 2], port: 2 },
        StunAttribute::XorMappedAddress { ip: [3, 3, 3, 3], port: 3 },
    ];
    // The first exclusive-or mapped address wins, not the plain one before it
    // and not the later duplicate.
    assert_eq!(extract_mapped_address(&attrs), Some(([2, 2, 2, 2], 2)));
    let plain = vec![
        StunAttribute::MappedAddress { ip: [1, 1, 1, 1], port: 1 },
        StunAttribute::MappedAddress { ip: [4, 4, 4, 4], port: 4 },
    ];
    assert_eq!(extract_mapped_address(&plain), Some(([1, 1, 1, 1], 1)));
    assert_eq!(extract_mapped_address(&vec![StunAttribute::Other]), None);
}

#[test]
fn peer_state_policy() {
    // A connected recovery both starts the stream and clears the slot.
    assert_eq!(
        peer_state_action(PeerConnectionState::Connected),
        (PeerEmission::StartStream, TimerEffect::Clear)
    );
    assert_eq!(
        peer_state_action(PeerConnectionState::Closed),
        (PeerEmission::ConnectionClosed, TimerEffect::Keep)
    );
    assert_eq!(
        peer_state_action(PeerConnectionState::Disconnected),
        (PeerEmission::Nothing, TimerEffect::Arm)
    );
    assert_eq!(
        peer_state_action(PeerConnectionState::Failed),
        (PeerEmission::Nothing, TimerEffect::Arm)
    );
    assert_eq!(
        peer_state_action(PeerConnectionState::New),
        (PeerEmission::Nothing, TimerEffect::Clear)
    );
    assert_eq!(
        input_peer_state_action(PeerConnectionState::Connected),
        InputPeerAction::EmitInputReady
    );
    assert_eq!(
        input_peer_state_action(PeerConnectionState::Failed),
        InputPeerAction::ClearInputPeer
    );
}

#[test]
fn brief_flap_does_not_close_the_session() {
    let mut timer = TerminationTimer::new();
    // A disconnect at one second arms the timer.
    let (_, on_disconnect) = peer_state_action(PeerConnectionState::Disconnected);
    assert_eq!(on_disconnect, TimerEffect::Arm);
    timer.arm(1_000);
    // The peer recovers five seconds later: the connected step clears it.
    let (emission, on_recover) = peer_state_action(PeerConnectionState::Connected);
    assert_eq!(emission, PeerEmission::StartStream);
    assert_eq!(on_recover, TimerEffect::Clear);
    timer.clear();
    // The one-shot fires after the timeout and closes nothing.
    assert!(!timer.should_close(1_000 + TIMEOUT_MS + 300));
}

#[test]
fn sustained_outage_closes_the_session() {
    let mut timer = TerminationTimer::new();
    timer.arm(1_000);
    assert!(!timer.should_close(1_000 + TIMEOUT_MS));
    assert!(timer.should_close(1_000 + TIMEOUT_MS + 1));
}

#[test]
fn outbound_routing() {
    let general = TransportChannel(CHANNEL_GENERAL);
    let stats = TransportChannel(CHANNEL_STATS);
    assert_eq!(route_outbound(general, false, false), RouteDecision::PrimaryGeneral);
    assert_eq!(route_outbound(stats, true, true), RouteDecision::InputStats);
    assert_eq!(route_outbound(stats, false, true), RouteDecision::PrimaryStats);
    assert_eq!(route_outbound(stats, false, false), RouteDecision::ChannelClosed);
    assert_eq!(
        route_outbound(TransportChannel(CHANNEL_TOUCH), true, true),
        RouteDecision::ChannelClosed
    );
}

#[test]
fn session_request_policy() {
    assert_eq!(
        session_request_decision(true, false, false, false),
        (SessionRequestDecision::Forbidden, SessionAcceptNotice::NoNotice)
    );
    assert_eq!(
        session_request_decision(true, true, false, true),
        (SessionRequestDecision::TooManyRequests, SessionAcceptNotice::NoNotice)
    );
    // Accepting the input session owes exactly one input-ready notice.
    assert_eq!(
        session_request_decision(true, true, false, false),
        (SessionRequestDecision::AcceptInput, SessionAcceptNotice::EmitInputReady)
    );
    assert_eq!(
        session_request_decision(false, false, true, false),
        (SessionRequestDecision::TooManyRequests, SessionAcceptNotice::NoNotice)
    );
    // Accepting the main session owes exactly one start-stream emission with
    // the session's pinned settings.
    assert_eq!(
        session_request_decision(false, false, false, false),
        (SessionRequestDecision::AcceptMain, SessionAcceptNotice::EmitStartStreamWithSettings)
    );
}

#[test]
fn datagram_transport_ipc() {
    // The datagram transport acts only on an input disconnect.
    assert!(datagram_transport_clears_input(&ServerIpcMessage::InputDisconnected));
    assert!(!datagram_transport_clears_input(&ServerIpcMessage::InputJoined));
    assert!(!datagram_transport_clears_input(&ServerIpcMessage::Stop));
    assert!(!datagram_transport_clears_input(&ServerIpcMessage::WebSocket("sdp".to_string())));
}

#[test]
fn ipc_dispatch() {
    assert!(matches!(
        ipc_directive(ServerIpcMessage::InputJoined),
        TransportDirective::CreateInputPeer
    ));
    assert!(matches!(
        ipc_directive(ServerIpcMessage::InputDisconnected),
        TransportDirective::CloseInputPeer
    ));
    assert!(matches!(
        ipc_directive(ServerIpcMessage::WebSocket("sdp".to_string())),
        TransportDirective::HandleSignaling(_)
    ));
    assert!(matches!(ipc_directive(ServerIpcMessage::Stop), TransportDirective::NoDirective));
}

#[test]
fn close_is_idempotent() {
    let mut t = TransportShutdown::new();
    assert!(t.close().is_ok());
    let snapshot = (t.shutdown_signalled, t.main_closed, t.input_closed);
    assert!(t.close().is_ok());
    assert_eq!(snapshot, (t.shutdown_signalled, t.main_closed, t.input_closed));
}

#[test]
fn supervisor_registry_lifecycle() {
    let mut m = StreamerProcessManager::new();
    m.register(101, Some("sess".to_string()), 0);
    m.register(102, None, 0);
    assert_eq!(m.process_count(), 2);
    assert!(m.has_active_streamer());

    // A confirmed kill removes the entry; an unconfirmed one keeps it.
    assert!(m.kill_process(101, true));
    assert!(!m.kill_process(102, false));
    assert_eq!(m.process_count(), 1);

    // Repeating the confirmed kill does not re-kill anything.
    assert!(m.kill_process(101, true));
    assert_eq!(m.process_count(), 1);

    assert_eq!(m.tracked_pids(), vec![102]);

    // The orphan scan kills only untracked processes.
    let orphans = m.orphan_pids(&vec![102, 555, 666]);
    assert_eq!(orphans, vec![555, 666]);

    // The sweeper removes dead entries without touching live ones.
    m.register(103, None, 5);
    m.remove_dead(&vec![102]);
    assert_eq!(m.tracked_pids(), vec![103]);
}

#[test]
fn pid_lines_parse_strictly() {
    assert_eq!(parse_pid_line("1234"), Some(1234));
    assert_eq!(parse_pid_line("007"), Some(7));
    assert_eq!(parse_pid_line(""), None);
    assert_eq!(parse_pid_line("12a4"), None);
    assert_eq!(parse_pid_line("99999999999999999999"), None);
}

#[test]
fn remote_access_assembly() {
    let (ip, method) = discover_external_ip(Some("198.51.100.2".to_string()), None, true);
    assert_eq!(ip.as_deref(), Some("198.51.100.2"));
    assert_eq!(method, "upnp");
    let (ip2, method2) = discover_external_ip(None, Some("203.0.113.9".to_string()), true);
    assert_eq!(ip2.as_deref(), Some("203.0.113.9"));
    assert_eq!(method2, "stun");
    let (ip3, method3) = discover_external_ip(None, Some("203.0.113.9".to_string()), false);
    assert!(ip3.is_none());
    assert_eq!(method3, "none");

    let detection = NatDetectionResult {
        nat_type: NatType::Symmetric,
        external_ip: Some([203, 0, 113, 9]),
        external_port: Some(4),
        success: true,
        error: None,
    };
    let (nat, turn) = detect_nat_info(true, Some(&detection));
    assert_eq!(nat, "symmetric");
    assert!(turn);
    let (nat_off, turn_off) = detect_nat_info(false, Some(&detection));
    assert_eq!(nat_off, "unknown");
    assert!(!turn_off);

    let servers = vec![RtcIceServer {
        urls: vec!["stun:stun.example.org".to_string()],
        username: None,
        credential: None,
    }];
    let with_turn = build_ice_servers(
        servers,
        Some(RtcIceServer {
            urls: vec!["turn:turn.example.org".to_string()],
            username: Some("u".to_string()),
            credential: Some("SECRET-REDACTED".to_string()),
        }),
    );
    assert_eq!(with_turn.unwrap().len(), 2);
    assert!(build_ice_servers(vec![], None).is_none());

    let info = build_remote_access_info(
        RemoteConfig {
            enabled: true,
            hostname: Some("gamebox.example".to_string()),
            port: Some(8443),
            ssl_required: false,
            stun_discovery: true,
        },
        8080,
        true,
        Some("203.0.113.9".to_string()),
        "stun".to_string(),
        "symmetric".to_string(),
        true,
        None,
    )
    .unwrap();
    assert_eq!(info.port, 8443);
    assert_eq!(info.nat_type, "symmetric");

    // Without an address or host name, nothing is offered.
    assert!(build_remote_access_info(
        RemoteConfig {
            enabled: true,
            hostname: None,
            port: None,
            ssl_required: false,
            stun_discovery: false,
        },
        8080,
        false,
        None,
        "none".to_string(),
        "unknown".to_string(),
        false,
        None,
    )
    .is_none());

    let provider = RemoteAccessProvider::from_parts(Some(info));
    assert!(provider.is_available());
    let host = DetailedHost {
        name: "gamebox".to_string(),
        paired: true,
        remote_access: None,
    };
    let enriched = attach_remote_access(host, provider);
    assert!(enriched.remote_access.is_some());
    assert_eq!(enriched.remote_access.unwrap().port, 8443);
}

#[test]
fn certificate_hash_is_the_hex_sha256_of_the_der() {
    // The well-known digest of the empty input.
    assert_eq!(
        cert_hash_hex(&vec![]),
        "e3b0c44298fc1c149afbf4c8996fb92427ae41e4649b934ca495991b7852b855"
    );
    // And of the three bytes `abc`.
    assert_eq!(
        cert_hash_hex(&vec![b'a', b'b', b'c']),
        "ba7816bf8f01cfea414140de5dae2223b00361a396177a9cb410ff61f20015ad"
    );
}

#[test]
fn fuji_internal_url_is_fixed() {
    assert_eq!(fuji_internal_url(), "http://127.0.0.1:47991/internal");
}

#[test]
fn input_channel_plan_matches_the_channel_set() {
    let plan = input_channel_plan();
    assert_eq!(plan.len(), 23);
    assert_eq!(plan[0].label, "mouse_reliable");
    assert!(plan[0].ordered);
    assert_eq!(plan[1].label, "mouse_absolute");
    assert!(!plan[1].ordered);
    assert_eq!(plan[5].label, "controllers");
    assert_eq!(plan[6].label, "controller0");
    assert_eq!(plan[21].label, "controller15");
    assert_eq!(plan[22].label, "stats");
    assert!(plan[22].ordered);
    // Every planned label resolves to a channel both peers know.
    for spec in &plan {
        assert!(moonlight_web::packets::channel_for_label(spec.label).is_some());
    }
}

#[test]
fn network_diagnostics_decisions() {
    assert_eq!(nat_issue(false, NatType::NoNat), Some(("warning", "stun_failed")));
    assert_eq!(nat_issue(true, NatType::Symmetric), Some(("warning", "symmetric_nat")));
    assert_eq!(nat_issue(true, NatType::CarrierGradeNat), Some(("error", "cgnat_detected")));
    assert_eq!(nat_issue(true, NatType::DoubleNat), Some(("warning", "double_nat")));
    assert_eq!(nat_issue(true, NatType::Unknown), Some(("warning", "nat_unknown")));
    assert_eq!(nat_issue(true, NatType::PortRestricted), None);

    assert_eq!(upnp_issue(false, 0), Some(("warning", "upnp_unavailable")));
    assert_eq!(upnp_issue(true, 2), Some(("warning", "upnp_partial_failure")));
    assert_eq!(upnp_issue(true, 0), None);

    let a = "203.0.113.1".to_string();
    let b = "203.0.113.2".to_string();
    assert!(external_ip_mismatch(Some(&a), Some(&b)));
    assert!(!external_ip_mismatch(Some(&a), Some(&a.clone())));
    assert!(!external_ip_mismatch(None, Some(&b)));

    assert!(!remote_accessible_after_nat(true, true, NatType::CarrierGradeNat, true));
    assert!(remote_accessible_after_nat(false, true, NatType::PortRestricted, true));
    assert!(!remote_accessible_after_nat(false, true, NatType::Symmetric, true));
    assert!(remote_accessible_after_nat(true, false, NatType::Unknown, false));
}

#[test]
fn path_dispatch() {
    assert!(is_input_path("/webtransport/input"));
    assert!(is_input_path("/input"));
    assert!(!is_input_path("/webtransport"));
    assert!(!is_input_path(""));
    assert!(!is_input_path("/inpu"));
}
