use moonlight_web::packets::{
    channel_for_label, channel_label, channel_reliable, stream_channel, InboundPacket,
    OutboundPacket, TransportChannel, CHANNEL_CONTROLLERS, CHANNEL_CONTROLLER_BASE,
    CHANNEL_GENERAL, CHANNEL_KEYBOARD, CHANNEL_MOUSE_ABSOLUTE, CHANNEL_STATS, CHANNEL_TOUCH,
};

#[test]
fn mouse_packet_round_trips() {
    let p = InboundPacket::MouseAbsolute { x: 640, y: 360, ref_width: 1920, ref_height: 1080 };
    let (channel, bytes) = p.encode();
    assert_eq!(channel.0, CHANNEL_MOUSE_ABSOLUTE);
    assert_eq!(bytes.len(), 8);
    let back = InboundPacket::decode(channel, &bytes).unwrap();
    assert_eq!(back, p);
}

#[test]
fn touch_packet_round_trips() {
    let p = InboundPacket::Touch { event_kind: 2, pointer_id: 0xDEAD_BEEF, x: 17, y: 65535 };
    let (channel, bytes) = p.encode();
    assert_eq!(channel.0, CHANNEL_TOUCH);
    let back = InboundPacket::decode(channel, &bytes).unwrap();
    assert_eq!(back, p);
}

#[test]
fn keyboard_packet_round_trips() {
    let p = InboundPacket::Keyboard { key_code: 0x0041, modifiers: 5, down: true };
    let (channel, bytes) = p.encode();
    assert_eq!(channel.0, CHANNEL_KEYBOARD);
    assert_eq!(bytes, vec![0x00, 0x41, 5, 1]);
    let back = InboundPacket::decode(channel, &bytes).unwrap();
    assert_eq!(back, p);
}

#[test]
fn controller_packet_round_trips() {
    let p = InboundPacket::Controller {
        index: 3,
        buttons: 0x0102_0304,
        left_trigger: 10,
        right_trigger: 20,
        left_x: 1,
        left_y: 2,
        right_x: 3,
        right_y: 4,
    };
    let (channel, bytes) = p.encode();
    assert_eq!(channel.0, CHANNEL_CONTROLLERS);
    assert_eq!(bytes.len(), 15);
    let back = InboundPacket::decode(channel, &bytes).unwrap();
    assert_eq!(back, p);
}

#[test]
fn malformed_payloads_are_dropped() {
    // Wrong length for the mouse channel.
    assert!(InboundPacket::decode(TransportChannel(CHANNEL_MOUSE_ABSOLUTE), &[1, 2, 3]).is_none());
    // A controller report naming a seventeenth controller is dropped.
    let mut bytes = vec![16u8];
    bytes.extend_from_slice(&[0; 14]);
    assert!(InboundPacket::decode(TransportChannel(CHANNEL_CONTROLLERS), &bytes).is_none());
    // An unknown channel decodes nothing.
    assert!(InboundPacket::decode(TransportChannel(99), &[0; 8]).is_none());
    // A keyboard down-marker above one is malformed.
    assert!(InboundPacket::decode(TransportChannel(CHANNEL_KEYBOARD), &[0, 65, 0, 2]).is_none());
}

#[test]
fn per_controller_channel_carries_its_own_index() {
    let bytes = [0u8; 14];
    let p = InboundPacket::decode(TransportChannel(CHANNEL_CONTROLLER_BASE + 5), &bytes).unwrap();
    match p {
        InboundPacket::Controller { index, .. } => assert_eq!(index, 5),
        _ => panic!("expected a controller report"),
    }
}

#[test]
fn labels_resolve_to_channels() {
    assert_eq!(channel_for_label("general").unwrap().0, CHANNEL_GENERAL);
    assert_eq!(channel_for_label("stats").unwrap().0, CHANNEL_STATS);
    assert_eq!(channel_for_label("mouse_reliable").unwrap().0, CHANNEL_MOUSE_ABSOLUTE);
    assert_eq!(channel_for_label("mouse_absolute").unwrap().0, CHANNEL_MOUSE_ABSOLUTE);
    assert_eq!(channel_for_label("mouse_relative").unwrap().0, CHANNEL_MOUSE_ABSOLUTE);
    assert_eq!(channel_for_label("touch").unwrap().0, CHANNEL_TOUCH);
    assert_eq!(channel_for_label("keyboard").unwrap().0, CHANNEL_KEYBOARD);
    assert_eq!(channel_for_label("controllers").unwrap().0, CHANNEL_CONTROLLERS);
    assert_eq!(channel_for_label("controller0").unwrap().0, CHANNEL_CONTROLLER_BASE);
    assert_eq!(channel_for_label("controller15").unwrap().0, CHANNEL_CONTROLLER_BASE + 15);
    // The channel set is bounded at sixteen controllers.
    assert!(channel_for_label("controller16").is_none());
    assert!(channel_for_label("gamepad").is_none());
}

#[test]
fn labels_round_trip_through_resolution() {
    for id in 0..22u8 {
        let label = channel_label(TransportChannel(id));
        assert_eq!(channel_for_label(label).unwrap().0, id);
    }
}

#[test]
fn delivery_classes() {
    assert!(channel_reliable(TransportChannel(CHANNEL_GENERAL)));
    assert!(channel_reliable(TransportChannel(CHANNEL_STATS)));
    assert!(channel_reliable(TransportChannel(CHANNEL_TOUCH)));
    assert!(channel_reliable(TransportChannel(CHANNEL_KEYBOARD)));
    assert!(!channel_reliable(TransportChannel(CHANNEL_MOUSE_ABSOLUTE)));
    assert!(!channel_reliable(TransportChannel(CHANNEL_CONTROLLERS)));
    assert!(!channel_reliable(TransportChannel(CHANNEL_CONTROLLER_BASE + 7)));
}

#[test]
fn outbound_serialize_appends_body_and_names_range() {
    let mut buffer = vec![0xAAu8, 0xBB];
    let packet = OutboundPacket::Stats(vec![1, 2, 3]);
    let (channel, start, end) = packet.serialize(&mut buffer);
    assert_eq!(channel.0, CHANNEL_STATS);
    assert_eq!((start, end), (2, 5));
    assert_eq!(&buffer[start..end], &[1, 2, 3]);
}

#[test]
fn stream_prelude_byte_names_the_channel() {
    assert_eq!(stream_channel(4).unwrap().0, 4);
    assert!(stream_channel(22).is_none());
}
