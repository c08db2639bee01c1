use lan_cat::config::{Config, CursorConfig, Peer};
use lan_cat::float::{Double, Single};
use lan_cat::input::beacon::{Beacon, Portal, Update};
use lan_cat::input::capture::linux::{physical_inputs, Layout, EV_KEY};
use lan_cat::input::capture::macos::{
    crossed_edge, delta_field, left_entry_edge, MacButtons, MacCapture, MacEvent, BTN_LEFT, BTN_MIDDLE, BTN_RIGHT, FLAGS_CHANGED, KEY_DOWN,
    LEFT_DOWN, LEFT_DRAGGED, LEFT_UP, MOUSE_MOVED, SCROLL_WHEEL, TAP_DISABLED_USER,
};
use lan_cat::input::capture::wayland::{
    along, entry_point, layer_size, picture_bytes, screen_size, scroll_axis, span, Axis,
    EdgeLayer, EdgeWatch, Scroll,
};
use lan_cat::input::capture::{edge_mask, is_allowed, is_outward, CaptureEvent, ALL_EDGE_MASK};
use lan_cat::input::control::{
    crosses_host_edge, destination_edge, outgoing_peer, peer_timed_out, pressure, probe_message,
    scale_pointer_motion, Control, Terms,
};
use lan_cat::input::keys::{
    evdev_to_mac, mac_to_evdev, modifier_to_evdev, modifiers, HeldKeys, FLAG_COMMAND,
    FLAG_CONTROL, FLAG_OPTION, FLAG_SHIFT, XKB_MOD_ALT, XKB_MOD_CONTROL, XKB_MOD_LOGO,
    XKB_MOD_SHIFT,
};
use lan_cat::input::portal::{
    bind_portal_edge, forget_portal_edge, portal_edge_available, portal_edge_confirmed,
    PortalEdges,
};
use lan_cat::input::protocol::{Edge, InputError, InputMessage, KeyboardInput, PointerInput};
use lan_cat::input::state::{
    Action, Crossing, Outgoing, Sums, CONFIRM_TIME, PEER_TIMEOUT, REMOTE_ENTRY_INSET,
    TAKEOVER_REPEAT_TIME,
};
use lan_cat::strmap::StrMap;

fn double(value: f64) -> Double {
    Double { bits: value.to_bits() }
}

fn single(value: f32) -> Single {
    Single { bits: value.to_bits() }
}

fn value(double: Double) -> f64 {
    f64::from_bits(double.bits)
}

fn motion(dx: f64, dy: f64) -> PointerInput {
    PointerInput::Motion { dx: double(dx), dy: double(dy) }
}

/// Moves a cursor that is some way inside a screen.
fn crosses(edge: Edge, pointer: PointerInput, depth: &mut Double) -> bool {
    let moved = match pressure(edge, pointer) {
        Some((outward, _)) => double(value(*depth) + value(outward)),
        None => *depth,
    };
    crosses_host_edge(pointer, depth, moved)
}

#[test]
fn pressure_maps_every_edge_outward_and_along() {
    for (edge, event) in [
        (Edge::Left, motion(-4.0, 20.0)),
        (Edge::Right, motion(4.0, 20.0)),
        (Edge::Top, motion(20.0, -4.0)),
        (Edge::Bottom, motion(20.0, 4.0)),
    ] {
        let (outward, along) = pressure(edge, event).unwrap();
        assert_eq!((value(outward), value(along) / 1000.0), (4.0, 0.02));
    }
    assert_eq!(pressure(Edge::Left, PointerInput::Button { button: 1, state: 1 }), None);
}

#[test]
fn every_source_edge_maps_to_destination_opposite_edge() {
    for (source, destination) in [
        (Edge::Left, Edge::Right),
        (Edge::Right, Edge::Left),
        (Edge::Top, Edge::Bottom),
        (Edge::Bottom, Edge::Top),
    ] {
        assert_eq!(destination_edge(source), destination);
        assert_eq!(
            probe_message(source, double(0.5), single(0.75)),
            InputMessage::Probe {
                edge: destination,
                position: double(0.5),
                progress: single(0.75),
            }
        );
    }
}

#[test]
fn cursor_returns_only_after_crossing_original_edge() {
    let mut depth = Double { bits: REMOTE_ENTRY_INSET };
    assert!(!crosses(Edge::Right, motion(20.0, 0.0), &mut depth));
    assert_eq!(value(depth), 23.0);
    assert!(!crosses(Edge::Right, motion(-10.0, 0.0), &mut depth));
    assert_eq!(value(depth), 13.0);
    assert!(crosses(Edge::Right, motion(-14.0, 0.0), &mut depth));
}

#[test]
fn non_motion_does_not_change_remote_depth() {
    let mut depth = Double { bits: REMOTE_ENTRY_INSET };
    assert!(!crosses(
        Edge::Right,
        PointerInput::Button { button: 0x110, state: 1 },
        &mut depth,
    ));
    assert_eq!(depth, Double { bits: REMOTE_ENTRY_INSET });
    assert_eq!(value(depth), 3.0);
}

#[test]
fn remote_entry_edge_returns_to_controller() {
    let mut depth = Double { bits: REMOTE_ENTRY_INSET };
    let host = Edge::Left.opposite();
    assert!(!crosses(host, motion(20.0, 0.0), &mut depth));
    assert_eq!(value(depth), 23.0);
    assert!(!crosses(host, motion(-10.0, 0.0), &mut depth));
    assert_eq!(value(depth), 13.0);
    assert!(crosses(host, motion(-14.0, 0.0), &mut depth));
}

#[test]
fn portal_binding_allows_same_peer_on_every_unclaimed_edge() {
    let mut portal_edges: PortalEdges = StrMap::new();
    bind_portal_edge(&mut portal_edges, "peer", Edge::Right);
    assert!(portal_edge_confirmed(&portal_edges, "peer", Edge::Right));
    assert!(!portal_edge_confirmed(&portal_edges, "peer", Edge::Left));
    assert!(portal_edge_available(&portal_edges, "peer", Edge::Right));
    assert!(portal_edge_available(&portal_edges, "peer", Edge::Left));
    assert!(!portal_edge_available(&portal_edges, "new-peer", Edge::Right));
    assert!(portal_edge_available(&portal_edges, "new-peer", Edge::Left));

    bind_portal_edge(&mut portal_edges, "peer", Edge::Top);
    assert!(portal_edge_confirmed(&portal_edges, "peer", Edge::Right));
    assert!(portal_edge_confirmed(&portal_edges, "peer", Edge::Top));

    forget_portal_edge(&mut portal_edges, "peer", Edge::Right);
    assert!(!portal_edge_confirmed(&portal_edges, "peer", Edge::Right));
    assert!(portal_edge_confirmed(&portal_edges, "peer", Edge::Top));
    assert!(portal_edge_available(&portal_edges, "peer", Edge::Bottom));

    forget_portal_edge(&mut portal_edges, "peer", Edge::Top);
    assert!(!portal_edges.contains_key("peer"));
}

#[test]
fn peer_timeout_requires_recent_packet() {
    let mut seen: StrMap<u64> = StrMap::new();
    let now = 10 * PEER_TIMEOUT;
    assert!(peer_timed_out(&seen, "peer", now));

    seen.insert("peer".to_owned(), now);
    assert!(!peer_timed_out(&seen, "peer", now));

    seen.insert("peer".to_owned(), now - PEER_TIMEOUT - 1_000_000);
    assert!(peer_timed_out(&seen, "peer", now));
}

#[test]
fn mac_keyboard_mapping_round_trips_common_keys() {
    for key in [
        1, 15, 16, 28, 30, 36, 37, 39, 40, 42, 43, 49, 50, 51, 52, 53, 56, 57, 97, 103, 105, 106,
        108, 125, 126,
    ] {
        assert_eq!(mac_to_evdev(evdev_to_mac(key).unwrap()), Some(key));
    }
}

#[test]
fn every_mac_key_translates_back() {
    let mut known = 0;
    for key in 0..=0xff_u16 {
        if let Some(code) = mac_to_evdev(key) {
            assert_eq!(evdev_to_mac(code), Some(key));
            known += 1;
        }
    }
    assert_eq!(known, 65);
    assert_eq!(mac_to_evdev(0x0a), None);
    assert_eq!(evdev_to_mac(55), None);
}

#[test]
fn mac_modifiers_have_flag_masks() {
    assert_eq!(modifier_to_evdev(0x38), Some((42, FLAG_SHIFT)));
    assert_eq!(modifier_to_evdev(0x3b), Some((29, FLAG_CONTROL)));
    assert_eq!(modifier_to_evdev(0x3d), Some((100, FLAG_OPTION)));
    assert_eq!(modifier_to_evdev(0x36), Some((126, FLAG_COMMAND)));
    assert_eq!(modifier_to_evdev(0x00), None);
    assert_eq!(FLAG_SHIFT, 1 << 17);
    assert_eq!(FLAG_COMMAND, 1 << 20);
}

#[test]
fn modifier_keys_map_to_xkb_masks() {
    let held_keys = vec![125, 2];
    assert_eq!(modifiers(&held_keys), XKB_MOD_LOGO);

    let held_keys = vec![42, 29, 56];
    assert_eq!(modifiers(&held_keys), XKB_MOD_SHIFT | XKB_MOD_CONTROL | XKB_MOD_ALT);
}

#[test]
fn both_keys_of_a_modifier_count_once() {
    assert_eq!(modifiers(&vec![42, 54]), XKB_MOD_SHIFT);
    assert_eq!(modifiers(&Vec::new()), 0);
}

#[test]
fn keys_are_held_once_and_released() {
    let mut held = HeldKeys::new();
    assert!(held.apply(KeyboardInput { key: 30, state: 1 }));
    assert!(!held.apply(KeyboardInput { key: 30, state: 1 }));
    assert!(held.apply(KeyboardInput { key: 31, state: 1 }));
    assert!(held.apply(KeyboardInput { key: 30, state: 0 }));
    assert!(held.apply(KeyboardInput { key: 30, state: 0 }));
    assert_eq!(held.release_all(), vec![31]);
    assert!(held.keys.is_empty());
}

const LAYOUT: Layout = Layout { time_bytes: 16, big_endian: false };

fn event_bytes(kind: u16, value: i32) -> Vec<u8> {
    let mut bytes = vec![0; 16];
    bytes.extend(kind.to_le_bytes());
    bytes.extend(1_u16.to_le_bytes());
    bytes.extend(value.to_le_bytes());
    bytes
}

fn has_physical_input(buffer: &[u8]) -> bool {
    physical_inputs(buffer, LAYOUT).contains(&CaptureEvent::LocalInput)
}

#[test]
fn physical_keyboard_event_triggers_takeover() {
    assert!(has_physical_input(&event_bytes(EV_KEY, 1)));
}

#[test]
fn sync_and_release_events_do_not_trigger_takeover() {
    assert!(!has_physical_input(&event_bytes(0, 0)));
    assert!(!has_physical_input(&event_bytes(EV_KEY, 0)));
}

#[test]
fn physical_keyboard_events_include_takeover_and_key_state() {
    let events = physical_inputs(&event_bytes(EV_KEY, 1), LAYOUT);
    assert!(events.iter().any(|event| matches!(event, CaptureEvent::LocalInput)));
    assert!(events.iter().any(|event| {
        matches!(event, CaptureEvent::LocalKeyboard(KeyboardInput { key: 1, state: 1 }))
    }));
}

#[test]
fn events_are_read_one_after_the_other() {
    let mut buffer = event_bytes(EV_KEY, 0);
    buffer.extend(event_bytes(2, -5));
    buffer.extend(event_bytes(EV_KEY, 2));
    buffer.extend(&event_bytes(EV_KEY, 1)[..20]);
    assert_eq!(
        physical_inputs(&buffer, LAYOUT),
        vec![
            CaptureEvent::LocalKeyboard(KeyboardInput { key: 1, state: 0 }),
            CaptureEvent::LocalInput,
            CaptureEvent::LocalInput,
        ]
    );
    let mut big = vec![0; 8];
    big.extend([0, 1, 1, 2, 0, 0, 0, 1]);
    assert_eq!(
        physical_inputs(&big, Layout { time_bytes: 8, big_endian: true }),
        vec![
            CaptureEvent::LocalInput,
            CaptureEvent::LocalKeyboard(KeyboardInput { key: 258, state: 1 }),
        ]
    );
}

#[test]
fn edges_are_opposites() {
    assert_eq!(Edge::Left.opposite(), Edge::Right);
    assert_eq!(Edge::Top.opposite(), Edge::Bottom);
}

#[test]
fn edges_have_names_and_bits() {
    assert_eq!(Edge::Left.name(), "left");
    assert_eq!(Edge::Bottom.name(), "bottom");
    assert_eq!(edge_mask(Edge::Left), 1);
    assert_eq!(edge_mask(Edge::Bottom), 8);
    assert!(is_allowed(ALL_EDGE_MASK, Edge::Top));
    assert!(!is_allowed(edge_mask(Edge::Left), Edge::Top));
    assert!(is_outward(Edge::Left, double(-0.1), double(0.0)));
    assert!(!is_outward(Edge::Left, double(0.0), double(-9.0)));
    assert!(!is_outward(Edge::Bottom, double(0.0), double(f64::NAN)));
}

#[test]
fn validates_pointer_values() {
    assert!(motion(2.0, -1.0).validate().is_ok());
    assert!(motion(f64::NAN, 0.0).validate().is_err());
}

#[test]
fn pointer_limits() {
    assert_eq!(motion(10_000.0, -10_000.0).validate(), Ok(()));
    assert_eq!(motion(10_000.1, 0.0).validate(), Err(InputError::InvalidMotion));
    assert_eq!(motion(0.0, f64::INFINITY).validate(), Err(InputError::InvalidMotion));
    assert_eq!(
        PointerInput::Axis { axis: 0, value: double(f64::INFINITY) }.validate(),
        Err(InputError::InvalidAxis)
    );
    assert_eq!(
        PointerInput::Button { button: 0x110, state: 2 }.validate(),
        Err(InputError::InvalidButton)
    );
    assert_eq!(
        InputMessage::Probe { edge: Edge::Left, position: double(1.5), progress: single(0.0) }
            .validate(),
        Err(InputError::InvalidProbe)
    );
    assert_eq!(
        InputMessage::Enter {
            edge: Edge::Left,
            position: double(-0.5),
            screen_width: double(1.0),
            screen_height: double(1.0),
        }
        .validate(),
        Err(InputError::InvalidEntry)
    );
}

#[test]
fn validates_keyboard_values() {
    assert!(KeyboardInput { key: 30, state: 1 }.validate().is_ok());
    assert!(KeyboardInput { key: 30, state: 2 }.validate().is_err());
    assert!(KeyboardInput { key: 0x300, state: 1 }.validate().is_err());
    assert_eq!(
        KeyboardInput { key: 0x300, state: 1 }.validate(),
        Err(InputError::InvalidKeyboard)
    );
}

const SECOND: u64 = 1_000_000_000;

fn sharing(peers: &[&str]) -> Config {
    let mut config = Config::create(Some("local".into())).unwrap();
    config.cursor = CursorConfig { enabled: true };
    for peer in peers {
        config.peers.insert(
            (*peer).to_owned(),
            Peer { name: (*peer).to_owned(), public_key: "22".repeat(32) },
        );
    }
    config
}

fn sums(position: f64, depth: f64) -> Sums {
    Sums { position: double(position), progress: single(0.5), depth: double(depth) }
}

fn sends(actions: &[Action<String>]) -> Vec<(String, InputMessage)> {
    actions
        .iter()
        .filter_map(|action| match action {
            Action::Send { peer, message } => Some((peer.clone(), *message)),
            _ => None,
        })
        .collect()
}

/// A device whose cursor has gone to a peer over its right edge.
fn crossed(config: &Config) -> Control {
    let mut control = Control::new("a".into(), false);
    control.receive(SECOND, "b", InputMessage::Pong, (double(0.0), double(0.0))).unwrap();
    let actions = control.begin(
        config,
        SECOND,
        Edge::Right,
        double(0.5),
        double(1920.0),
        double(1080.0),
        0,
    );
    assert_eq!(
        sends(&actions),
        vec![(
            "b".to_owned(),
            InputMessage::Probe { edge: Edge::Left, position: double(0.5), progress: single(0.0) }
        )]
    );
    control.receive(SECOND, "b", InputMessage::ProbeAck, (double(0.0), double(0.0))).unwrap();
    let mut now = SECOND;
    while now < SECOND + CONFIRM_TIME {
        now += SECOND / 4;
        assert!(matches!(control.terms(now, motion(1.0, 0.0)), Some(Terms::Press { .. })));
        control.pointer(now, motion(1.0, 0.0), sums(0.5, 0.0));
        control.receive(now, "b", InputMessage::ProbeAck, (double(0.0), double(0.0))).unwrap();
        control.tick(config, now);
    }
    control.receive(now, "b", InputMessage::Ack, (double(0.0), double(0.0))).unwrap();
    assert!(matches!(
        control.outgoing,
        Some(Outgoing::Sending { ready: true, edge: Edge::Right, .. })
    ));
    control
}

#[test]
fn cursor_crosses_after_three_seconds_and_returns() {
    let config = sharing(&["b"]);
    let mut control = crossed(&config);
    assert_eq!(outgoing_peer(control.outgoing.as_ref().unwrap()), "b");
    let now = 5 * SECOND;
    let actions = control.pointer(now, motion(5.0, 0.0), sums(0.5, 8.0));
    assert_eq!(sends(&actions), vec![("b".to_owned(), InputMessage::Pointer(motion(5.0, 0.0)))]);
    let key = KeyboardInput { key: 30, state: 1 };
    assert_eq!(
        sends(&control.keyboard(now, key)),
        vec![("b".to_owned(), InputMessage::Keyboard(key))]
    );
    let actions = control.pointer(now, motion(-9.0, 0.0), sums(0.5, -1.0));
    assert_eq!(sends(&actions), vec![("b".to_owned(), InputMessage::Leave)]);
    assert!(control.outgoing.is_none());
    assert!(matches!(actions.last(), Some(Action::ReleaseCapture)));
}

#[test]
fn pulling_back_ends_the_pressing() {
    let config = sharing(&["b"]);
    let mut control = Control::new("a".into(), false);
    control.receive(SECOND, "b", InputMessage::Pong, (double(0.0), double(0.0))).unwrap();
    control.begin(&config, SECOND, Edge::Top, double(0.1), double(1.0), double(1.0), 0);
    let actions = control.pointer(SECOND, motion(0.0, 2.0), sums(0.1, 0.0));
    assert_eq!(sends(&actions), vec![("b".to_owned(), InputMessage::Leave)]);
    assert!(control.outgoing.is_none());
}

#[test]
fn nobody_at_an_edge_releases_the_pointer() {
    let config = sharing(&[]);
    let mut control = Control::new("a".into(), false);
    let actions =
        control.begin(&config, SECOND, Edge::Top, double(0.1), double(1.0), double(1.0), 0);
    assert!(matches!(actions[..], [Action::ReleaseCapture]));
}

#[test]
fn hosted_cursor_is_taken_back_by_local_input() {
    let mut control = Control::new("a".into(), false);
    let probe =
        InputMessage::Probe { edge: Edge::Left, position: double(0.5), progress: single(0.1) };
    let enter = InputMessage::Enter {
        edge: Edge::Left,
        position: double(0.5),
        screen_width: double(100.0),
        screen_height: double(100.0),
    };
    // Without a probe before it, a cursor is turned away.
    let actions = control.receive(SECOND, "b", enter, (double(0.0), double(0.0))).unwrap();
    assert_eq!(sends(&actions), vec![("b".to_owned(), InputMessage::Leave)]);

    control.receive(SECOND, "b", probe, (double(0.0), double(0.0))).unwrap();
    assert!(control.admits(SECOND, "b", Edge::Left));
    let actions = control.receive(SECOND, "b", enter, (double(0.0), double(0.0))).unwrap();
    assert_eq!(sends(&actions), vec![("b".to_owned(), InputMessage::Ack)]);
    assert!(actions.iter().any(|a| matches!(a, Action::BeginInjection { edge: Edge::Left, .. })));

    let event = InputMessage::Pointer(motion(1.0, 1.0));
    let actions = control.receive(SECOND, "b", event, (double(2.0), double(2.0))).unwrap();
    assert!(matches!(actions[..], [Action::ApplyPointer(_)]));
    let actions = control.receive(SECOND, "c", event, (double(2.0), double(2.0))).unwrap();
    assert!(actions.is_empty());
    assert!(control.applied("b", Crossing::Depth(double(5.0))).is_empty());

    let actions = control.local_input(SECOND);
    assert!(matches!(actions[0], Action::EndInjection));
    assert_eq!(sends(&actions), vec![("b".to_owned(), InputMessage::Leave)]);
    let actions = control.receive(SECOND, "b", event, (double(2.0), double(2.0))).unwrap();
    assert_eq!(sends(&actions), vec![("b".to_owned(), InputMessage::Leave)]);
    let later = SECOND + TAKEOVER_REPEAT_TIME + 1;
    assert!(control.receive(later, "b", event, (double(2.0), double(2.0))).unwrap().is_empty());
}

#[test]
fn hosted_cursor_leaves_by_its_edge() {
    let mut control = Control::new("a".into(), false);
    let probe =
        InputMessage::Probe { edge: Edge::Left, position: double(0.5), progress: single(0.1) };
    let enter = InputMessage::Enter {
        edge: Edge::Left,
        position: double(0.5),
        screen_width: double(100.0),
        screen_height: double(100.0),
    };
    control.receive(SECOND, "b", probe, (double(0.0), double(0.0))).unwrap();
    control.receive(SECOND, "b", enter, (double(0.0), double(0.0))).unwrap();
    let actions = control.applied("b", Crossing::Seen { left: true });
    assert_eq!(sends(&actions), vec![("b".to_owned(), InputMessage::Leave)]);
    assert!(control.incoming.is_none());
}

#[test]
fn unpaired_and_silent_peers_lose_the_cursor() {
    let config = sharing(&["b"]);
    let mut control = crossed(&config);
    control.tick(&sharing(&[]), 5 * SECOND);
    assert!(control.outgoing.is_none());

    let mut control = crossed(&config);
    control.tick(&config, 60 * SECOND);
    assert!(control.outgoing.is_none());
}

#[test]
fn invalid_messages_are_refused() {
    let mut control = Control::new("a".into(), false);
    let bad = InputMessage::Pointer(motion(f64::NAN, 0.0));
    assert_eq!(
        control.receive(SECOND, "b", bad, (double(0.0), double(0.0))).err(),
        Some(InputError::InvalidMotion)
    );
    assert!(!control.last_seen.contains_key("b"));
}

#[test]
fn lost_capture_ends_everything() {
    let config = sharing(&["b"]);
    let mut control = crossed(&config);
    let actions = control.capture_lost();
    assert_eq!(sends(&actions), vec![("b".to_owned(), InputMessage::Leave)]);
    assert!(control.outgoing.is_none());
}

#[test]
fn surfaces_follow_the_edges() {
    assert_eq!(layer_size(Edge::Left, 9, 0), (2, 1));
    assert_eq!(layer_size(Edge::Top, 1920, 9), (1920, 2));
    assert_eq!(span(Edge::Right, 2, 1080), 1080);
    assert_eq!(span(Edge::Bottom, 0, 2), 1);
    assert_eq!(along(Edge::Left, double(1.0), double(2.0)), double(2.0));
    assert_eq!(along(Edge::Top, double(1.0), double(2.0)), double(1.0));
    assert_eq!(picture_bytes(2, 1080), Some(8640));
    assert_eq!(picture_bytes(0, 1080), None);
    assert_eq!(picture_bytes(u32::MAX, u32::MAX), None);
    assert_eq!(entry_point(Edge::Right, 7), (65_471, 7));
    assert_eq!(entry_point(Edge::Top, 7), (7, 64));
    assert_eq!(scroll_axis(0), Ok(Axis::Vertical));
    assert_eq!(scroll_axis(1), Ok(Axis::Horizontal));
    assert_eq!(scroll_axis(2), Err(InputError::InvalidAxis));
}

#[test]
fn screens_are_as_long_as_their_edges() {
    assert_eq!(screen_size(&Vec::new()), (1920, 1080));
    let layer = |edge, width, height, configured| EdgeLayer { edge, width, height, configured };
    assert_eq!(
        screen_size(&vec![
            layer(Edge::Left, 2, 1440, true),
            layer(Edge::Top, 2560, 2, true),
            layer(Edge::Bottom, 9999, 2, false),
        ]),
        (2560, 1440)
    );
}

#[test]
fn a_pushed_edge_captures_the_pointer() {
    let mut watch = EdgeWatch::new(double(0.5));
    watch.enter(7, Some((Edge::Left, double(0.25))));
    assert_eq!(watch.push(double(1.0), double(0.0), ALL_EDGE_MASK), None);
    assert_eq!(watch.push(double(-1.0), double(0.0), edge_mask(Edge::Top)), None);
    assert_eq!(watch.push(double(-1.0), double(0.0), ALL_EDGE_MASK), Some(Edge::Left));
    assert_eq!(watch.travel(double(-1.0), double(0.0)), None);
    assert_eq!(watch.button(0x110, 1), None);
    assert_eq!(
        watch.begin(Edge::Left, double(10.0), double(20.0)),
        CaptureEvent::Begin {
            edge: Edge::Left,
            position: double(0.25),
            screen_width: double(10.0),
            screen_height: double(20.0),
        }
    );
    assert_eq!(watch.push(double(-1.0), double(0.0), ALL_EDGE_MASK), None);
    assert_eq!(watch.travel(double(-1.0), double(2.0)), Some(motion(-1.0, 2.0)));
    assert_eq!(
        watch.button(0x110, 1),
        Some(PointerInput::Button { button: 0x110, state: 1 })
    );
    assert_eq!(watch.key(30, Some(1)), Some(KeyboardInput { key: 30, state: 1 }));
    assert_eq!(watch.key(30, None), None);
    assert_eq!(
        watch.axis(Some(Scroll { absolute: double(1.5), discrete: -2 }), None),
        vec![
            PointerInput::Axis { axis: 0, value: double(1.5) },
            PointerInput::AxisDiscrete120 { axis: 0, value: -240 },
        ]
    );
    watch.leave();
    assert_eq!(watch.hovered, Some(Edge::Left));
    assert_eq!(watch.sync_release(true), None);
    assert_eq!(watch.sync_release(false), Some(Edge::Left));
    watch.leave();
    assert_eq!(watch.hovered, None);
}

fn mac_event(kind: u32) -> MacEvent {
    MacEvent {
        kind,
        synthetic: false,
        x: double(0.5),
        y: double(0.5),
        key: 0,
        flags: 0,
        button: 0,
        dx: double(1.0),
        dy: double(2.0),
        up_steps: 0,
        up: double(0.0),
        sideways: double(3.0),
    }
}

#[test]
fn mac_events_are_captured_behind_an_edge() {
    let (w, h) = (double(10.0), double(20.0));
    let mut capture = MacCapture::new(double(0.5));
    let step = capture.observe(mac_event(MOUSE_MOVED), w, h);
    assert_eq!(step.events, vec![CaptureEvent::LocalInput]);
    assert!(!step.swallow);
    let step = capture.observe(mac_event(KEY_DOWN), w, h);
    assert_eq!(
        step.events,
        vec![
            CaptureEvent::LocalInput,
            CaptureEvent::LocalKeyboard(KeyboardInput { key: 30, state: 1 }),
        ]
    );
    assert!(capture.observe(mac_event(TAP_DISABLED_USER), w, h).enable);

    let mut push = mac_event(MOUSE_MOVED);
    push.x = double(0.0005);
    push.y = double(0.25);
    push.dx = double(-1.0);
    let step = capture.observe(push, w, h);
    assert!(step.swallow && step.hide && capture.active);
    assert_eq!(
        step.events,
        vec![CaptureEvent::Begin {
            edge: Edge::Left,
            position: double(0.25),
            screen_width: w,
            screen_height: h,
        }]
    );
    let step = capture.observe(mac_event(LEFT_DRAGGED), w, h);
    assert!(step.swallow && step.warp);
    assert_eq!(step.events, vec![CaptureEvent::Pointer(motion(1.0, 2.0))]);
    let mut shift = mac_event(FLAGS_CHANGED);
    shift.key = 0x38;
    shift.flags = FLAG_SHIFT;
    assert_eq!(
        capture.observe(shift, w, h).events,
        vec![CaptureEvent::Keyboard(KeyboardInput { key: 42, state: 1 })]
    );
    assert_eq!(
        capture.observe(mac_event(SCROLL_WHEEL), w, h).events,
        vec![CaptureEvent::Pointer(PointerInput::Axis { axis: 1, value: double(3.0) })]
    );
    let mut own = mac_event(LEFT_DOWN);
    own.synthetic = true;
    let step = capture.observe(own, w, h);
    assert!(step.events.is_empty() && !step.swallow);
    assert!(capture.release());
    assert!(!capture.release());
}

#[test]
fn mac_buttons_are_held_and_released() {
    let mut buttons = MacButtons::new();
    assert_eq!(buttons.motion_kind(), MOUSE_MOVED);
    assert_eq!(buttons.apply(BTN_LEFT, 1), Some((LEFT_DOWN, 0)));
    assert_eq!(buttons.motion_kind(), LEFT_DRAGGED);
    assert_eq!(buttons.apply(BTN_MIDDLE, 1), Some((25, 2)));
    assert_eq!(buttons.apply(BTN_RIGHT, 1), Some((3, 1)));
    assert_eq!(buttons.held(), vec![BTN_LEFT, BTN_RIGHT, BTN_MIDDLE]);
    assert_eq!(buttons.apply(BTN_LEFT, 0), Some((LEFT_UP, 0)));
    assert_eq!(buttons.apply(0x999, 1), None);
    assert_eq!(buttons.held(), vec![BTN_RIGHT, BTN_MIDDLE]);
}

/// A motion on the scale of another screen.
fn scale(pointer: PointerInput, local: (f64, f64), peer: (f64, f64)) -> PointerInput {
    let scaled = match pointer {
        PointerInput::Motion { dx, dy } => {
            (double(value(dx) * local.0 / peer.0), double(value(dy) * local.1 / peer.1))
        }
        _ => (double(0.0), double(0.0)),
    };
    scale_pointer_motion(pointer, scaled)
}

#[test]
fn pointer_motion_scales_for_different_screen_sizes() {
    let PointerInput::Motion { dx, dy } =
        scale(motion(10.0, 10.0), (2560.0, 1080.0), (1920.0, 2160.0))
    else {
        panic!("motion must remain motion");
    };
    assert!((value(dx) - 13.333333333333334).abs() < f64::EPSILON);
    assert_eq!(value(dy), 5.0);
    assert_eq!(
        scale(PointerInput::Button { button: 1, state: 1 }, (2560.0, 1080.0), (1920.0, 2160.0)),
        PointerInput::Button { button: 1, state: 1 }
    );
}

#[test]
fn tiny_motion_keeps_delta_direction() {
    assert_eq!(value(delta_field(double(0.2))) as i64, 1);
    assert_eq!(value(delta_field(double(-0.2))) as i64, -1);
    assert_eq!(value(delta_field(double(0.0))) as i64, 0);
    assert_eq!(value(delta_field(double(7.5))) as i64, 7);
    assert_eq!(value(delta_field(double(-7.5))) as i64, -7);
    assert_eq!(value(delta_field(double(f64::NAN))) as i64, 0);
}

#[test]
fn left_edge_entry_allows_right_motion() {
    let point = (double(20.0), double(20.0));
    let low = (double(0.5), double(0.5));
    let high = (double(1919.5), double(1079.5));
    assert!(!left_entry_edge(Edge::Left, motion(5.0, 0.0), point, low, high));
    let point = (double(0.25), double(20.0));
    assert!(left_entry_edge(Edge::Left, motion(-5.0, 0.0), point, low, high));
    assert!(!left_entry_edge(Edge::Left, motion(5.0, 0.0), point, low, high));
    assert!(!left_entry_edge(Edge::Top, motion(0.0, -5.0), point, low, high));
    let button = PointerInput::Button { button: 1, state: 1 };
    assert!(!left_entry_edge(Edge::Left, button, point, low, high));
    let point = (double(1919.5), double(1079.5));
    assert!(left_entry_edge(Edge::Right, motion(1.0, 0.0), point, low, high));
    assert!(left_entry_edge(Edge::Bottom, motion(0.0, 1.0), point, low, high));
}

#[test]
fn pushed_edges_are_found() {
    let pushed = |x, y, dx, dy| crossed_edge(double(x), double(y), double(dx), double(dy));
    assert_eq!(pushed(0.0, 0.25, -1.0, 0.0), Some((Edge::Left, double(0.25))));
    assert_eq!(pushed(0.001, 0.25, -1.0, 0.0), Some((Edge::Left, double(0.25))));
    assert_eq!(pushed(0.002, 0.25, -1.0, 0.0), None);
    assert_eq!(pushed(0.0, 0.25, 1.0, 0.0), None);
    assert_eq!(pushed(0.999, 1.5, 1.0, 0.0), Some((Edge::Right, double(1.0))));
    assert_eq!(pushed(0.5, 0.0, 0.0, -1.0), Some((Edge::Top, double(0.5))));
    assert_eq!(pushed(0.5, 1.0, 0.0, 1.0), Some((Edge::Bottom, double(0.5))));
    assert_eq!(pushed(0.0, 0.0, -1.0, -1.0), Some((Edge::Left, double(0.0))));
}

#[test]
fn numbers_order_and_clamp() {
    assert!(double(-2.0).below(double(-1.0)));
    assert!(!double(-1.0).below(double(-2.0)));
    assert!(!double(0.0).below(double(-0.0)));
    assert!(!double(f64::NAN).below(double(1.0)));
    assert!(double(1.0).at_most(double(1.0)));
    assert_eq!(double(-0.5).clamp_unit(), double(0.0));
    assert_eq!(double(1.5).clamp_unit(), double(1.0));
    assert_eq!(double(0.5).clamp_unit(), double(0.5));
    assert_eq!(single(1.5).cap_one(), single(1.0));
    assert_eq!(single(0.5).cap_one(), single(0.5));
    assert_eq!(single(f32::NAN).cap_one(), single(1.0));
}

#[test]
fn pressed_place_stays_on_the_edge() {
    let config = sharing(&["b"]);
    let mut control = Control::new("a".into(), false);
    control.receive(SECOND, "b", InputMessage::Pong, (double(0.0), double(0.0))).unwrap();
    control.begin(&config, SECOND, Edge::Right, double(0.9), double(1.0), double(1.0), 0);
    let sums = Sums { position: double(1.25), progress: single(1.5), depth: double(0.0) };
    let actions = control.pointer(SECOND, motion(2.0, 350.0), sums);
    let probe =
        InputMessage::Probe { edge: Edge::Left, position: double(1.0), progress: single(1.0) };
    assert_eq!(sends(&actions), vec![("b".to_owned(), probe)]);
    assert_eq!(probe.validate(), Ok(()));
}

#[test]
fn beacon_tells_its_window() {
    let mut beacon = Beacon::show(double(0.5));
    let mut portal = Portal::new(double(0.5));
    let update = beacon.update(double(0.75), single(0.25), false);
    assert!(!portal.receive(update));
    assert_eq!(portal.position, double(0.75));
    assert_eq!(portal.target, single(0.25));
    assert!(!portal.closes(single(9.0)));

    let mut cancelled = portal;
    assert!(cancelled.receive(beacon.cancel()));
    assert_eq!(cancelled.target, single(0.0));
    assert!(!cancelled.closes(single(0.28)));
    assert!(cancelled.closes(single(0.29)));

    let update = beacon.confirm();
    assert_eq!(
        update,
        Update {
            position: double(0.75),
            progress: single(1.0),
            confirmed: true,
            cancel: false,
        }
    );
    assert!(portal.receive(update));
    assert!(!portal.closes(single(0.42)));
    assert!(portal.closes(single(0.43)));
}
