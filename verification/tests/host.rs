//! The host display, the window in another compositor, cards and device numbers.

use tessera::devnode::{
    card_device, card_node, renderer_device, DrmNode, CHARACTER_DEVICE,
};
use tessera::dock_state::{is_blank, DockPosition, DockStateStore, CURRENT_VERSION};
use tessera::geometry::{Point, Size};
use tessera::host::{BackendKind, Host, HostError, PowerError, SpriteStep};
use tessera::input::{
    ButtonState, PointerAxisFrame, PointerAxisRelativeDirection, PointerAxisSource,
    TextInputEvent, TextInputState,
};
use tessera::kms::cards::{candidate_cards_with_override, card_path, cursor_extent, tried_cards};
use tessera::kms::error::DrmError;
use tessera::kms::info::{only_output, ColorPipeline};
use tessera::kms::output::Scale;
use tessera::kms::session::PowerStep;
use tessera::nested::window::{BufferScale, HostGesture, NestedHost};
use tessera::nested::{
    bind_global, check_globals, gesture_step, host_pointer_motion, seat_step, GestureStep,
    HostGlobal, HostInput, NestedError, SeatStep, TextInputRequest,
};

#[test]
fn backend_kind_parser_is_strict() {
    assert_eq!("auto".parse::<BackendKind>().unwrap(), BackendKind::Auto);
    assert_eq!("drm".parse::<BackendKind>().unwrap(), BackendKind::Drm);
    assert_eq!(
        "nested".parse::<BackendKind>().unwrap(),
        BackendKind::Nested
    );
    assert!("x11".parse::<BackendKind>().is_err());
}

#[test]
fn unknown_backend_names_are_told_back() {
    for text in ["x11", "", "DRM", "drm ", "auto\0"] {
        match BackendKind::parse(text) {
            Err(HostError::InvalidBackend(told)) => assert_eq!(told, text),
            other => panic!("{other:?}"),
        }
    }
}

#[test]
fn automatic_choice_follows_the_display_variable() {
    assert!(BackendKind::Auto.wants_window(Some("wayland-0")));
    assert!(!BackendKind::Auto.wants_window(Some("")));
    assert!(!BackendKind::Auto.wants_window(None));
    assert!(BackendKind::Nested.wants_window(None));
    assert!(!BackendKind::Drm.wants_window(Some("wayland-0")));
}

#[test]
fn drm_transient_errors_stay_matchable_through_host_error() {
    for error in [
        DrmError::Busy,
        DrmError::FlipTimeout,
        DrmError::Inactive,
        DrmError::Reconfigured,
    ] {
        let host_error = HostError::from(error);
        assert!(matches!(
            host_error,
            HostError::Drm(
                DrmError::Busy
                    | DrmError::FlipTimeout
                    | DrmError::Inactive
                    | DrmError::Reconfigured
            )
        ));
    }
}

#[test]
fn nested_errors_stay_matchable_through_host_error() {
    assert!(matches!(
        HostError::from(NestedError::MissingGlobal("xdg_wm_base")),
        HostError::Nested(NestedError::MissingGlobal("xdg_wm_base"))
    ));
}

// Positions are in the protocol's 24.8 fixed point.
fn fixed(value: i32) -> i32 {
    value * 256
}

#[test]
fn first_host_position_reports_no_delta() {
    let mut last = None;
    let motion = host_pointer_motion(&mut last, fixed(50), fixed(60));
    assert_eq!((motion.x, motion.y), (fixed(50), fixed(60)));
    assert_eq!(
        (motion.dx, motion.dy, motion.dx_unaccel, motion.dy_unaccel),
        (0, 0, 0, 0)
    );
    assert_eq!(last, Some((fixed(50), fixed(60))));
}

#[test]
fn host_motion_deltas_difference_successive_positions() {
    let mut last = None;
    let _ = host_pointer_motion(&mut last, fixed(50), fixed(60));
    let motion = host_pointer_motion(&mut last, fixed(58), fixed(55));
    assert_eq!((motion.dx, motion.dy), (8 * 256, -5 * 256));
    assert_eq!((motion.dx_unaccel, motion.dy_unaccel), (8 * 256, -5 * 256));
}

#[test]
fn stationary_host_position_reports_zero_delta() {
    let mut last = Some((fixed(50), fixed(60)));
    let motion = host_pointer_motion(&mut last, fixed(50), fixed(60));
    assert_eq!((motion.dx, motion.dy), (0, 0));
}

#[test]
fn host_motions_add_up_at_the_extremes() {
    let mut last = None;
    host_pointer_motion(&mut last, i32::MIN, 0);
    let first = host_pointer_motion(&mut last, 17, 3);
    let second = host_pointer_motion(&mut last, i32::MAX, -4);
    assert_eq!(first.dx + second.dx, i32::MAX as i64 - i32::MIN as i64);
    assert_eq!(first.dy + second.dy, -4);
}

#[test]
fn card_candidates_honor_explicit_override() {
    assert_eq!(
        candidate_cards_with_override(Some("/dev/dri/card-test".into()), &[true; 16]),
        vec!["/dev/dri/card-test".to_owned()]
    );
}

#[test]
fn card_candidates_are_those_present() {
    let mut present = [false; 16];
    present[1] = true;
    present[15] = true;
    let candidates = candidate_cards_with_override(None, &present);
    assert_eq!(candidates, vec!["/dev/dri/card1", "/dev/dri/card15"]);
    assert_eq!(tried_cards(&candidates), "/dev/dri/card1, /dev/dri/card15");
    assert_eq!(card_path(10), "/dev/dri/card10");
}

#[test]
fn cursor_extent_is_clamped() {
    assert_eq!(cursor_extent(None, None), (64, 64));
    assert_eq!(cursor_extent(Some(128), Some(256)), (128, 256));
    assert_eq!(cursor_extent(Some(0), Some(u64::MAX)), (1, u32::MAX));
}

#[test]
fn device_numbers_have_their_parts() {
    let device = renderer_device(
        Some(DrmNode {
            major: 226,
            minor: 128,
        }),
        None,
    )
    .unwrap();
    assert_ne!(device, 128);
    assert_eq!(
        card_node(CHARACTER_DEVICE | 0o660, device),
        Some(DrmNode {
            major: 226,
            minor: 128
        })
    );
    assert_eq!(card_device(CHARACTER_DEVICE | 0o660, device), Some(device));
    assert_eq!(card_node(0o100644, device), None);
    assert_eq!(card_device(0o060660, device), None);
}

#[test]
fn device_numbers_are_unique() {
    let card = DrmNode {
        major: 226,
        minor: 0,
    };
    let render = DrmNode {
        major: 226,
        minor: 128,
    };
    let a = renderer_device(Some(render), Some(card));
    let b = renderer_device(None, Some(card));
    assert_ne!(a, b);
    assert_eq!(a, renderer_device(Some(render), None));
    assert_eq!(renderer_device(None, None), None);
}

#[test]
fn globals_are_bound_at_known_versions() {
    assert_eq!(
        bind_global("wl_compositor", 6).map(|bound| bound.0),
        Some(HostGlobal::Compositor)
    );
    assert_eq!(bind_global("xdg_wm_base", 1), Some((HostGlobal::WmBase, 1)));
    assert!(bind_global("wl_shm", 1).is_none());
    assert!(check_globals(true, true).is_ok());
    assert!(matches!(
        check_globals(false, true),
        Err(NestedError::MissingGlobal("wl_compositor"))
    ));
    assert!(matches!(
        check_globals(true, false),
        Err(NestedError::MissingGlobal("xdg_wm_base"))
    ));
}

#[test]
fn seat_devices_follow_the_capabilities() {
    assert_eq!(
        seat_step(3, false, false),
        SeatStep {
            bind_pointer: true,
            release_pointer: false,
            bind_keyboard: true,
            release_keyboard: false
        }
    );
    assert_eq!(
        seat_step(0, true, true),
        SeatStep {
            bind_pointer: false,
            release_pointer: true,
            bind_keyboard: false,
            release_keyboard: true
        }
    );
    assert_eq!(
        gesture_step(true, Some(2), false),
        GestureStep {
            swipe: true,
            pinch: true,
            hold: false
        }
    );
    assert!(gesture_step(true, Some(3), false).hold);
    assert!(!gesture_step(true, Some(3), true).swipe);
    assert!(!gesture_step(false, Some(3), false).swipe);
}

#[test]
fn window_takes_up_the_hosts_size() {
    let mut window = NestedHost::new(1280, 720);
    window.on_toplevel_configure(0, 0);
    assert_eq!(window.take_resize(), None);
    window.on_toplevel_configure(1920, 1080);
    assert_eq!(window.take_resize(), Some(Size { w: 1920, h: 1080 }));
    assert_eq!(window.take_resize(), None);
    assert_eq!(window.size_u32(), (1920, 1080));
}

#[test]
fn window_scale_follows_the_entered_output() {
    let mut window = NestedHost::new(800, 600);
    window.output_added(7);
    window.on_output_scale(7, 2);
    window.on_surface_enter(7);
    assert_eq!(window.scale_120(), 240);
    assert_eq!(
        window.set_buffer_scale(),
        BufferScale {
            scale: 2,
            destination: None
        }
    );
    assert_eq!(window.take_resize(), Some(Size { w: 800, h: 600 }));
    window.enable_fractional();
    window.on_preferred_scale(150);
    assert_eq!(window.scale_120(), 150);
    assert_eq!(
        window.set_buffer_scale(),
        BufferScale {
            scale: 1,
            destination: Some((800, 600))
        }
    );
}

#[test]
fn pointer_events_are_queued_in_order() {
    let mut window = NestedHost::new(800, 600);
    window.on_pointer_enter(5, 256, 512);
    window.on_pointer_motion(512, 512);
    window.on_pointer_button(6, 272, 1);
    window.on_keyboard_key(30, 0);
    window.on_pointer_leave();
    let events = window.take_input();
    assert_eq!(events.len(), 5);
    match &events[1] {
        HostInput::PointerMotion(motion) => assert_eq!((motion.dx, motion.dy), (256, 0)),
        other => panic!("{other:?}"),
    }
    assert!(matches!(
        events[2],
        HostInput::PointerButton {
            button: 272,
            state: ButtonState::Pressed
        }
    ));
    assert!(matches!(
        events[3],
        HostInput::Key {
            code: 30,
            state: ButtonState::Released
        }
    ));
    assert!(matches!(events[4], HostInput::PointerLeave));
    assert!(window.take_input().is_empty());
}

#[test]
fn axis_parts_add_up_to_a_frame() {
    let mut frame = PointerAxisFrame::none();
    assert!(!frame.has_data());
    frame.add_distance(9, 0, 2560);
    frame.add_distance(9, 0, 256);
    frame.set_source(0);
    frame.add_value120(0, 120);
    frame.set_direction(0, 1);
    frame.set_stop(10, 1);
    assert_eq!(frame.vertical.value, Some(2816));
    assert_eq!(frame.source, Some(PointerAxisSource::Wheel));
    assert_eq!(frame.vertical.value120, Some(120));
    assert_eq!(
        frame.vertical.relative_direction,
        Some(PointerAxisRelativeDirection::Inverted)
    );
    assert!(frame.horizontal.stop);
    assert!(frame.has_data());
}

#[test]
fn old_pointers_have_no_frames() {
    let mut window = NestedHost::new(800, 600);
    window.on_pointer_axis(4, 1, 0, 256);
    assert_eq!(window.take_input().len(), 1);
    window.on_pointer_axis(5, 1, 0, 256);
    assert!(window.take_input().is_empty());
    window.flush_pointer_axis();
    assert_eq!(window.take_input().len(), 1);
}

#[test]
fn gestures_and_edits_are_handed_over_once() {
    let mut window = NestedHost::new(800, 600);
    window.on_gesture(HostGesture::HoldBegin {
        time: 3,
        fingers: 2,
    });
    window.on_text_input(TextInputEvent::Commit(Some("x".to_owned())));
    assert_eq!(window.take_pointer_gestures().len(), 1);
    assert!(window.take_pointer_gestures().is_empty());
    let mut host = Host::Nested(window);
    assert_eq!(host.take_text_input().len(), 1);
    assert!(host.take_text_input().is_empty());
}

fn field() -> TextInputState {
    TextInputState {
        enabled: true,
        surrounding_text: Some("text".to_owned()),
        cursor: 4,
        anchor: 4,
        change_cause: 1,
        content_hint: 0,
        content_purpose: 2,
        cursor_rect: Some((1, 2, 3, 4)),
    }
}

#[test]
fn text_state_waits_for_the_hosts_focus() {
    let mut window = NestedHost::new(800, 600);
    window.has_text_input = true;
    assert!(window.set_text_input_state(field()).is_empty());
    let requests = window.on_text_input_enter();
    assert!(matches!(requests[0], TextInputRequest::Enable));
    match &requests[1] {
        TextInputRequest::SurroundingText { text, .. } => assert_eq!(text, "text"),
        other => panic!("{other:?}"),
    }
    assert!(matches!(requests[2], TextInputRequest::ChangeCause(1)));
    assert!(matches!(
        requests[3],
        TextInputRequest::ContentType {
            hint: 0,
            purpose: 2
        }
    ));
    assert!(matches!(
        requests[4],
        TextInputRequest::CursorRectangle {
            x: 1,
            y: 2,
            width: 3,
            height: 4
        }
    ));
    assert!(matches!(requests[5], TextInputRequest::Commit));
    assert_eq!(requests.len(), 6);
    let mut host = Host::Nested(window);
    let requests = host.set_text_input_state(TextInputState::none());
    assert!(matches!(requests[0], TextInputRequest::Disable));
    assert_eq!(requests.len(), 2);
}

#[test]
fn text_with_zero_characters_is_not_sent() {
    let mut window = NestedHost::new(800, 600);
    window.has_text_input = true;
    window.text_input_entered = true;
    let mut state = field();
    state.surrounding_text = Some("a\0b".to_owned());
    let requests = window.set_text_input_state(state);
    assert!(matches!(requests[1], TextInputRequest::ChangeCause(1)));
}

#[test]
fn window_host_answers_for_itself() {
    let mut window = NestedHost::new(640, 480);
    window.has_pointer = true;
    window.has_cursor_shape_device = true;
    let mut host = Host::Nested(window);
    assert_eq!(host.name(), "nested");
    assert!(!host.presentation_pending());
    assert!(!host.uses_software_cursor());
    assert!(!host.supports_hardware_cursor());
    assert_eq!(host.set_hardware_cursor(None, 0), SpriteStep::Composite);
    assert_eq!(host.color_pipeline(), ColorPipeline::Sdr);
    assert!(!host.supports_scanout(875713112, 0));
    assert!(host.dmabuf_scanout_formats().is_empty());
    assert_eq!(host.size(), Size { w: 640, h: 480 });
    assert!(host.is_active());
    assert!(matches!(
        host.set_outputs_powered(true),
        Ok(PowerStep::Unchanged)
    ));
    assert!(matches!(
        host.set_outputs_powered(false),
        Err(PowerError::Unavailable(
            "output power control is unavailable in nested mode"
        ))
    ));
    assert!(matches!(
        host.check_scanout(0, false),
        Err(HostError::Drm(DrmError::ScanoutUnsupported))
    ));
    let plan = host.device_plan(None).unwrap();
    assert!(!plan.headless && !plan.needs_dmabuf);
    assert_eq!((plan.frames_in_flight, plan.drm_node), (3, None));
    assert!(matches!(plan.unmet("/dev/dri/card0"), HostError::Flux));
    assert_eq!(host.set_cursor_shape(0), None);
    assert_eq!(host.hide_cursor(), None);
    if let Host::Nested(window) = &mut host {
        window.on_pointer_enter(9, 0, 0);
    }
    assert_eq!(host.set_cursor_shape(0), Some((9, 1)));
    assert_eq!(host.set_cursor_shape(12), Some((9, 12)));
    assert_eq!(host.hide_cursor(), Some(9));
    assert_eq!(host.set_buffer_scale().unwrap().scale, 1);
}

#[test]
fn window_is_one_output() {
    let scale = Scale {
        bits: 1.25f32.to_bits(),
    };
    let host = Host::Nested(NestedHost::new(800, 600));
    let infos = host.output_infos((1000, 750), scale);
    assert_eq!(infos.len(), 1);
    assert_eq!(infos[0].connector, "nested");
    assert_eq!((infos[0].mode.width, infos[0].mode.height), (1000, 750));
    assert_eq!(infos[0].mode.refresh_mhz, 0);
    assert_eq!(infos[0].scale, scale);
    assert_eq!(infos[0].logical_origin, Point { x: 0, y: 0 });
    assert!(infos[0].available_modes.is_empty());
    assert_eq!(only_output("unknown", (1, 2), scale)[0].connector, "unknown");
}

fn taken_up(store: DockStateStore) -> Option<DockStateStore> {
    DockStateStore::accept(Some(store))
}

#[test]
fn dock_state_round_trip() {
    let store = || DockStateStore {
        version: CURRENT_VERSION,
        pinned: vec!["foot.desktop".into(), "firefox.desktop".into()],
        autopopulate: false,
        position: DockPosition::Left,
    };
    let loaded = taken_up(store()).unwrap();
    assert_eq!(loaded, store());
}

#[test]
fn dock_state_load_or_init() {
    let seeds: Vec<String> = vec!["seed1.desktop".into(), "seed2.desktop".into()];
    let (store, is_new) = DockStateStore::load_or_init(None, &seeds, true, DockPosition::Right);
    assert!(is_new);
    assert_eq!(store.pinned, seeds);
    assert!(store.autopopulate);
    assert_eq!(store.position, DockPosition::Right);

    let (loaded, is_new) = DockStateStore::load_or_init(
        Some(store),
        &["other.desktop".into()],
        false,
        DockPosition::Bottom,
    );
    assert!(!is_new);
    assert_eq!(loaded.pinned, seeds);
    assert!(loaded.autopopulate);
    assert_eq!(loaded.position, DockPosition::Right);
}

#[test]
fn dock_state_of_another_version_is_not_used() {
    let mut store = DockStateStore::default();
    assert_eq!(store.version, 1);
    store.version = 2;
    assert_eq!(taken_up(store), None);
    assert_eq!(DockStateStore::accept(None), None);
}

#[test]
fn dock_state_path_prefers_the_state_directory() {
    assert_eq!(
        DockStateStore::default_path(Some("/state"), Some("/home/u")),
        "/state/tessera/dock_state.json"
    );
    assert_eq!(
        DockStateStore::default_path(Some("/state/"), None),
        "/state/tessera/dock_state.json"
    );
    assert_eq!(
        DockStateStore::default_path(Some(" \t"), Some("/home/u")),
        "/home/u/.local/state/tessera/dock_state.json"
    );
    assert_eq!(DockStateStore::default_path(None, None), "dock_state.json");
    assert!(is_blank("\u{3000}\u{85}"));
    assert!(!is_blank("\u{200b}"));
}
