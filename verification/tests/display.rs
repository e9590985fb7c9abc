//! Direct display output as a whole: planning, updates, the session.

use std::collections::HashMap;
use std::num::NonZeroU32;

use drm::control::atomic::AtomicModeReq;
use tessera::extensions::tablet::TabletToolInfo;
use tessera::geometry::{Point, Rect, Size};
use tessera::devnode::DrmNode;
use tessera::host::{HardwareCursor, Host, HostError, SpriteStep};
use tessera::input::ButtonState;
use tessera::kms::assemble::{build_displays, build_output, full_damage_clip, OutputParts};
use tessera::kms::backend::DrmBackend;
use tessera::kms::color::{
    hdr_output_metadata_bytes, requested_mode, ColorPolicy, DisplayColorMode,
    EdidColorCapabilities,
};
use tessera::kms::commit::{
    cursor_request, damage_hint, disable_request, frame_request, gamma_request,
    request_completion, DamageHint,
};
use tessera::kms::config::ConnectorSettings;
use tessera::kms::cursor::{check_sprite, sprite_image, CursorBuffer, CursorState};
use tessera::kms::devices::{
    choose_scroll_method, classify, device_names, gesture_fingers, is_mouse, is_touchpad,
    mouse_capabilities, mouse_profile, tablet_tool_key, tablet_tool_kind, tool_capabilities,
    touchpad_capabilities, touchpad_profile, DeviceCapabilities, DeviceSetting, MouseConfig,
    PointerClass, TabletTool, ToolAxes, TouchpadConfig, TouchpadScrollMethod,
};
use tessera::kms::display::{
    build_cursor_plane, colorspace_prop, dmabuf_scanout_formats, output_properties,
    primary_plane_properties, same_displays, usable_cursor, DisplaySet, EnumVariant,
    OverlayPlaneInventory, OverlayPlanePolicy,
};
use tessera::kms::error::DrmError;
use tessera::kms::formats::{
    byte_order_of, parse_format_modifiers, parse_format_modifiers_in, ByteOrder, ARGB8888,
    MODIFIER_LINEAR, XRGB8888,
};
use tessera::kms::modes::{advertised_modes, ModeSpec, OutputMode};
use tessera::kms::output::{
    CursorPlane, CursorPlaneProperties, NamedProperty, Output, OutputAtomicProperties,
    OutputKind, PrimaryPlane, PrimaryPlaneProperties, Scale,
};
use tessera::kms::plan::{plan_outputs, FramebufferLimits, OutputSettings};
use tessera::kms::present::{cursor_retry_delay, ImportStep, RenderedFrame};
use tessera::kms::reports::{
    push_tablet_event, AxesReport, TabletEvent, TabletReport, ToolReport,
};
use tessera::kms::request::{fixed_point, new_request, signed};
use tessera::kms::rounds::{CardStep, RoundEnd};
use tessera::kms::scanout::{DmabufIdentity, PrimaryPlaneFrame, Resource};
use tessera::kms::select::{
    output_kind, plane_role, rank_connectors, ConnectorProbe, FormatTable, ModeProbe, PlaneProbe,
    PlaneRole,
};
use tessera::kms::session::{poll_events, HdrBlobStep, HotplugStep, PowerStep, Readiness};
use tessera::kms::surface::SurfaceColors;

fn plane_props(base: u32) -> PrimaryPlaneProperties {
    PrimaryPlaneProperties {
        fb_id: base,
        crtc_id: base + 1,
        src_x: base + 2,
        src_y: base + 3,
        src_w: base + 4,
        src_h: base + 5,
        crtc_x: base + 6,
        crtc_y: base + 7,
        crtc_w: base + 8,
        crtc_h: base + 9,
        in_fence_fd: Some(base + 10),
        fb_damage_clips: Some(base + 11),
    }
}

fn output_props() -> OutputAtomicProperties {
    OutputAtomicProperties {
        connector_crtc_id: 300,
        crtc_mode_id: 301,
        crtc_active: 302,
        crtc_out_fence_ptr: Some(303),
        connector_colorspace: Some((304, 0, 9)),
        connector_hdr_metadata: Some(305),
        connector_max_bpc: Some(306),
        crtc_gamma_lut: Some((307, 256)),
    }
}

fn cursor_plane(handle: u32) -> CursorPlane {
    CursorPlane {
        handle,
        props: CursorPlaneProperties {
            plane_fb_id: 200,
            plane_crtc_id: 201,
            plane_src_x: 202,
            plane_src_y: 203,
            plane_src_w: 204,
            plane_src_h: 205,
            plane_crtc_x: 206,
            plane_crtc_y: 207,
            plane_crtc_w: 208,
            plane_crtc_h: 209,
        },
    }
}

fn output(index: u32, x: u32) -> Output {
    Output {
        connector: 10 + index,
        name: format!("DP-{index}"),
        crtc: 20 + index,
        primary: PrimaryPlane {
            handle: 30 + index,
            props: plane_props(100),
            full_damage_blob: Some(77),
        },
        width: 1920,
        height: 1080,
        vrefresh: 60,
        mode_blob: 55,
        x,
        y: 0,
        physical_size_mm: None,
        kind: OutputKind::External,
        scale: Scale {
            bits: 1f32.to_bits(),
        },
        props: output_props(),
        cursor: Some(cursor_plane(40 + index)),
        available_modes: Vec::new(),
        color_caps: EdidColorCapabilities { hdr_pq: false },
    }
}

fn displays(outputs: Vec<Output>) -> DisplaySet {
    let mut scanout_formats = HashMap::new();
    scanout_formats.insert(XRGB8888, vec![MODIFIER_LINEAR, 5]);
    DisplaySet {
        outputs,
        size: (1920, 1080),
        format: XRGB8888,
        modifiers: vec![MODIFIER_LINEAR],
        scanout_formats,
        overlay: OverlayPlaneInventory {
            available: 0,
            policy: OverlayPlanePolicy::CompositorOnly,
        },
        color_mode: DisplayColorMode::Sdr,
        icc_profile: None,
    }
}

fn settings() -> OutputSettings {
    OutputSettings {
        modes: ConnectorSettings::new(),
        color: ConnectorSettings::new(),
        icc: ConnectorSettings::new(),
    }
}

fn backend() -> DrmBackend {
    DrmBackend::new(displays(vec![output(0, 0)]), (64, 64), settings())
}

fn by_hand(entries: &[(u32, u32, u64)]) -> String {
    let mut request = AtomicModeReq::new();
    for (object, property, value) in entries {
        request.add_raw_property(
            NonZeroU32::new(*object).unwrap(),
            NonZeroU32::new(*property).unwrap().into(),
            *value,
        );
    }
    format!("{request:?}")
}

#[test]
fn new_requests_set_nothing() {
    assert_eq!(format!("{:?}", new_request()), by_hand(&[]));
}

#[test]
fn disabling_turns_every_object_off() {
    let request = disable_request(&[output(0, 0)]);
    assert_eq!(
        format!("{request:?}"),
        by_hand(&[
            (10, 300, 0),
            (20, 302, 0),
            (30, 100, 0),
            (30, 101, 0),
            (40, 200, 0),
            (40, 201, 0),
        ])
    );
}

#[test]
fn frames_show_each_output_its_part() {
    let mut right = output(1, 1920);
    right.cursor = None;
    let request = frame_request(
        &[right],
        DisplayColorMode::Sdr,
        None,
        None,
        &[],
        500,
        -1,
        &[77],
    );
    assert_eq!(
        format!("{request:?}"),
        by_hand(&[
            (11, 300, 21),
            (11, 304, 0),
            (11, 305, 0),
            (11, 306, 8),
            (21, 301, 55),
            (21, 302, 1),
            (31, 100, 500),
            (31, 101, 21),
            (31, 102, 1920 << 16),
            (31, 103, 0),
            (31, 104, 1920 << 16),
            (31, 105, 1080 << 16),
            (31, 106, 0),
            (31, 107, 0),
            (31, 108, 1920),
            (31, 109, 1080),
            (31, 110, u64::MAX),
            (31, 111, 77),
        ])
    );
}

#[test]
fn wide_colors_are_asked_for_with_their_metadata() {
    let mut only = output(0, 0);
    only.cursor = None;
    let sdr = format!(
        "{:?}",
        frame_request(&[only], DisplayColorMode::Sdr, None, None, &[], 1, -1, &[0])
    );
    let mut only = output(0, 0);
    only.cursor = None;
    let hdr = format!(
        "{:?}",
        frame_request(&[only], DisplayColorMode::Hdr, Some(66), None, &[], 1, -1, &[0])
    );
    assert_ne!(sdr, hdr);
    assert!(hdr.contains("66"));
}

fn buffer(framebuffer: u32) -> CursorBuffer {
    CursorBuffer {
        framebuffer,
        extent: (64, 64),
        pixels: Vec::new(),
        content_size: (24, 24),
        len: 0,
    }
}

#[test]
fn cursor_updates_place_the_sprite() {
    let state = CursorState {
        buffer: 0,
        position: (10, 20),
        hotspot: (12, 4),
    };
    let request = cursor_request(&[output(0, 0)], Some(state), &[buffer(90)]);
    assert_eq!(
        format!("{request:?}"),
        by_hand(&[
            (40, 200, 90),
            (40, 201, 20),
            (40, 202, 0),
            (40, 203, 0),
            (40, 204, 64 << 16),
            (40, 205, 64 << 16),
            (40, 206, (-2i64) as u64),
            (40, 207, 16),
            (40, 208, 64),
            (40, 209, 64),
        ])
    );
    let hidden = cursor_request(&[output(0, 0)], None, &[]);
    assert_eq!(
        format!("{hidden:?}"),
        by_hand(&[(40, 200, 0), (40, 201, 0)])
    );
}

#[test]
fn completion_is_asked_of_every_controller() {
    let outputs = [output(0, 0), output(1, 1920)];
    let mut request = new_request();
    request_completion(&mut request, &outputs, &[4096, 4104]);
    assert_eq!(
        format!("{request:?}"),
        by_hand(&[(20, 303, 4096), (21, 303, 4104)])
    );
}

#[test]
fn gamma_is_set_where_there_is_a_table() {
    let request = gamma_request(&[output(0, 0)], &[Some(12)]).unwrap();
    assert_eq!(format!("{request:?}"), by_hand(&[(20, 307, 12)]));
    let mut plain = output(0, 0);
    plain.props.crtc_gamma_lut = None;
    assert!(gamma_request(&[plain], &[Some(12)]).is_none());
}

#[test]
fn property_values_are_encoded() {
    assert_eq!(signed(-1), u64::MAX);
    assert_eq!(signed(i64::MIN), 1 << 63);
    assert_eq!(signed(7), 7);
    assert_eq!(fixed_point(u32::MAX), (u32::MAX as u64) << 16);
}

#[test]
fn damage_hints_are_resolved() {
    let out = output(0, 0);
    assert!(matches!(damage_hint(&out, None), DamageHint::Whole(77)));
    let damage = [Rect::new(10, 10, 20, 20)];
    match damage_hint(&out, Some(&damage)) {
        DamageHint::Clips { clips, fallback } => {
            assert_eq!(clips, vec![[10, 10, 30, 30]]);
            assert_eq!(fallback, 77);
            let hint = DamageHint::Clips { clips, fallback };
            assert_eq!(hint.resolve(Some(5)), 5);
            assert_eq!(hint.resolve(None), 77);
        }
        other => panic!("{other:?}"),
    }
    let mut plain = output(0, 0);
    plain.primary.props.fb_damage_clips = None;
    assert!(matches!(
        damage_hint(&plain, Some(&damage)),
        DamageHint::Absent
    ));
}

fn connector(handle: u32, interface: u32, crtcs: Vec<u32>) -> ConnectorProbe {
    ConnectorProbe {
        handle,
        name: format!("C-{handle}"),
        connected: true,
        interface,
        interface_id: 1,
        modes: vec![
            ModeProbe {
                width: 1280,
                height: 720,
                vrefresh: 60,
                preferred: false,
            },
            ModeProbe {
                width: 1920,
                height: 1080,
                vrefresh: 60,
                preferred: true,
            },
        ],
        physical_size_mm: None,
        current_crtc: None,
        encoder_crtcs: vec![crtcs],
        color_caps: EdidColorCapabilities { hdr_pq: false },
    }
}

fn primary(handle: u32, crtcs: Vec<u32>) -> PlaneProbe {
    PlaneProbe {
        handle,
        possible_crtcs: crtcs,
        formats: vec![XRGB8888],
        role: Some(PlaneRole::Primary),
        table: FormatTable::Absent,
    }
}

fn limits() -> FramebufferLimits {
    FramebufferLimits {
        min_width: 1,
        max_width: 16384,
        min_height: 1,
        max_height: 16384,
    }
}

#[test]
fn displays_stand_side_by_side() {
    let connectors = [
        connector(2, 11, vec![20, 21]),
        connector(1, 10, vec![20]),
    ];
    let planes = [primary(30, vec![20, 21]), primary(31, vec![21])];
    let plan = plan_outputs(ByteOrder::Little, &connectors, &planes, limits(), &settings()).unwrap();
    assert_eq!(plan.size, (3840, 1080));
    assert_eq!(plan.outputs[0].connector, 1);
    assert_eq!(plan.outputs[0].x, 0);
    assert_eq!(plan.outputs[0].mode, 1);
    assert_eq!((plan.outputs[0].crtc, plan.outputs[0].plane), (20, 30));
    assert_eq!(plan.outputs[1].connector, 0);
    assert_eq!(plan.outputs[1].x, 1920);
    assert_eq!((plan.outputs[1].crtc, plan.outputs[1].plane), (21, 31));
    assert_eq!(plan.format, XRGB8888);
    assert_eq!(plan.modifiers, vec![MODIFIER_LINEAR]);
    assert_eq!(rank_connectors(&connectors), vec![1, 0]);

    let parts = OutputParts {
        props: output_props(),
        plane_props: plane_props(100),
        mode_blob: 3,
        full_damage_blob: None,
        scale: Scale { bits: 0 },
    };
    let outputs = plan
        .outputs
        .iter()
        .map(|planned| build_output(&connectors[planned.connector], planned, parts))
        .collect::<Vec<_>>();
    assert_eq!(outputs[1].name, "C-2");
    assert_eq!((outputs[1].x, outputs[1].y), (1920, 0));
    assert_eq!(outputs[1].available_modes[0].width, 1920);
    assert_eq!(
        full_damage_clip(1920, &connectors[0].modes[1]),
        [1920, 0, 3840, 1080]
    );
    let set = build_displays(ByteOrder::Little, plan, outputs, &planes, &[]).unwrap();
    assert_eq!(set.size, (3840, 1080));
    assert_eq!(
        set.scanout_formats.get(&XRGB8888),
        Some(&vec![MODIFIER_LINEAR])
    );
    assert_eq!(set.outputs.len(), 2);
    assert!(set.outputs[0].cursor.is_none());
    assert_eq!(set.overlay.available, 0);
}

#[test]
fn planning_fails_for_a_reason() {
    let plan = |connectors: &[ConnectorProbe], planes: &[PlaneProbe], limits| {
        plan_outputs(ByteOrder::Little, connectors, planes, limits, &settings()).map(|_| ())
    };
    assert!(matches!(
        plan(&[], &[], limits()),
        Err(DrmError::NoConnector)
    ));
    let mut unplugged = connector(1, 10, vec![20]);
    unplugged.connected = false;
    assert!(matches!(
        plan(&[unplugged], &[primary(30, vec![20])], limits()),
        Err(DrmError::NoConnector)
    ));
    assert!(matches!(
        plan(&[connector(1, 10, vec![20])], &[primary(30, vec![21])], limits()),
        Err(DrmError::NoPlane)
    ));
    let mut small = limits();
    small.max_width = 1919;
    assert!(matches!(
        plan(&[connector(1, 10, vec![20])], &[primary(30, vec![20])], small),
        Err(DrmError::DesktopTooLarge(1920, 1080))
    ));
    let mut broken = primary(30, vec![20]);
    broken.table = FormatTable::Unreadable(Some(5));
    assert!(matches!(
        plan(&[connector(1, 10, vec![20])], &[broken], limits()),
        Err(DrmError::Io(Some(5)))
    ));
}

#[test]
fn configured_modes_and_colors_are_taken_up() {
    let mut wanted = settings();
    wanted.modes.entries.push((
        "C-1".to_owned(),
        ModeSpec {
            width: 1280,
            height: 720,
            refresh_hz: None,
        },
    ));
    wanted.icc.entries.push(("C-1".to_owned(), "/p".to_owned()));
    let plan = plan_outputs(
        ByteOrder::Little,
        &[connector(1, 10, vec![20])],
        &[primary(30, vec![20])],
        limits(),
        &wanted,
    )
    .unwrap();
    assert_eq!(plan.size, (1280, 720));
    assert_eq!(plan.icc_profile.as_deref(), Some("/p"));
    let hdr = ColorPolicy {
        hdr: true,
        deep_color: true,
        sdr_white_bits: None,
    };
    let able = EdidColorCapabilities { hdr_pq: true };
    let unable = EdidColorCapabilities { hdr_pq: false };
    assert_eq!(
        requested_mode(&[Some(hdr)], &[able]),
        DisplayColorMode::Hdr
    );
    assert_eq!(
        requested_mode(&[Some(hdr), Some(hdr)], &[able, unable]),
        DisplayColorMode::SdrDeepColor
    );
    assert_eq!(
        requested_mode(&[Some(hdr), None], &[able, able]),
        DisplayColorMode::Sdr
    );
    assert_eq!(hdr_output_metadata_bytes(ByteOrder::Little).len(), 32);
}

#[test]
fn format_tables_are_read_in_native_order() {
    let mut blob = vec![0u8; 52];
    for (offset, value) in [(0usize, 1u32), (8, 1), (12, 24), (16, 1), (20, 28), (24, XRGB8888)] {
        blob[offset..offset + 4].copy_from_slice(&value.to_ne_bytes());
    }
    blob[28..36].copy_from_slice(&1u64.to_ne_bytes());
    blob[44..52].copy_from_slice(&9u64.to_ne_bytes());
    assert_eq!(parse_format_modifiers(&blob, XRGB8888).unwrap(), vec![9]);
    assert_eq!(byte_order_of([1, 0]), ByteOrder::Little);
    assert_eq!(byte_order_of([0, 1]), ByteOrder::Big);
    let native = if cfg_little() {
        ByteOrder::Little
    } else {
        ByteOrder::Big
    };
    assert_eq!(
        parse_format_modifiers_in(native, &blob, XRGB8888).unwrap(),
        vec![9]
    );
    assert!(matches!(
        parse_format_modifiers(&blob[..10], XRGB8888),
        Err(DrmError::MalformedFormats(_))
    ));
}

fn cfg_little() -> bool {
    1u16.to_ne_bytes()[0] == 1
}

fn named(name: &str, handle: u32) -> NamedProperty {
    NamedProperty {
        name: name.to_owned(),
        handle,
    }
}

#[test]
fn missing_properties_are_named() {
    let full: Vec<NamedProperty> = [
        "FB_ID", "CRTC_ID", "SRC_X", "SRC_Y", "SRC_W", "SRC_H", "CRTC_X", "CRTC_Y", "CRTC_W",
        "CRTC_H",
    ]
    .iter()
    .enumerate()
    .map(|(index, name)| named(name, 100 + index as u32))
    .collect();
    let found = primary_plane_properties(&full).unwrap();
    assert_eq!((found.fb_id, found.crtc_h), (100, 109));
    assert_eq!(found.in_fence_fd, None);
    assert!(matches!(
        primary_plane_properties(&full[..4]),
        Err(DrmError::MissingProperty("SRC_W"))
    ));
    assert_eq!(build_cursor_plane(5, &full).unwrap().handle, 5);
    assert!(matches!(
        output_properties(&[], &[], None, None),
        Err(DrmError::MissingProperty("CRTC_ID"))
    ));
    assert!(matches!(
        output_properties(&[named("CRTC_ID", 1)], &[named("MODE_ID", 2)], None, None),
        Err(DrmError::MissingProperty("ACTIVE"))
    ));
    let variants = [
        EnumVariant {
            name: "Default".to_owned(),
            value: 0,
        },
        EnumVariant {
            name: "BT2020_RGB".to_owned(),
            value: 9,
        },
    ];
    assert_eq!(colorspace_prop(4, &variants), Some((4, 0, 9)));
    assert_eq!(colorspace_prop(4, &variants[..1]), None);
    let sprite_plane = PlaneProbe {
        handle: 5,
        possible_crtcs: vec![20],
        formats: vec![ARGB8888],
        role: Some(PlaneRole::Cursor),
        table: FormatTable::Absent,
    };
    assert!(usable_cursor(ByteOrder::Little, &sprite_plane, &full).is_some());
    assert!(usable_cursor(ByteOrder::Little, &sprite_plane, &full[..3]).is_none());
    assert_eq!(plane_role(1), Some(PlaneRole::Primary));
    assert_eq!(plane_role(9), None);
    assert_eq!(output_kind(14), OutputKind::Internal);
    assert_eq!(output_kind(11), OutputKind::External);
}

#[test]
fn advertised_modes_are_listed_once() {
    let mode = |width, height, refresh_mhz| OutputMode {
        width,
        height,
        refresh_mhz,
    };
    assert_eq!(
        advertised_modes(&[
            mode(1600, 900, 60_000),
            mode(1440, 1000, 60_000),
            mode(1600, 900, 60_000),
            mode(1920, 1080, 30_000),
            mode(1920, 1080, 60_000),
        ]),
        vec![
            mode(1920, 1080, 60_000),
            mode(1920, 1080, 30_000),
            mode(1600, 900, 60_000),
            mode(1440, 1000, 60_000),
        ]
    );
}

fn frame(slot: u32) -> RenderedFrame {
    RenderedFrame {
        slot,
        width: 1920,
        height: 1080,
        stride: 7680,
        modifier: MODIFIER_LINEAR,
        acquire_fence: None,
    }
}

fn object(inode: u64) -> Option<DmabufIdentity> {
    Some(DmabufIdentity { device: 1, inode })
}

fn show(backend: &mut DrmBackend, slot: u32, inode: u64, framebuffer: u32) -> Vec<Resource> {
    let (step, released) = backend.begin_import(frame(slot), object(inode));
    let scanout = match step {
        ImportStep::Ready(scanout) => scanout,
        ImportStep::Import(key) => backend.finish_import(
            key,
            frame(slot),
            Resource {
                framebuffer,
                gem: framebuffer + 1000,
            },
        ),
    };
    assert!(backend
        .check_commit(scanout, PrimaryPlaneFrame::Composited)
        .is_ok());
    assert!(backend.commit_accepted(scanout).is_none());
    assert!(backend.presentation_pending());
    let mut gone = released;
    gone.extend(backend.page_flips(&[20]));
    assert!(!backend.presentation_pending());
    gone
}

#[test]
fn framebuffers_live_as_long_as_they_are_shown() {
    let mut backend = backend();
    assert!(backend.test_flags().is_some());
    assert!(backend.commit_flags().allow_modeset);
    assert!(show(&mut backend, 0, 100, 500).is_empty());
    assert!(backend.test_flags().is_none());
    assert!(!backend.commit_flags().allow_modeset);
    assert!(show(&mut backend, 1, 101, 501).is_empty());
    let (step, _) = backend.begin_import(frame(0), object(100));
    match step {
        ImportStep::Ready(scanout) => {
            assert_eq!(scanout.framebuffer, 500);
            let released = backend.release_scanout(scanout);
            assert!(released.is_empty());
        }
        other => panic!("{other:?}"),
    }
    // New memory in the slot that is on screen: the old framebuffer goes once
    // it is no longer shown.
    let gone = show(&mut backend, 1, 102, 502);
    assert_eq!(
        gone,
        vec![Resource {
            framebuffer: 501,
            gem: 1501
        }]
    );
}

#[test]
fn rejected_updates_are_classified() {
    let mut backend = backend();
    let (step, _) = backend.begin_import(frame(0), None);
    let ImportStep::Import(key) = step else {
        panic!("nothing is cached");
    };
    assert!(key.is_none());
    let resource = Resource {
        framebuffer: 7,
        gem: 8,
    };
    let scanout = backend.finish_import(key, frame(0), resource);
    let (error, released) = backend.commit_rejected(scanout, Some(16), 0);
    assert!(matches!(error, DrmError::Busy));
    assert_eq!(released, vec![resource]);
    let scanout = backend.finish_import(None, frame(0), resource);
    let (error, _) = backend.commit_rejected(scanout, Some(22), 0);
    assert!(matches!(
        error,
        DrmError::Io(Some(22)) | DrmError::CursorFallback
    ));
    let scanout = backend.finish_import(None, frame(0), resource);
    assert!(backend
        .check_commit(scanout, PrimaryPlaneFrame::DirectClient)
        .is_err());
}

#[test]
fn sprites_are_checked_and_kept() {
    let mut host = Host::Drm(backend());
    let pixels = vec![1u8; 24 * 24 * 4];
    let sprite = HardwareCursor {
        pixels: &pixels,
        size: (24, 24),
        hotspot: (1, 2),
        position: (5, 6),
    };
    assert!(host.supports_hardware_cursor());
    assert_eq!(host.set_hardware_cursor(Some(sprite), 0), SpriteStep::Upload);
    if let Host::Drm(backend) = &mut host {
        assert!(backend.finish_cursor(60, sprite).is_empty());
    }
    let other = vec![2u8; 24 * 24 * 4];
    let second = HardwareCursor {
        pixels: &other,
        ..sprite
    };
    assert_eq!(host.set_hardware_cursor(Some(second), 0), SpriteStep::Upload);
    if let Host::Drm(backend) = &mut host {
        assert!(backend.finish_cursor(61, second).is_empty());
        assert_eq!(backend.cursor.buffers.buffers[0].framebuffer, 61);
    }
    assert_eq!(host.set_hardware_cursor(Some(sprite), 0), SpriteStep::Shown);
    if let Host::Drm(backend) = &host {
        let held: Vec<u32> = backend
            .cursor
            .buffers
            .buffers
            .iter()
            .map(|buffer| buffer.framebuffer)
            .collect();
        assert_eq!(held, vec![60, 61]);
    }
    assert_eq!(host.set_hardware_cursor(None, 0), SpriteStep::Shown);
    let short = HardwareCursor {
        pixels: &pixels[..8],
        ..sprite
    };
    assert!(matches!(
        check_sprite(&short, (64, 64)),
        Err(DrmError::CursorUnsupported(_))
    ));
    assert_eq!(
        host.set_hardware_cursor(Some(short), 1_000),
        SpriteStep::Composite
    );
    assert!(host.uses_software_cursor());
    assert!(!host.poll_hardware_cursor_retry(5_999));
    assert!(host.poll_hardware_cursor_retry(6_000));
    assert!(host.supports_hardware_cursor());
    assert_eq!(
        sprite_image(&[1, 2, 3, 4], 2, 3, 6),
        vec![1, 2, 0, 3, 4, 0]
    );
}

#[test]
fn retry_delays_grow_up_to_a_bound() {
    let delays: Vec<u64> = (0..9).map(cursor_retry_delay).collect();
    assert_eq!(
        delays,
        vec![5_000, 10_000, 20_000, 40_000, 80_000, 160_000, 300_000, 300_000, 300_000]
    );
    assert_eq!(cursor_retry_delay(u32::MAX), 300_000);
}

#[test]
fn scanout_of_client_buffers_is_checked() {
    let mut host = Host::Drm(backend());
    assert!(host.supports_scanout(XRGB8888, 5));
    assert!(!host.supports_scanout(XRGB8888, 6));
    assert!(!host.supports_scanout(ARGB8888, 5));
    assert!(host.check_scanout(XRGB8888, true).is_ok());
    // No format has this code.
    assert!(matches!(
        host.check_scanout(1, false),
        Err(HostError::Drm(_))
    ));
    let listed = host.dmabuf_scanout_formats();
    assert_eq!(listed.len(), 1);
    assert_eq!(listed[0].fourcc, XRGB8888);
    if let Host::Drm(backend) = &mut host {
        backend.active = false;
    }
    assert!(matches!(
        host.check_scanout(XRGB8888, false),
        Err(HostError::Drm(DrmError::Inactive))
    ));
    assert!(dmabuf_scanout_formats(&HashMap::new()).is_empty());
}

#[test]
fn power_cycles_start_afresh() {
    let mut backend = backend();
    show(&mut backend, 0, 100, 500);
    assert!(matches!(
        backend.begin_power_change(true),
        Ok(PowerStep::Unchanged)
    ));
    let step = backend.begin_power_change(false).unwrap();
    assert_eq!(step, PowerStep::TurnOff);
    backend.outputs_disabled();
    backend.finish_power_change(step);
    assert!(!backend.outputs_powered);
    assert!(matches!(
        backend.check_presentable(),
        Err(DrmError::Inactive)
    ));
    let step = backend.begin_power_change(true).unwrap();
    assert_eq!(step, PowerStep::Wake);
    backend.finish_power_change(step);
    assert!(backend.outputs_powered);
    assert!(backend.commit_flags().allow_modeset);
}

#[test]
fn hotplug_is_reconciled_between_frames() {
    let mut backend = backend();
    backend.note_hotplug(true);
    assert!(backend.wants_reconfigure());
    assert_eq!(
        backend.begin_reconfigure(&Ok(displays(vec![output(0, 0)]))),
        HotplugStep::Unchanged
    );
    assert!(!backend.wants_reconfigure());
    let wider = displays(vec![output(0, 0), output(1, 1920)]);
    assert!(!same_displays(&backend.displays, &wider));
    assert_eq!(backend.begin_reconfigure(&Ok(wider)), HotplugStep::Replace);
    let mut wider = displays(vec![output(0, 0), output(1, 1920)]);
    wider.size = (3840, 1080);
    let (old, _) = backend.replace_displays(wider);
    assert_eq!(old.outputs.len(), 1);
    assert!(matches!(
        backend.check_presentable(),
        Err(DrmError::Reconfigured)
    ));
    let epoch = backend.cache.epoch;
    assert_eq!(
        backend.take_resize().0,
        Some(Size { w: 3840, h: 1080 })
    );
    assert_eq!(backend.cache.epoch, epoch + 1);
    assert_eq!(backend.take_resize().0, None);
    assert_eq!(backend.cache.epoch, epoch + 1);
    assert!(backend.check_presentable().is_ok());
    assert_eq!(
        backend.begin_reconfigure(&Err(DrmError::NoConnector)),
        HotplugStep::Suspend
    );
    backend.suspend_rendering();
    assert!(!backend.is_active());
}

#[test]
fn seats_come_and_go() {
    let mut backend = backend();
    show(&mut backend, 0, 100, 500);
    assert!(backend.seat_disabled());
    assert!(!backend.seat_disabled());
    backend.forget_revoked_card();
    assert!(backend.current.is_none());
    backend.seat_resumed(displays(vec![output(0, 0)]));
    assert!(backend.active);
    assert_eq!(backend.pending_resize, Some(Size { w: 1920, h: 1080 }));
    backend.card_read_failed(Some(13));
    assert!(!backend.failed);
    backend.card_read_failed(Some(5));
    assert!(backend.failed);
}

#[test]
fn surfaces_follow_the_displays() {
    let mut backend = backend();
    backend.begin_surface();
    assert_eq!(backend.hdr_blob_step(), HdrBlobStep::Keep);
    assert!(matches!(
        backend.finish_surface(false, false, None),
        Err(DrmError::DmabufUnsupported)
    ));
    assert!(backend.finish_surface(true, true, None).is_ok());
    assert!(!backend.surface_needs_recreate());
    assert_eq!(backend.replace_gamma_blob(Some(4)), None);
    assert_eq!(backend.replace_gamma_blob(None), Some(4));
    let (resources, sprites) = backend.shut_down();
    assert!(resources.is_empty() && sprites.is_empty());
}

#[test]
fn renderers_belong_to_the_display_card() {
    let host = Host::Drm(backend());
    assert!(matches!(
        host.device_plan(None),
        Err(HostError::Drm(DrmError::Inactive))
    ));
    let node = DrmNode {
        major: 226,
        minor: 1,
    };
    let plan = host.device_plan(Some(node)).unwrap();
    assert!(plan.headless && plan.needs_dmabuf);
    assert_eq!(plan.drm_node, Some(node));
    assert!(matches!(
        plan.unmet("/dev/dri/card1"),
        HostError::DrmRenderer { path, major: 226, minor: 1 } if path == "/dev/dri/card1"
    ));
}

#[test]
fn surfaces_are_planned_for_the_color_mode() {
    let mut backend = backend();
    backend.displays.icc_profile = Some("/p".to_owned());
    let plain = backend.surface_plan(false);
    assert_eq!((plain.width, plain.height), backend.displays.size);
    assert_eq!(plain.colors, SurfaceColors::Unspecified);
    assert!(!plain.deep);
    assert_eq!(backend.surface_plan(true).colors, SurfaceColors::Profile);
    assert_eq!(backend.profile_to_read().map(String::as_str), Some("/p"));

    backend.displays.color_mode = DisplayColorMode::SdrDeepColor;
    assert_eq!(backend.surface_plan(false).colors, SurfaceColors::Srgb);
    assert_eq!(backend.surface_plan(true).colors, SurfaceColors::Profile);
    assert!(backend.surface_plan(false).deep);

    backend.displays.color_mode = DisplayColorMode::Hdr;
    assert_eq!(backend.profile_to_read(), None);
    assert_eq!(
        backend.surface_plan(true).colors,
        SurfaceColors::Bt2020Pq {
            sdr_white_bits: 203.0f32.to_bits()
        }
    );
    for (name, white) in [("A", None), ("B", Some(300.0f32)), ("C", Some(100.0f32))] {
        backend.settings.color.entries.push((
            name.to_owned(),
            ColorPolicy {
                hdr: true,
                deep_color: false,
                sdr_white_bits: white.map(f32::to_bits),
            },
        ));
    }
    assert_eq!(
        backend.surface_plan(false).colors,
        SurfaceColors::Bt2020Pq {
            sdr_white_bits: 300.0f32.to_bits()
        }
    );
}

#[test]
fn settings_are_taken_up_once() {
    let mut backend = backend();
    backend.set_configured_modes(ConnectorSettings::new());
    assert!(!backend.hotplug_pending);
    let mut modes = ConnectorSettings::new();
    modes.entries.push((
        "DP-0".to_owned(),
        ModeSpec {
            width: 1,
            height: 1,
            refresh_hz: None,
        },
    ));
    assert!(modes.get("DP-0").is_some());
    assert!(modes.get("DP-1").is_none());
    backend.set_configured_modes(modes);
    assert!(backend.hotplug_pending);
}

#[test]
fn rounds_go_on_while_a_flip_is_awaited() {
    let mut backend = backend();
    assert_eq!(backend.round_end(true, false), RoundEnd::Done);
    backend.pending_flips.insert(20);
    assert_eq!(backend.round_end(true, false), RoundEnd::Again);
    assert_eq!(backend.round_end(true, true), RoundEnd::Done);
    assert_eq!(backend.round_end(false, false), RoundEnd::Done);
    assert!(matches!(
        backend.flip_waited(true),
        Err(DrmError::FlipTimeout)
    ));
    backend.recover_lost_presentation();
    assert!(backend.flip_waited(true).is_ok());
    assert!(backend.flip_waited(false).is_err());
    assert!(backend.poll_failed(true));
    let ready = Readiness::from_revents(0, 1, 1, 0);
    assert!(!ready.seat && ready.card && ready.input && !ready.card_lost);
    assert_eq!(backend.card_step(ready), CardStep::Read);
    assert!(backend.reads_input(ready));
    backend.active = false;
    assert_eq!(backend.card_step(ready), CardStep::Skip);
    assert_eq!(poll_events(false), [1, 0, 0, 1, 0]);
    assert_eq!(
        backend.card_step(Readiness::from_revents(0, 16, 0, 0)),
        CardStep::Stop
    );
    assert_eq!(backend.round_end(false, false), RoundEnd::Dead);
    assert!(!backend.poll_failed(false));
}

fn device(tap_fingers: u32) -> DeviceCapabilities {
    DeviceCapabilities {
        pointer: true,
        tablet_tool: false,
        tap_fingers,
        disable_while_typing: false,
        two_finger_scroll: false,
        edge_scroll: true,
        natural_scroll: true,
        acceleration: true,
    }
}

#[test]
fn devices_are_told_apart() {
    let pad = device(3);
    let mouse = DeviceCapabilities {
        edge_scroll: false,
        ..device(0)
    };
    assert!(is_touchpad(&pad) && !is_mouse(&pad));
    assert!(is_mouse(&mouse) && !is_touchpad(&mouse));
    assert_eq!(classify(&pad), Some(PointerClass::Touchpad));
    assert_eq!(classify(&mouse), Some(PointerClass::Mouse));
    assert_eq!(
        choose_scroll_method(&pad, TouchpadScrollMethod::TwoFinger),
        Some(TouchpadScrollMethod::Edge)
    );
    let list = vec![
        ("b".to_owned(), pad),
        ("a".to_owned(), pad),
        ("b".to_owned(), pad),
    ];
    assert_eq!(device_names(&list), vec!["a", "b"]);
    assert!(touchpad_capabilities(&list).tap_to_click);
    assert!(mouse_capabilities(&[("m".to_owned(), mouse)]).pointer_speed);
    let settings = mouse_profile(
        &mouse,
        &MouseConfig {
            natural_scroll: true,
            pointer_speed_bits: 0,
            scroll_speed_bits: 0,
        },
    );
    assert!(settings.contains(&DeviceSetting::NaturalScroll(true)));
    let profile = touchpad_profile(
        &pad,
        &TouchpadConfig {
            natural_scroll: false,
            tap_to_click: true,
            tap_and_drag: true,
            drag_lock: false,
            disable_while_typing: true,
            pointer_speed_bits: 0,
            scroll_speed_bits: 0,
            scroll_method: TouchpadScrollMethod::TwoFinger,
        },
    );
    assert!(profile.contains(&DeviceSetting::ScrollMethod(TouchpadScrollMethod::Edge)));
    assert!(!profile.contains(&DeviceSetting::DisableWhileTyping(true)));
    assert_eq!(gesture_fingers(-2), 0);
    assert_eq!(gesture_fingers(3), 3);
}

#[test]
fn tablet_reports_become_events() {
    assert_eq!(tablet_tool_kind(TabletTool::Lens), 0x147);
    assert_eq!(tablet_tool_key(0, 2, 0x141), (2 << 16) ^ 0x141);
    let axes = ToolAxes {
        tilt: true,
        pressure: true,
        distance: false,
        rotation: false,
        slider: false,
        wheel: true,
    };
    assert_eq!(tool_capabilities(&axes), 0b100_0110);
    let tool = ToolReport {
        tool: TabletTool::Pen,
        serial: 9,
        hardware_id: 8,
        axes,
    };
    let place = AxesReport {
        x: 1f32.to_bits(),
        y: 2f32.to_bits(),
        pressure: None,
        distance: None,
        tilt: None,
        rotation: None,
        slider: None,
        wheel: None,
    };
    let mut events = Vec::new();
    push_tablet_event(
        &mut events,
        &tool,
        TabletReport::Proximity {
            in_proximity: true,
            axes: place,
            time: 1,
        },
    );
    push_tablet_event(
        &mut events,
        &tool,
        TabletReport::Tip {
            down: true,
            axes: place,
            time: 2,
        },
    );
    push_tablet_event(
        &mut events,
        &tool,
        TabletReport::Button {
            button: 331,
            pressed: false,
            time: 3,
        },
    );
    push_tablet_event(&mut events, &tool, TabletReport::Other);
    assert_eq!(
        events,
        vec![
            TabletEvent::Proximity {
                tool: 9,
                info: TabletToolInfo {
                    kind: 0x140,
                    serial: 9,
                    hardware_id: 8,
                    capabilities: 0b100_0110
                },
                in_proximity: true,
                x: 1f32.to_bits(),
                y: 2f32.to_bits(),
                time: 1
            },
            TabletEvent::Axes {
                tool: 9,
                axes: place,
                time: 1
            },
            TabletEvent::Axes {
                tool: 9,
                axes: place,
                time: 2
            },
            TabletEvent::Tip {
                tool: 9,
                state: ButtonState::Pressed,
                time: 2
            },
            TabletEvent::Button {
                tool: 9,
                button: 331,
                state: ButtonState::Released,
                time: 3
            },
        ]
    );
}

#[test]
fn outputs_are_described_for_the_desktop() {
    let backend = backend();
    let infos = backend.output_infos();
    assert_eq!(infos.len(), 1);
    assert_eq!(infos[0].connector, "DP-0");
    assert_eq!(infos[0].mode.refresh_mhz, 60_000);
    assert_eq!(infos[0].logical_origin, Point { x: 0, y: 0 });
}
