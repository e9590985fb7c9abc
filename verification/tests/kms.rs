//! Direct display output: pure decisions on concrete values.

use std::collections::{HashMap, HashSet};
use std::time::{Duration, Instant};

use drm::buffer::{DrmFourcc, DrmModifier};
use tessera::geometry::Rect;
use tessera::kms::assign::{assign_outputs, OutputChoice};
use tessera::kms::cursor::{cursor_plane_rect, CursorPlaneRect};
use tessera::kms::damage::damage_clip_for_output;
use tessera::kms::devices::wheel_steps;
use tessera::kms::display::scanout_formats_support;
use tessera::kms::error::{commit_error, commit_error_is_transient, DrmError};
use tessera::kms::flips::{
    deadline_passed, deadline_passed_at, poll_ms_remaining, poll_ms_remaining_at,
    retire_page_flip, FlipProgress,
};
use tessera::kms::formats::{intersect_modifier_sets, parse_format_modifiers};
use tessera::kms::matching::assign_optional_planes;
use tessera::kms::modes::{pick_mode, ModeSpec};
use tessera::kms::scanout::{
    composite_fb_reapable, composite_fb_slot_conflicts, scanout_acquire_fence_supported,
    CompositeFbKey, DmabufIdentity, ImportedBuffer, PrimaryPlaneFrame, ScanoutOwnership,
};

fn key(epoch: u64, slot: u32, inode: u64) -> CompositeFbKey {
    CompositeFbKey {
        epoch,
        slot,
        identity: DmabufIdentity { device: 7, inode },
        width: 3072,
        height: 1920,
        stride: 12_288,
        fourcc: DrmFourcc::Xrgb8888 as u32,
        modifier: u64::from(DrmModifier::Linear),
    }
}

#[test]
fn cache_key_rejects_same_slot_with_new_storage() {
    let original = key(4, 1, 100);
    assert!(!composite_fb_slot_conflicts(original, original));
    assert!(composite_fb_slot_conflicts(original, key(4, 1, 101)));
    assert!(!composite_fb_slot_conflicts(original, key(4, 2, 101)));
    assert!(!composite_fb_slot_conflicts(original, key(5, 1, 101)));
}

#[test]
fn invalidated_cache_entry_waits_for_last_scanout_reference() {
    assert!(!composite_fb_reapable(true, 0));
    assert!(!composite_fb_reapable(false, 1));
    assert!(composite_fb_reapable(false, 0));
}

#[test]
fn scanout_requires_in_fence_support_only_for_explicit_acquire_fences() {
    assert!(scanout_acquire_fence_supported(false, false));
    assert!(scanout_acquire_fence_supported(true, true));
    assert!(!scanout_acquire_fence_supported(true, false));
}

#[test]
fn atomic_batch_retires_only_after_every_crtc_flips() {
    let first = 1;
    let second = 2;
    let mut pending = HashSet::from([first, second]);

    assert_eq!(retire_page_flip(&mut pending, first), FlipProgress::Pending);
    assert_eq!(retire_page_flip(&mut pending, second), FlipProgress::Complete);
    assert!(pending.is_empty());
}

#[test]
fn unrelated_page_flip_cannot_complete_an_owned_batch() {
    let owned = 1;
    let mut pending = HashSet::from([owned]);

    assert_eq!(retire_page_flip(&mut pending, 99), FlipProgress::Unrelated);
    assert_eq!(pending, HashSet::from([owned]));
}

#[test]
fn optional_plane_matching_preserves_the_only_plane_for_a_later_crtc() {
    // Consumer 0 can use either plane, while consumer 1 can only use 0.
    assert_eq!(
        assign_optional_planes(&[vec![0, 1], vec![0]], 2),
        vec![Some(1), Some(0)]
    );
}

#[test]
fn optional_plane_matching_leaves_unsupported_consumers_unassigned() {
    assert_eq!(
        assign_optional_planes(&[vec![0], Vec::new(), vec![1]], 2),
        vec![Some(0), None, Some(1)]
    );
}

struct ScaledWheel {
    value: Option<f32>,
    discrete: Option<i32>,
    value120: Option<i32>,
}

/// A wheel motion at a speed factor: the continuous value is the scaled detent
/// of ten units, the steps are the library's.
fn scaled_wheel_value(value120: i32, factor: f32) -> ScaledWheel {
    let scaled = value120 as f32 * factor;
    match wheel_steps(value120, scaled.round() as i32) {
        None => ScaledWheel { value: None, discrete: None, value120: None },
        Some(steps) => ScaledWheel {
            value: Some(scaled / 12.0),
            discrete: steps.discrete,
            value120: Some(steps.value120),
        },
    }
}

#[test]
fn wheel_scaling_keeps_value120_and_steps_consistent() {
    // Neutral factor: one full detent unchanged.
    let neutral = scaled_wheel_value(120, 1.0);
    assert_eq!(neutral.value, Some(10.0));
    assert_eq!(neutral.discrete, Some(1));
    assert_eq!(neutral.value120, Some(120));
    // Double speed doubles every representation.
    let doubled = scaled_wheel_value(120, 2.0);
    assert_eq!(doubled.value, Some(20.0));
    assert_eq!(doubled.discrete, Some(2));
    assert_eq!(doubled.value120, Some(240));
    // Half a detent doubled becomes exactly one detent.
    let fraction = scaled_wheel_value(60, 2.0);
    assert_eq!(fraction.discrete, Some(1));
    assert_eq!(fraction.value120, Some(120));
    // A click slowed below one detent still steps once.
    let slow = scaled_wheel_value(120, 0.5);
    assert_eq!(slow.value, Some(5.0));
    assert_eq!(slow.discrete, Some(1));
    assert_eq!(slow.value120, Some(60));
    // High-resolution fractions carry no whole step at neutral speed.
    let fraction = scaled_wheel_value(30, 1.0);
    assert_eq!(fraction.discrete, None);
    assert_eq!(fraction.value120, Some(30));
    // A fraction that rounds to zero is suppressed entirely.
    let nothing = scaled_wheel_value(10, 0.04);
    assert_eq!(nothing.value, None);
    assert_eq!(nothing.discrete, None);
    assert_eq!(nothing.value120, None);
    // A negative factor inverts direction.
    let inverted = scaled_wheel_value(120, -1.0);
    assert_eq!(inverted.value, Some(-10.0));
    assert_eq!(inverted.discrete, Some(-1));
    assert_eq!(inverted.value120, Some(-120));
}

#[test]
fn scanout_ownership_must_match_primary_plane_source() {
    assert!(ScanoutOwnership::TransientCompositor.matches_frame(PrimaryPlaneFrame::Composited));
    assert!(!ScanoutOwnership::TransientCompositor.matches_frame(PrimaryPlaneFrame::DirectClient));
    assert!(ScanoutOwnership::TransientClient.matches_frame(PrimaryPlaneFrame::DirectClient));
    assert!(!ScanoutOwnership::TransientClient.matches_frame(PrimaryPlaneFrame::Composited));
}

#[test]
fn damage_clip_intersects_output_rect() {
    // Unknown damage covers the whole output.
    assert_eq!(
        damage_clip_for_output(None, 1920, 0, 1920, 1080),
        vec![[1920, 0, 3840, 1080]]
    );
    // A box spanning both outputs of a side-by-side desktop clips to each.
    let damage_rects = [Rect::new(1900, 100, 100, 200)];
    let damage = Some(&damage_rects[..]);
    assert_eq!(
        damage_clip_for_output(damage, 0, 0, 1920, 1080),
        vec![[1900, 100, 1920, 300]]
    );
    assert_eq!(
        damage_clip_for_output(damage, 1920, 0, 1920, 1080),
        vec![[1920, 100, 2000, 300]]
    );
    // Disjoint damage leaves the output untouched.
    let other_rects = [Rect::new(0, 0, 100, 100)];
    let other = Some(&other_rects[..]);
    assert_eq!(
        damage_clip_for_output(other, 1920, 0, 1920, 1080),
        Vec::<[i32; 4]>::new()
    );
    // Damage fully outside the framebuffer on the negative side.
    let negative_rects = [Rect::new(-50, -50, 40, 40)];
    let negative = Some(&negative_rects[..]);
    assert_eq!(
        damage_clip_for_output(negative, 0, 0, 1920, 1080),
        Vec::<[i32; 4]>::new()
    );
    // Disjoint dirty regions are preserved as separate clips.
    let disjoint_rects = [Rect::new(10, 10, 5, 5), Rect::new(500, 400, 8, 8)];
    let disjoint = Some(&disjoint_rects[..]);
    assert_eq!(
        damage_clip_for_output(disjoint, 0, 0, 1920, 1080),
        vec![[10, 10, 15, 15], [500, 400, 508, 408]]
    );
}

#[test]
fn cursor_plane_rect_clips_hotspot_and_output_boundaries() {
    assert_eq!(
        cursor_plane_rect((100, 80), (4, 6), (24, 24), (0, 0), (1920, 1080)),
        Some(CursorPlaneRect { src: (0, 0, 24, 24), dst: (96, 74, 24, 24) })
    );
    // A hotspot near the top-left keeps the full source and a negative
    // destination.
    assert_eq!(
        cursor_plane_rect((2, 3), (6, 7), (24, 24), (0, 0), (1920, 1080)),
        Some(CursorPlaneRect { src: (0, 0, 24, 24), dst: (-4, -4, 24, 24) })
    );
    // One sprite can be on two cursor planes while it straddles two outputs.
    assert_eq!(
        cursor_plane_rect((1920, 100), (12, 12), (24, 24), (0, 0), (1920, 1080)),
        Some(CursorPlaneRect { src: (0, 0, 24, 24), dst: (1908, 88, 24, 24) })
    );
    assert_eq!(
        cursor_plane_rect((1920, 100), (12, 12), (24, 24), (1920, 0), (1920, 1080)),
        Some(CursorPlaneRect { src: (0, 0, 24, 24), dst: (-12, 88, 24, 24) })
    );
}

#[test]
fn poll_deadline_shapes_timeout_values() {
    // No deadline blocks indefinitely and never expires.
    assert_eq!(poll_ms_remaining(None), -1);
    assert!(!deadline_passed(None));

    // A future deadline yields a bounded positive remaining budget.
    let future = Instant::now() + Duration::from_secs(60);
    let remaining = poll_ms_remaining(Some(future));
    assert!((1..=60_000).contains(&remaining));
    assert!(!deadline_passed(Some(future)));

    // A passed deadline degrades to a non-blocking poll.
    let past = Instant::now() - Duration::from_secs(1);
    assert_eq!(poll_ms_remaining(Some(past)), 0);
    assert!(deadline_passed(Some(past)));
}

#[test]
fn deadlines_follow_the_clock() {
    const MS: u128 = 1_000_000;
    assert_eq!(poll_ms_remaining_at(None, 5), -1);
    assert!(!deadline_passed_at(None, u128::MAX));
    let deadline = Some(10 * MS);
    assert_eq!(poll_ms_remaining_at(deadline, 0), 10);
    assert_eq!(poll_ms_remaining_at(deadline, 1), 9);
    assert_eq!(poll_ms_remaining_at(deadline, 10 * MS - 1), 0);
    assert!(!deadline_passed_at(deadline, 10 * MS - 1));
    for now in [10 * MS, 10 * MS + 1, u128::MAX] {
        assert!(deadline_passed_at(deadline, now));
        assert_eq!(poll_ms_remaining_at(deadline, now), 0);
    }
    assert_eq!(poll_ms_remaining_at(Some(u128::MAX), 0), i32::MAX);
    assert_eq!(
        poll_ms_remaining_at(Some(10 * MS), 4 * MS),
        poll_ms_remaining_at(Some(6 * MS), 0)
    );
}

#[test]
fn busy_nonblocking_commit_is_a_transient_frame_skip() {
    let error = std::io::Error::from_raw_os_error(libc::EBUSY);
    assert!(commit_error_is_transient(error.raw_os_error()));
    assert!(matches!(commit_error(error.raw_os_error()), DrmError::Busy));
}

#[test]
fn imported_buffer_exposes_single_xrgb_plane() {
    let buffer = ImportedBuffer {
        size: (1920, 1080),
        stride: 7680,
        modifier: u64::from(DrmModifier::Linear),
        format: DrmFourcc::Xrgb8888 as u32,
        offset: 0,
        gem: 1,
    };
    assert_eq!(buffer.size(), (1920, 1080));
    assert_eq!(buffer.format(), DrmFourcc::Xrgb8888 as u32);
    assert_eq!(buffer.pitches(), [7680, 0, 0, 0]);
    assert_eq!(buffer.offsets(), [0; 4]);
    assert_eq!(buffer.modifier(), Some(u64::from(DrmModifier::Linear)));
}

#[test]
fn parses_in_formats_modifier_bitsets() {
    // Header + two fourcc values + one aligned modifier record.
    let mut blob = vec![0_u8; 56];
    blob[8..12].copy_from_slice(&2_u32.to_ne_bytes());
    blob[12..16].copy_from_slice(&24_u32.to_ne_bytes());
    blob[16..20].copy_from_slice(&1_u32.to_ne_bytes());
    blob[20..24].copy_from_slice(&32_u32.to_ne_bytes());
    blob[24..28].copy_from_slice(&(DrmFourcc::Argb8888 as u32).to_ne_bytes());
    blob[28..32].copy_from_slice(&(DrmFourcc::Xrgb8888 as u32).to_ne_bytes());
    blob[32..40].copy_from_slice(&0b10_u64.to_ne_bytes());
    blob[40..44].copy_from_slice(&0_u32.to_ne_bytes());
    blob[48..56].copy_from_slice(&0x1234_u64.to_ne_bytes());

    assert_eq!(
        parse_format_modifiers(&blob, DrmFourcc::Xrgb8888 as u32).unwrap(),
        vec![0x1234]
    );
    assert!(parse_format_modifiers(&blob, DrmFourcc::Argb8888 as u32)
        .unwrap()
        .is_empty());
}

#[test]
fn native_modifier_precedes_linear_fallback() {
    // The table lists the linear layout first; it is still the last choice.
    let mut blob = vec![0_u8; 80];
    blob[8..12].copy_from_slice(&1_u32.to_ne_bytes());
    blob[12..16].copy_from_slice(&24_u32.to_ne_bytes());
    blob[16..20].copy_from_slice(&2_u32.to_ne_bytes());
    blob[20..24].copy_from_slice(&32_u32.to_ne_bytes());
    blob[24..28].copy_from_slice(&(DrmFourcc::Xrgb8888 as u32).to_ne_bytes());

    let linear = u64::from(DrmModifier::Linear);
    let tiled = u64::from(DrmModifier::I915_x_tiled);
    for (base, modifier) in [(32, linear), (56, tiled)] {
        blob[base..base + 8].copy_from_slice(&1_u64.to_ne_bytes());
        blob[base + 8..base + 12].copy_from_slice(&0_u32.to_ne_bytes());
        blob[base + 16..base + 24].copy_from_slice(&modifier.to_ne_bytes());
    }

    assert_eq!(
        parse_format_modifiers(&blob, DrmFourcc::Xrgb8888 as u32).unwrap(),
        vec![tiled, linear]
    );
}

#[test]
fn rejects_out_of_bounds_in_formats_blob() {
    let mut blob = vec![0_u8; 24];
    blob[8..12].copy_from_slice(&u32::MAX.to_ne_bytes());
    blob[12..16].copy_from_slice(&24_u32.to_ne_bytes());
    assert!(parse_format_modifiers(&blob, DrmFourcc::Xrgb8888 as u32).is_err());
}

#[test]
fn output_assignment_backtracks_and_intersects_modifiers() {
    let candidates = vec![
        vec![
            OutputChoice { crtc: 10, plane: 20, modifiers: vec![0, 7] },
            OutputChoice { crtc: 11, plane: 21, modifiers: vec![0] },
        ],
        vec![OutputChoice { crtc: 10, plane: 20, modifiers: vec![0, 9] }],
    ];

    let (selected, modifiers) = assign_outputs(&candidates).unwrap();
    assert_eq!(selected[0].crtc, 11);
    assert_eq!(selected[1].crtc, 10);
    assert_eq!(modifiers, vec![0]);
}

#[test]
fn scanout_capabilities_are_checked_per_client_format() {
    let mut formats = HashMap::new();
    formats.insert(DrmFourcc::Xrgb8888 as u32, vec![0, 7]);
    formats.insert(DrmFourcc::Argb8888 as u32, vec![0, 9]);

    assert!(scanout_formats_support(&formats, DrmFourcc::Argb8888 as u32, 9));
    assert!(!scanout_formats_support(&formats, DrmFourcc::Argb8888 as u32, 7));
    assert!(!scanout_formats_support(&formats, DrmFourcc::Abgr8888 as u32, 0));
}

#[test]
fn scanout_modifier_intersection_requires_every_output() {
    assert_eq!(
        intersect_modifier_sets(&[vec![0, 7, 9], vec![0, 9], vec![9, 11]]),
        vec![9]
    );
    assert!(intersect_modifier_sets(&[]).is_empty());
}

#[test]
fn pick_mode_without_spec_uses_highest_pixel_count_then_refresh() {
    let modes = [
        (1920, 1080, 60_000, false),
        (2560, 1440, 60_000, true),
        (2560, 1440, 144_000, false),
        (3840, 2160, 60_000, false),
    ];
    assert_eq!(pick_mode(&modes, None), Some(3));

    let same_resolution = [(2560, 1440, 60_000, true), (2560, 1440, 144_000, false)];
    assert_eq!(pick_mode(&same_resolution, None), Some(1));
    assert_eq!(pick_mode(&[], None), None);
}

#[test]
fn pick_mode_with_spec_requires_exact_size() {
    let modes = [(1920, 1080, 60_000, false), (2560, 1440, 60_000, true)];
    let spec = ModeSpec { width: 1920, height: 1080, refresh_hz: None };
    assert_eq!(pick_mode(&modes, Some(&spec)), Some(0));
    let missing = ModeSpec { width: 1280, height: 720, refresh_hz: None };
    assert_eq!(pick_mode(&modes, Some(&missing)), None);
}

#[test]
fn pick_mode_with_spec_uses_highest_refresh_then_tie_breakers() {
    let modes = [
        (1920, 1080, 60_000, false),
        (1920, 1080, 144_000, false),
        (1920, 1080, 75_000, true),
    ];
    let spec = ModeSpec { width: 1920, height: 1080, refresh_hz: None };
    assert_eq!(pick_mode(&modes, Some(&spec)), Some(1));
    // An exact refresh request selects only that rate (rounded).
    let hz = ModeSpec { width: 1920, height: 1080, refresh_hz: Some(144) };
    assert_eq!(pick_mode(&modes, Some(&hz)), Some(1));
    let odd = ModeSpec { width: 1920, height: 1080, refresh_hz: Some(75) };
    assert_eq!(pick_mode(&modes, Some(&odd)), Some(2));
}
