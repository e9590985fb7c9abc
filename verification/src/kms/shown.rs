//! What display updates put on the outputs, in terms of desktop pixels.

use vstd::prelude::*;
use drm::control::atomic::AtomicModeReq;
use crate::geometry::Rect;
use crate::kms::backend::DrmBackend;
use crate::kms::color::DisplayColorMode;
use crate::kms::commit::{
    add_cursor_plane_to_commit, all_off_entries, color_entries, completion_entries,
    cursor_entries, cursor_request, damage_hint,
    disable_request, frame_entries, frame_request, gamma_entries, gamma_request, off_entries,
    output_entries,
    primary_entries, request_completion, sprite_entries, DamageHint,
};
use crate::kms::cursor::{CursorBuffer, CursorState};
use crate::kms::damage::{
    clip_views, clips_cover_all_damage, clips_stay_within_damage, damage_clips, edges_cover,
    output_edges,
};
use crate::kms::output::{CursorPlane, Output, PrimaryPlane};
use crate::kms::request::{
    last_setting_counts, other_objects_are_left_alone, request_entries, says, settings,
    settings_add_up,
    with_entries, Entry,
};
use crate::kms::scanout::Scanout;

verus! {

/// Whether the desktop pixel at `(x, y)` lies on the output.
pub open spec fn on_output(output: Output, x: int, y: int) -> bool {
    &&& output.x <= x < output.x + output.width
    &&& output.y <= y < output.y + output.height
}

/// Whether a sprite of the given size, held by its hotspot, lies on the desktop
/// pixel at `(x, y)`.
pub open spec fn on_sprite(state: CursorState, extent: (u32, u32), x: int, y: int) -> bool {
    &&& state.position.0 - state.hotspot.0 <= x < state.position.0 - state.hotspot.0 + extent.0
    &&& state.position.1 - state.hotspot.1 <= y < state.position.1 - state.hotspot.1 + extent.1
}

/// Whether the sprite and the output have a desktop pixel in common.
pub open spec fn sprite_meets(
    output: Output,
    cursor: Option<CursorState>,
    buffers: Seq<CursorBuffer>,
) -> bool {
    &&& cursor matches Some(state)
    &&& state.buffer < buffers.len()
    &&& exists|x: int, y: int|
        #![trigger on_output(output, x, y)]
        on_output(output, x, y) && on_sprite(state, buffers[state.buffer as int].extent, x, y)
}

/// Whether a property is set to a signed number, in two's complement.
pub open spec fn says_signed(
    values: Map<(u32, u32), u64>,
    key: (u32, u32),
    number: int,
) -> bool {
    says(values, key) matches Some(raw) && (raw == number || raw == number
        + 0x1_0000_0000_0000_0000)
}

/// The properties of a cursor plane.
pub open spec fn cursor_properties(plane: CursorPlane) -> Seq<u32> {
    seq![
        plane.props.plane_fb_id,
        plane.props.plane_crtc_id,
        plane.props.plane_src_x,
        plane.props.plane_src_y,
        plane.props.plane_src_w,
        plane.props.plane_src_h,
        plane.props.plane_crtc_x,
        plane.props.plane_crtc_y,
        plane.props.plane_crtc_w,
        plane.props.plane_crtc_h,
    ]
}

/// An optional property as a list.
pub open spec fn listed(property: Option<u32>) -> Seq<u32> {
    match property {
        Some(property) => seq![property],
        None => Seq::empty(),
    }
}

/// The properties of a primary plane.
pub open spec fn primary_properties(plane: PrimaryPlane) -> Seq<u32> {
    seq![
        plane.props.fb_id,
        plane.props.crtc_id,
        plane.props.src_x,
        plane.props.src_y,
        plane.props.src_w,
        plane.props.src_h,
        plane.props.crtc_x,
        plane.props.crtc_y,
        plane.props.crtc_w,
        plane.props.crtc_h,
    ] + listed(plane.props.in_fence_fd) + listed(plane.props.fb_damage_clips)
}

/// The properties of an output's connector.
pub open spec fn connector_properties(output: Output) -> Seq<u32> {
    seq![output.props.connector_crtc_id] + listed(
        match output.props.connector_colorspace {
            Some((property, _, _)) => Some(property),
            None => None,
        },
    ) + listed(output.props.connector_hdr_metadata) + listed(output.props.connector_max_bpc)
}

/// Whether no two properties of an object of the output have the same number.
pub open spec fn distinct_properties(output: Output) -> bool {
    &&& output.cursor matches Some(plane) ==> cursor_properties(plane).no_duplicates()
    &&& primary_properties(output.primary).no_duplicates()
    &&& connector_properties(output).no_duplicates()
    &&& output.props.crtc_mode_id != output.props.crtc_active
}

/// Whether a display object is one of the output's.
pub open spec fn owns(output: Output, object: u32) -> bool {
    ||| object == output.connector
    ||| object == output.crtc
    ||| object == output.primary.handle
    ||| output.cursor is Some && object == output.cursor->0.handle
}

/// Whether no display object has two uses.
pub open spec fn distinct_objects(outputs: Seq<Output>) -> bool {
    &&& forall|i: int|
        #![trigger outputs[i]]
        0 <= i < outputs.len() ==> {
            &&& outputs[i].connector != outputs[i].crtc
            &&& outputs[i].connector != outputs[i].primary.handle
            &&& outputs[i].crtc != outputs[i].primary.handle
            &&& outputs[i].cursor matches Some(plane) ==> plane.handle != outputs[i].connector
                && plane.handle != outputs[i].crtc && plane.handle != outputs[i].primary.handle
        }
    &&& forall|i: int, j: int, object: u32|
        #![trigger owns(outputs[i], object), owns(outputs[j], object)]
        0 <= i < outputs.len() && 0 <= j < outputs.len() && i != j && owns(outputs[i], object)
            ==> !owns(outputs[j], object)
}

/// Whether the sprite has a size that a display can show.
pub open spec fn sprite_fits(cursor: Option<CursorState>, buffers: Seq<CursorBuffer>) -> bool {
    cursor is Some && cursor->0.buffer < buffers.len() ==> {
        let extent = buffers[cursor->0.buffer as int].extent;
        0 < extent.0 <= i32::MAX && 0 < extent.1 <= i32::MAX
    }
}

/// Whether an update is right about the sprite on an output with a cursor plane:
/// the plane is on if and only if the sprite has a pixel on the output, and then
/// the sprite's corner is where the pointer holds it.
pub open spec fn sprite_is_right(
    values: Map<(u32, u32), u64>,
    output: Output,
    cursor: Option<CursorState>,
    buffers: Seq<CursorBuffer>,
) -> bool {
    let plane = output.cursor->0.handle;
    let props = output.cursor->0.props;
    if sprite_meets(output, cursor, buffers) {
        let state = cursor->0;
        let buffer = buffers[state.buffer as int];
        &&& says(values, (plane, props.plane_fb_id)) == Some(buffer.framebuffer as u64)
        &&& says(values, (plane, props.plane_crtc_id)) == Some(output.crtc as u64)
        &&& says(values, (plane, props.plane_src_x)) == Some(0u64)
        &&& says(values, (plane, props.plane_src_y)) == Some(0u64)
        &&& says(values, (plane, props.plane_src_w)) == Some((buffer.extent.0 * 0x1_0000) as u64)
        &&& says(values, (plane, props.plane_src_h)) == Some((buffer.extent.1 * 0x1_0000) as u64)
        &&& says_signed(
            values,
            (plane, props.plane_crtc_x),
            state.position.0 - state.hotspot.0 - output.x,
        )
        &&& says_signed(
            values,
            (plane, props.plane_crtc_y),
            state.position.1 - state.hotspot.1 - output.y,
        )
        &&& says(values, (plane, props.plane_crtc_w)) == Some(buffer.extent.0 as u64)
        &&& says(values, (plane, props.plane_crtc_h)) == Some(buffer.extent.1 as u64)
    } else {
        &&& says(values, (plane, props.plane_fb_id)) == Some(0u64)
        &&& says(values, (plane, props.plane_crtc_id)) == Some(0u64)
    }
}

proof fn lemma_sprite_settings(
    base: Map<(u32, u32), u64>,
    output: Output,
    cursor: Option<CursorState>,
    buffers: Seq<CursorBuffer>,
)
    requires
        output.wf(),
        output.cursor is Some,
        cursor_properties(output.cursor->0).no_duplicates(),
        output.width > 0 && output.height > 0,
        sprite_fits(cursor, buffers),
    ensures
        sprite_is_right(
            with_entries(base, cursor_entries(output, cursor, buffers)),
            output,
            cursor,
            buffers,
        ),
{
    let entries = cursor_entries(output, cursor, buffers);
    let ids = cursor_properties(output.cursor->0);
    let plane = output.cursor->0.handle;
    assert(entries.len() <= 10);
    assert forall|k: int| 0 <= k < entries.len() implies (#[trigger] entries[k]).0 == (
        plane,
        ids[k],
    ) by {}
    assert forall|k: int| 0 <= k < entries.len() implies #[trigger] says(
        with_entries(base, entries),
        (plane, ids[k]),
    ) == Some(entries[k].1) by {
        assert(entries[k].0 == (plane, ids[k]));
        assert forall|i: int| k < i < entries.len() implies (#[trigger] entries[i]).0
            != entries[k].0 by {
            assert(ids[i] != ids[k]);
        }
        last_setting_counts(base, entries, k);
    }
    let values = with_entries(base, entries);
    assert(says(values, (plane, ids[0])) == Some(entries[0].1));
    assert(says(values, (plane, ids[1])) == Some(entries[1].1));
    if cursor is Some && cursor->0.buffer < buffers.len() {
        let state = cursor->0;
        let extent = buffers[state.buffer as int].extent;
        let left = state.position.0 - state.hotspot.0;
        let top = state.position.1 - state.hotspot.1;
        let x: int = if left >= output.x {
            left
        } else {
            output.x as int
        };
        let y: int = if top >= output.y {
            top
        } else {
            output.y as int
        };
        assert(sprite_meets(output, cursor, buffers) <==> on_output(output, x, y) && on_sprite(
            state,
            extent,
            x,
            y,
        ));
        if sprite_meets(output, cursor, buffers) {
            assert(entries.len() == 10);
            assert(says(values, (plane, ids[2])) == Some(entries[2].1));
            assert(says(values, (plane, ids[3])) == Some(entries[3].1));
            assert(says(values, (plane, ids[4])) == Some(entries[4].1));
            assert(says(values, (plane, ids[5])) == Some(entries[5].1));
            assert(says(values, (plane, ids[6])) == Some(entries[6].1));
            assert(says(values, (plane, ids[7])) == Some(entries[7].1));
            assert(says(values, (plane, ids[8])) == Some(entries[8].1));
            assert(says(values, (plane, ids[9])) == Some(entries[9].1));
        }
    }
}

proof fn lemma_sprite_part(
    outputs: Seq<Output>,
    count: int,
    index: int,
    cursor: Option<CursorState>,
    buffers: Seq<CursorBuffer>,
    property: u32,
)
    requires
        0 <= index < count <= outputs.len(),
        outputs[index].cursor is Some,
        forall|j: int|
            0 <= j < outputs.len() && j != index && (#[trigger] outputs[j]).cursor is Some
                ==> outputs[j].cursor->0.handle != outputs[index].cursor->0.handle,
    ensures
        says(
            settings(sprite_entries(outputs, count, cursor, buffers)),
            (outputs[index].cursor->0.handle, property),
        ) == says(
            with_entries(
                settings(sprite_entries(outputs, index, cursor, buffers)),
                cursor_entries(outputs[index], cursor, buffers),
            ),
            (outputs[index].cursor->0.handle, property),
        ),
    decreases count,
{
    let earlier = sprite_entries(outputs, count - 1, cursor, buffers);
    let more = cursor_entries(outputs[count - 1], cursor, buffers);
    settings_add_up(Map::empty(), earlier, more);
    if index < count - 1 {
        lemma_sprite_part(outputs, count - 1, index, cursor, buffers, property);
        let plane = outputs[index].cursor->0.handle;
        assert forall|k: int| 0 <= k < more.len() implies (#[trigger] more[k]).0.0 != plane by {
            assert(outputs[count - 1].cursor is Some);
        }
        other_objects_are_left_alone(settings(earlier), more, plane, property);
    }
}

/// A sprite update shows the sprite on an output's cursor plane if and only if
/// the sprite has a desktop pixel on that output, and then with its corner at the
/// pointer less the hotspot, counted from the output's corner. Everywhere else
/// the plane is off.
pub proof fn sprite_updates_follow_the_pointer(
    outputs: Seq<Output>,
    cursor: Option<CursorState>,
    buffers: Seq<CursorBuffer>,
    index: int,
)
    requires
        0 <= index < outputs.len(),
        outputs[index].wf(),
        outputs[index].cursor is Some,
        cursor_properties(outputs[index].cursor->0).no_duplicates(),
        outputs[index].width > 0 && outputs[index].height > 0,
        sprite_fits(cursor, buffers),
        forall|j: int|
            0 <= j < outputs.len() && j != index && (#[trigger] outputs[j]).cursor is Some
                ==> outputs[j].cursor->0.handle != outputs[index].cursor->0.handle,
    ensures
        sprite_is_right(
            settings(sprite_entries(outputs, outputs.len() as int, cursor, buffers)),
            outputs[index],
            cursor,
            buffers,
        ),
{
    let base = settings(sprite_entries(outputs, index, cursor, buffers));
    lemma_sprite_settings(base, outputs[index], cursor, buffers);
    assert forall|property: u32|
        #![trigger says(
            settings(sprite_entries(outputs, outputs.len() as int, cursor, buffers)),
            (outputs[index].cursor->0.handle, property),
        )]
        says(
            settings(sprite_entries(outputs, outputs.len() as int, cursor, buffers)),
            (outputs[index].cursor->0.handle, property),
        ) == says(
            with_entries(base, cursor_entries(outputs[index], cursor, buffers)),
            (outputs[index].cursor->0.handle, property),
        ) by {
        lemma_sprite_part(outputs, outputs.len() as int, index, cursor, buffers, property);
    }
}

/// Where the outputs do not overlap, a sprite that lies wholly on one of them is
/// on that output's cursor plane and on no other.
pub proof fn sprite_on_one_output_shows_only_there(
    outputs: Seq<Output>,
    state: CursorState,
    buffers: Seq<CursorBuffer>,
    home: int,
    other: int,
)
    requires
        0 <= home < outputs.len() && 0 <= other < outputs.len() && home != other,
        outputs[home].wf() && outputs[other].wf(),
        outputs[home].cursor is Some && outputs[other].cursor is Some,
        cursor_properties(outputs[home].cursor->0).no_duplicates(),
        cursor_properties(outputs[other].cursor->0).no_duplicates(),
        outputs[home].width > 0 && outputs[home].height > 0,
        outputs[other].width > 0 && outputs[other].height > 0,
        state.buffer < buffers.len(),
        sprite_fits(Some(state), buffers),
        forall|i: int, j: int|
            #![trigger outputs[i], outputs[j]]
            0 <= i < outputs.len() && 0 <= j < outputs.len() && i != j && outputs[i].cursor is Some
                && outputs[j].cursor is Some ==> outputs[i].cursor->0.handle
                != outputs[j].cursor->0.handle,
        forall|x: int, y: int|
            #![trigger on_output(outputs[other], x, y)]
            !(on_output(outputs[home], x, y) && on_output(outputs[other], x, y)),
        forall|x: int, y: int|
            #![trigger on_sprite(state, buffers[state.buffer as int].extent, x, y)]
            on_sprite(state, buffers[state.buffer as int].extent, x, y) ==> on_output(
                outputs[home],
                x,
                y,
            ),
    ensures
        ({
            let values = settings(
                sprite_entries(outputs, outputs.len() as int, Some(state), buffers),
            );
            let here = outputs[home].cursor->0;
            let there = outputs[other].cursor->0;
            &&& says(values, (here.handle, here.props.plane_fb_id)) == Some(
                buffers[state.buffer as int].framebuffer as u64,
            )
            &&& says(values, (here.handle, here.props.plane_crtc_id)) == Some(
                outputs[home].crtc as u64,
            )
            &&& says(values, (there.handle, there.props.plane_fb_id)) == Some(0u64)
            &&& says(values, (there.handle, there.props.plane_crtc_id)) == Some(0u64)
        }),
{
    sprite_updates_follow_the_pointer(outputs, Some(state), buffers, home);
    sprite_updates_follow_the_pointer(outputs, Some(state), buffers, other);
    let extent = buffers[state.buffer as int].extent;
    let left = state.position.0 - state.hotspot.0;
    let top = state.position.1 - state.hotspot.1;
    assert(on_sprite(state, extent, left, top));
    assert(on_output(outputs[home], left, top));
    assert(sprite_meets(outputs[home], Some(state), buffers));
    assert(!sprite_meets(outputs[other], Some(state), buffers));
}

proof fn lemma_own_entries(
    output: Output,
    mode: DisplayColorMode,
    hdr_blob: Option<u64>,
    cursor: Option<CursorState>,
    buffers: Seq<CursorBuffer>,
    framebuffer: u32,
    acquire_fd: i32,
    damage_blob: u64,
)
    ensures
        ({
            let entries = output_entries(
                output,
                mode,
                hdr_blob,
                cursor,
                buffers,
                framebuffer,
                acquire_fd,
                damage_blob,
            );
            forall|k: int| 0 <= k < entries.len() ==> owns(output, (#[trigger] entries[k]).0.0)
        }),
{
}

proof fn lemma_frame_part(
    outputs: Seq<Output>,
    count: int,
    index: int,
    mode: DisplayColorMode,
    hdr_blob: Option<u64>,
    cursor: Option<CursorState>,
    buffers: Seq<CursorBuffer>,
    framebuffer: u32,
    acquire_fd: i32,
    damage_blobs: Seq<u64>,
    object: u32,
    property: u32,
)
    requires
        0 <= index < count <= outputs.len(),
        distinct_objects(outputs),
        owns(outputs[index], object),
    ensures
        says(
            settings(
                frame_entries(
                    outputs,
                    count,
                    mode,
                    hdr_blob,
                    cursor,
                    buffers,
                    framebuffer,
                    acquire_fd,
                    damage_blobs,
                ),
            ),
            (object, property),
        ) == says(
            with_entries(
                settings(
                    frame_entries(
                        outputs,
                        index,
                        mode,
                        hdr_blob,
                        cursor,
                        buffers,
                        framebuffer,
                        acquire_fd,
                        damage_blobs,
                    ),
                ),
                output_entries(
                    outputs[index],
                    mode,
                    hdr_blob,
                    cursor,
                    buffers,
                    framebuffer,
                    acquire_fd,
                    damage_blobs[index],
                ),
            ),
            (object, property),
        ),
    decreases count,
{
    let earlier = frame_entries(
        outputs,
        count - 1,
        mode,
        hdr_blob,
        cursor,
        buffers,
        framebuffer,
        acquire_fd,
        damage_blobs,
    );
    let more = output_entries(
        outputs[count - 1],
        mode,
        hdr_blob,
        cursor,
        buffers,
        framebuffer,
        acquire_fd,
        damage_blobs[count - 1],
    );
    settings_add_up(Map::empty(), earlier, more);
    if index < count - 1 {
        lemma_frame_part(
            outputs,
            count - 1,
            index,
            mode,
            hdr_blob,
            cursor,
            buffers,
            framebuffer,
            acquire_fd,
            damage_blobs,
            object,
            property,
        );
        lemma_own_entries(
            outputs[count - 1],
            mode,
            hdr_blob,
            cursor,
            buffers,
            framebuffer,
            acquire_fd,
            damage_blobs[count - 1],
        );
        assert(!owns(outputs[count - 1], object));
        assert forall|k: int| 0 <= k < more.len() implies (#[trigger] more[k]).0.0 != object by {
            assert(owns(outputs[count - 1], more[k].0.0));
        }
        other_objects_are_left_alone(settings(earlier), more, object, property);
    }
}

/// Whether an update drives an output: its controller runs the output's mode and
/// feeds the output's connector.
pub open spec fn output_is_driven(values: Map<(u32, u32), u64>, output: Output) -> bool {
    &&& says(values, (output.connector, output.props.connector_crtc_id)) == Some(output.crtc as u64)
    &&& says(values, (output.crtc, output.props.crtc_mode_id)) == Some(output.mode_blob)
    &&& says(values, (output.crtc, output.props.crtc_active)) == Some(1u64)
}

/// Whether an update states the color of an output for the pipeline.
pub open spec fn color_is_right(
    values: Map<(u32, u32), u64>,
    output: Output,
    mode: DisplayColorMode,
    hdr_blob: Option<u64>,
) -> bool {
    &&& output.props.connector_colorspace matches Some((property, default_value, bt2020_value))
        ==> says(values, (output.connector, property)) == match mode {
        DisplayColorMode::Hdr => Some(bt2020_value),
        _ => Some(default_value),
    }
    &&& output.props.connector_hdr_metadata matches Some(property) ==> says(
        values,
        (output.connector, property),
    ) == match (mode, hdr_blob) {
        (DisplayColorMode::Hdr, Some(blob)) => Some(blob),
        _ => Some(0u64),
    }
    &&& output.props.connector_max_bpc matches Some(property) ==> says(
        values,
        (output.connector, property),
    ) == match mode {
        DisplayColorMode::Sdr => Some(8u64),
        _ => Some(10u64),
    }
}

/// Whether an update shows an output its own part of a framebuffer that spans
/// the desktop, at full size and in place.
pub open spec fn part_is_shown(
    values: Map<(u32, u32), u64>,
    output: Output,
    framebuffer: u32,
    acquire_fd: i32,
    damage_blob: u64,
) -> bool {
    let plane = output.primary.handle;
    let props = output.primary.props;
    &&& says(values, (plane, props.fb_id)) == Some(framebuffer as u64)
    &&& says(values, (plane, props.crtc_id)) == Some(output.crtc as u64)
    &&& says(values, (plane, props.src_x)) == Some((output.x * 0x1_0000) as u64)
    &&& says(values, (plane, props.src_y)) == Some((output.y * 0x1_0000) as u64)
    &&& says(values, (plane, props.src_w)) == Some((output.width * 0x1_0000) as u64)
    &&& says(values, (plane, props.src_h)) == Some((output.height * 0x1_0000) as u64)
    &&& says(values, (plane, props.crtc_x)) == Some(0u64)
    &&& says(values, (plane, props.crtc_y)) == Some(0u64)
    &&& says(values, (plane, props.crtc_w)) == Some(output.width as u64)
    &&& says(values, (plane, props.crtc_h)) == Some(output.height as u64)
    &&& props.in_fence_fd matches Some(property) ==> says_signed(
        values,
        (plane, property),
        acquire_fd as int,
    )
    &&& props.fb_damage_clips matches Some(property) ==> says(values, (plane, property)) == Some(
        damage_blob,
    )
}

proof fn lemma_primary_settings(
    base: Map<(u32, u32), u64>,
    output: Output,
    framebuffer: u32,
    acquire_fd: i32,
    damage_blob: u64,
)
    requires
        primary_properties(output.primary).no_duplicates(),
    ensures
        part_is_shown(
            with_entries(base, primary_entries(output, framebuffer, acquire_fd, damage_blob)),
            output,
            framebuffer,
            acquire_fd,
            damage_blob,
        ),
{
    let entries = primary_entries(output, framebuffer, acquire_fd, damage_blob);
    let ids = primary_properties(output.primary);
    let plane = output.primary.handle;
    let values = with_entries(base, entries);
    assert(entries.len() == ids.len());
    assert forall|k: int| 0 <= k < entries.len() implies (#[trigger] entries[k]).0 == (
        plane,
        ids[k],
    ) by {}
    assert forall|k: int| 0 <= k < entries.len() implies #[trigger] says(
        values,
        (plane, ids[k]),
    ) == Some(entries[k].1) by {
        assert(entries[k].0 == (plane, ids[k]));
        assert forall|i: int| k < i < entries.len() implies (#[trigger] entries[i]).0
            != entries[k].0 by {
            assert(ids[i] != ids[k]);
        }
        last_setting_counts(base, entries, k);
    }
    assert(says(values, (plane, ids[0])) == Some(entries[0].1));
    assert(says(values, (plane, ids[1])) == Some(entries[1].1));
    assert(says(values, (plane, ids[2])) == Some(entries[2].1));
    assert(says(values, (plane, ids[3])) == Some(entries[3].1));
    assert(says(values, (plane, ids[4])) == Some(entries[4].1));
    assert(says(values, (plane, ids[5])) == Some(entries[5].1));
    assert(says(values, (plane, ids[6])) == Some(entries[6].1));
    assert(says(values, (plane, ids[7])) == Some(entries[7].1));
    assert(says(values, (plane, ids[8])) == Some(entries[8].1));
    assert(says(values, (plane, ids[9])) == Some(entries[9].1));
    if ids.len() > 10 {
        assert(says(values, (plane, ids[10])) == Some(entries[10].1));
    }
    if ids.len() > 11 {
        assert(says(values, (plane, ids[11])) == Some(entries[11].1));
    }
}

proof fn lemma_drive_settings(
    base: Map<(u32, u32), u64>,
    output: Output,
    mode: DisplayColorMode,
    hdr_blob: Option<u64>,
)
    requires
        output.connector != output.crtc,
        connector_properties(output).no_duplicates(),
        output.props.crtc_mode_id != output.props.crtc_active,
    ensures
        ({
            let values = with_entries(
                base,
                seq![
                    ((output.connector, output.props.connector_crtc_id), output.crtc as u64),
                    ((output.crtc, output.props.crtc_mode_id), output.mode_blob),
                    ((output.crtc, output.props.crtc_active), 1u64),
                ] + color_entries(output.connector, output.props, mode, hdr_blob),
            );
            output_is_driven(values, output) && color_is_right(values, output, mode, hdr_blob)
        }),
{
    let colors = color_entries(output.connector, output.props, mode, hdr_blob);
    let entries = seq![
        ((output.connector, output.props.connector_crtc_id), output.crtc as u64),
        ((output.crtc, output.props.crtc_mode_id), output.mode_blob),
        ((output.crtc, output.props.crtc_active), 1u64),
    ] + colors;
    let ids = connector_properties(output);
    let values = with_entries(base, entries);
    assert(entries.len() == ids.len() + 2);
    assert forall|k: int| 3 <= k < entries.len() implies (#[trigger] entries[k]).0 == (
        output.connector,
        ids[k - 2],
    ) by {
        assert(entries[k] == colors[k - 3]);
    }
    assert forall|k: int| 0 <= k < entries.len() implies #[trigger] says(values, entries[k].0)
        == Some(entries[k].1) by {
        assert forall|i: int| k < i < entries.len() implies (#[trigger] entries[i]).0
            != entries[k].0 by {
            if k >= 3 {
                assert(ids[i - 2] != ids[k - 2]);
            } else if i >= 3 {
                assert(ids[i - 2] != ids[0]);
            }
        }
        last_setting_counts(base, entries, k);
    }
    assert(says(values, entries[0].0) == Some(entries[0].1));
    assert(says(values, entries[1].0) == Some(entries[1].1));
    assert(says(values, entries[2].0) == Some(entries[2].1));
    if entries.len() > 3 {
        assert(says(values, entries[3].0) == Some(entries[3].1));
    }
    if entries.len() > 4 {
        assert(says(values, entries[4].0) == Some(entries[4].1));
    }
    if entries.len() > 5 {
        assert(says(values, entries[5].0) == Some(entries[5].1));
    }
}

/// A frame update drives every output and shows it its own part of the
/// framebuffer, in the color of the pipeline, with the sprite where the pointer
/// is.
pub proof fn frame_updates_show_each_output_its_part(
    outputs: Seq<Output>,
    mode: DisplayColorMode,
    hdr_blob: Option<u64>,
    cursor: Option<CursorState>,
    buffers: Seq<CursorBuffer>,
    framebuffer: u32,
    acquire_fd: i32,
    damage_blobs: Seq<u64>,
    index: int,
)
    requires
        0 <= index < outputs.len(),
        outputs[index].wf(),
        distinct_objects(outputs),
        distinct_properties(outputs[index]),
        outputs[index].width > 0 && outputs[index].height > 0,
        sprite_fits(cursor, buffers),
    ensures
        ({
            let values = settings(
                frame_entries(
                    outputs,
                    outputs.len() as int,
                    mode,
                    hdr_blob,
                    cursor,
                    buffers,
                    framebuffer,
                    acquire_fd,
                    damage_blobs,
                ),
            );
            &&& output_is_driven(values, outputs[index])
            &&& color_is_right(values, outputs[index], mode, hdr_blob)
            &&& part_is_shown(
                values,
                outputs[index],
                framebuffer,
                acquire_fd,
                damage_blobs[index],
            )
            &&& outputs[index].cursor is Some ==> sprite_is_right(
                values,
                outputs[index],
                cursor,
                buffers,
            )
        }),
{
    let output = outputs[index];
    let values = settings(
        frame_entries(
            outputs,
            outputs.len() as int,
            mode,
            hdr_blob,
            cursor,
            buffers,
            framebuffer,
            acquire_fd,
            damage_blobs,
        ),
    );
    let base = settings(
        frame_entries(
            outputs,
            index,
            mode,
            hdr_blob,
            cursor,
            buffers,
            framebuffer,
            acquire_fd,
            damage_blobs,
        ),
    );
    let entries = output_entries(
        output,
        mode,
        hdr_blob,
        cursor,
        buffers,
        framebuffer,
        acquire_fd,
        damage_blobs[index],
    );
    let own = with_entries(base, entries);
    assert forall|object: u32, property: u32|
        #![trigger says(values, (object, property))]
        owns(output, object) implies says(values, (object, property)) == says(
        own,
        (object, property),
    ) by {
        lemma_frame_part(
            outputs,
            outputs.len() as int,
            index,
            mode,
            hdr_blob,
            cursor,
            buffers,
            framebuffer,
            acquire_fd,
            damage_blobs,
            object,
            property,
        );
    }
    let sprite = cursor_entries(output, cursor, buffers);
    let drive = seq![
        ((output.connector, output.props.connector_crtc_id), output.crtc as u64),
        ((output.crtc, output.props.crtc_mode_id), output.mode_blob),
        ((output.crtc, output.props.crtc_active), 1u64),
    ] + color_entries(output.connector, output.props, mode, hdr_blob);
    let primary = primary_entries(output, framebuffer, acquire_fd, damage_blobs[index]);
    assert(entries =~= (sprite + drive) + primary);
    settings_add_up(base, sprite + drive, primary);
    settings_add_up(base, sprite, drive);
    let after_sprite = with_entries(base, sprite);
    let after_drive = with_entries(after_sprite, drive);
    assert(own == with_entries(after_drive, primary));
    lemma_primary_settings(after_drive, output, framebuffer, acquire_fd, damage_blobs[index]);
    lemma_drive_settings(after_sprite, output, mode, hdr_blob);
    assert forall|k: int| 0 <= k < primary.len() implies (#[trigger] primary[k]).0.0
        == output.primary.handle by {}
    assert forall|object: u32, property: u32|
        #![trigger says(own, (object, property))]
        object != output.primary.handle implies says(own, (object, property)) == says(
        after_drive,
        (object, property),
    ) by {
        other_objects_are_left_alone(after_drive, primary, object, property);
    }
    if output.cursor is Some {
        lemma_sprite_settings(base, output, cursor, buffers);
        let plane = output.cursor->0.handle;
        assert forall|k: int| 0 <= k < drive.len() implies (#[trigger] drive[k]).0.0 != plane by {}
        assert forall|property: u32|
            #![trigger says(after_drive, (plane, property))]
            says(after_drive, (plane, property)) == says(after_sprite, (plane, property)) by {
            other_objects_are_left_alone(after_sprite, drive, plane, property);
        }
    }
}

/// Whether an update turns an output off, with all its planes.
pub open spec fn output_is_off(values: Map<(u32, u32), u64>, output: Output) -> bool {
    &&& says(values, (output.crtc, output.props.crtc_active)) == Some(0u64)
    &&& says(values, (output.connector, output.props.connector_crtc_id)) == Some(0u64)
    &&& says(values, (output.primary.handle, output.primary.props.fb_id)) == Some(0u64)
    &&& says(values, (output.primary.handle, output.primary.props.crtc_id)) == Some(0u64)
    &&& output.cursor matches Some(plane) ==> says(values, (plane.handle, plane.props.plane_fb_id))
        == Some(0u64) && says(values, (plane.handle, plane.props.plane_crtc_id)) == Some(0u64)
}

proof fn lemma_only_zero(base: Map<(u32, u32), u64>, entries: Seq<Entry>, at: int)
    requires
        0 <= at < entries.len(),
        forall|i: int| 0 <= i < entries.len() ==> (#[trigger] entries[i]).1 == 0,
    ensures
        says(with_entries(base, entries), entries[at].0) == Some(0u64),
    decreases entries.len(),
{
    assert(entries[entries.len() - 1].1 == 0);
    if at < entries.len() - 1 {
        let rest = entries.drop_last();
        assert forall|i: int| 0 <= i < rest.len() implies (#[trigger] rest[i]).1 == 0 by {
            assert(rest[i] == entries[i]);
        }
        lemma_only_zero(base, rest, at);
    }
}

proof fn lemma_off_place(outputs: Seq<Output>, count: int, index: int)
    requires
        0 <= index < count <= outputs.len(),
    ensures
        forall|i: int|
            0 <= i < all_off_entries(outputs, count).len() ==> (#[trigger] all_off_entries(
                outputs,
                count,
            )[i]).1 == 0,
        forall|k: int|
            0 <= k < off_entries(outputs[index]).len() ==> all_off_entries(
                outputs,
                count,
            ).contains(#[trigger] off_entries(outputs[index])[k]),
    decreases count,
{
    let earlier = all_off_entries(outputs, count - 1);
    let more = off_entries(outputs[count - 1]);
    let all = all_off_entries(outputs, count);
    assert forall|i: int| 0 <= i < more.len() implies (#[trigger] more[i]).1 == 0 by {}
    if count > 1 {
        lemma_off_place(outputs, count - 1, if index < count - 1 {
            index
        } else {
            0
        });
    }
    assert forall|i: int| 0 <= i < all.len() implies (#[trigger] all[i]).1 == 0 by {
        if i < earlier.len() {
            assert(all[i] == earlier[i]);
        } else {
            assert(all[i] == more[i - earlier.len()]);
        }
    }
    assert forall|k: int| 0 <= k < off_entries(outputs[index]).len() implies all.contains(
        #[trigger] off_entries(outputs[index])[k],
    ) by {
        if index < count - 1 {
            let at = earlier.index_of(off_entries(outputs[index])[k]);
            assert(all[at] == off_entries(outputs[index])[k]);
        } else {
            assert(all[earlier.len() + k] == more[k]);
        }
    }
}

/// The update that turns the outputs off turns off every output and every plane
/// of it, and sets nothing to anything but zero.
pub proof fn disabling_turns_every_output_off(outputs: Seq<Output>, index: int)
    requires
        0 <= index < outputs.len(),
    ensures
        output_is_off(
            settings(all_off_entries(outputs, outputs.len() as int)),
            outputs[index],
        ),
{
    let all = all_off_entries(outputs, outputs.len() as int);
    let own = off_entries(outputs[index]);
    let values = settings(all);
    lemma_off_place(outputs, outputs.len() as int, index);
    assert forall|k: int| 0 <= k < own.len() implies says(values, (#[trigger] own[k]).0) == Some(
        0u64,
    ) by {
        assert(all.contains(own[k]));
        let at = all.index_of(own[k]);
        lemma_only_zero(Map::empty(), all, at);
    }
    if outputs[index].cursor is Some {
        assert(own.len() == 6);
        assert(says(values, own[0].0) == Some(0u64));
        assert(says(values, own[1].0) == Some(0u64));
        assert(says(values, own[2].0) == Some(0u64));
        assert(says(values, own[3].0) == Some(0u64));
        assert(says(values, own[4].0) == Some(0u64));
        assert(says(values, own[5].0) == Some(0u64));
    } else {
        assert(own.len() == 4);
        assert(says(values, own[0].0) == Some(0u64));
        assert(says(values, own[1].0) == Some(0u64));
        assert(says(values, own[2].0) == Some(0u64));
        assert(says(values, own[3].0) == Some(0u64));
    }
}

/// Whether every controller drives one output only.
pub open spec fn distinct_controllers(outputs: Seq<Output>) -> bool {
    forall|i: int, j: int|
        #![trigger outputs[i], outputs[j]]
        0 <= i < j < outputs.len() ==> outputs[i].crtc != outputs[j].crtc
}

proof fn lemma_gamma_part(
    outputs: Seq<Output>,
    tables: Seq<Option<u64>>,
    count: int,
    index: int,
    property: u32,
)
    requires
        distinct_controllers(outputs),
        0 <= index < outputs.len(),
        0 <= count <= outputs.len(),
    ensures
        says(settings(gamma_entries(outputs, tables, count)), (outputs[index].crtc, property))
            == if index < count {
            match (outputs[index].props.crtc_gamma_lut, tables[index]) {
                (Some((own, _)), Some(table)) if own == property => Some(table),
                _ => None,
            }
        } else {
            None
        },
    decreases count,
{
    if count > 0 {
        lemma_gamma_part(outputs, tables, count - 1, index, property);
        let earlier = gamma_entries(outputs, tables, count - 1);
        let all = gamma_entries(outputs, tables, count);
        if all.len() > earlier.len() {
            assert(all.drop_last() =~= earlier);
        }
        assert(index != count - 1 ==> outputs[index].crtc != outputs[count - 1].crtc);
    }
}

/// A gamma update gives each controller with a gamma table the table that was
/// made for its own output, and says nothing of a controller without one.
pub proof fn gamma_tables_go_to_their_own_output(
    outputs: Seq<Output>,
    tables: Seq<Option<u64>>,
    index: int,
    property: u32,
)
    requires
        distinct_controllers(outputs),
        0 <= index < outputs.len(),
    ensures
        says(
            settings(gamma_entries(outputs, tables, outputs.len() as int)),
            (outputs[index].crtc, property),
        ) == match (outputs[index].props.crtc_gamma_lut, tables[index]) {
            (Some((own, _)), Some(table)) if own == property => Some(table),
            _ => None,
        },
{
    lemma_gamma_part(outputs, tables, outputs.len() as int, index, property);
}

proof fn lemma_completion_part(
    base: Map<(u32, u32), u64>,
    outputs: Seq<Output>,
    pointers: Seq<u64>,
    count: int,
    index: int,
)
    requires
        distinct_controllers(outputs),
        0 <= index < count <= outputs.len(),
    ensures
        says(
            with_entries(base, completion_entries(outputs, pointers, count)),
            (outputs[index].crtc, outputs[index].props.crtc_out_fence_ptr->0),
        ) == Some(pointers[index]),
    decreases count,
{
    let earlier = completion_entries(outputs, pointers, count - 1);
    assert(completion_entries(outputs, pointers, count).drop_last() =~= earlier);
    if index < count - 1 {
        lemma_completion_part(base, outputs, pointers, count - 1, index);
        assert(outputs[index].crtc != outputs[count - 1].crtc);
    }
}

/// Every controller reports completion at its own address.
pub proof fn completion_is_reported_apart(
    base: Map<(u32, u32), u64>,
    outputs: Seq<Output>,
    pointers: Seq<u64>,
    index: int,
)
    requires
        distinct_controllers(outputs),
        0 <= index < outputs.len(),
        outputs[index].props.crtc_out_fence_ptr is Some,
    ensures
        says(
            with_entries(base, completion_entries(outputs, pointers, outputs.len() as int)),
            (outputs[index].crtc, outputs[index].props.crtc_out_fence_ptr->0),
        ) == Some(pointers[index]),
{
    lemma_completion_part(base, outputs, pointers, outputs.len() as int, index);
}

/// The update that moves the sprite shows it on an output's cursor plane if and only if it
/// has a desktop pixel on that output, and then at the pointer less the hotspot, counted
/// from the output's corner.
pub proof fn moved_sprites_are_at_the_pointer(
    outputs: &[Output],
    cursor: Option<CursorState>,
    buffers: &[CursorBuffer],
    request: AtomicModeReq,
    index: int,
)
    requires
        call_ensures(cursor_request, (outputs, cursor, buffers), request),
        0 <= index < outputs@.len(),
        outputs@[index].wf(),
        outputs@[index].cursor is Some,
        cursor_properties(outputs@[index].cursor->0).no_duplicates(),
        outputs@[index].width > 0 && outputs@[index].height > 0,
        sprite_fits(cursor, buffers@),
        forall|j: int|
            0 <= j < outputs@.len() && j != index && (#[trigger] outputs@[j]).cursor is Some
                ==> outputs@[j].cursor->0.handle != outputs@[index].cursor->0.handle,
    ensures
        sprite_is_right(request_entries(request), outputs@[index], cursor, buffers@),
{
    sprite_updates_follow_the_pointer(outputs@, cursor, buffers@, index);
}

/// The update that shows a frame drives every output and shows it its own part of the
/// framebuffer, in the color of the pipeline, with the sprite at the pointer.
pub proof fn shown_frames_are_in_place(
    outputs: &[Output],
    mode: DisplayColorMode,
    hdr_blob: Option<u64>,
    cursor: Option<CursorState>,
    buffers: &[CursorBuffer],
    framebuffer: u32,
    acquire_fd: i32,
    damage_blobs: &[u64],
    request: AtomicModeReq,
    index: int,
)
    requires
        call_ensures(
            frame_request,
            (
                outputs,
                mode,
                hdr_blob,
                cursor,
                buffers,
                framebuffer,
                acquire_fd,
                damage_blobs,
            ),
            request,
        ),
        0 <= index < outputs@.len(),
        outputs@[index].wf(),
        distinct_objects(outputs@),
        distinct_properties(outputs@[index]),
        outputs@[index].width > 0 && outputs@[index].height > 0,
        sprite_fits(cursor, buffers@),
    ensures
        ({
            let values = request_entries(request);
            &&& output_is_driven(values, outputs@[index])
            &&& color_is_right(values, outputs@[index], mode, hdr_blob)
            &&& part_is_shown(
                values,
                outputs@[index],
                framebuffer,
                acquire_fd,
                damage_blobs@[index],
            )
            &&& outputs@[index].cursor is Some ==> sprite_is_right(
                values,
                outputs@[index],
                cursor,
                buffers@,
            )
        }),
{
    frame_updates_show_each_output_its_part(
        outputs@,
        mode,
        hdr_blob,
        cursor,
        buffers@,
        framebuffer,
        acquire_fd,
        damage_blobs@,
        index,
    );
}

/// The backend shows the framebuffer of a scanout, in its own pipeline, behind its fence,
/// with its own sprite.
pub proof fn scanouts_are_shown_on_every_output(
    backend: DrmBackend,
    scanout: Scanout,
    damage_blobs: &[u64],
    request: AtomicModeReq,
    index: int,
)
    requires
        call_ensures(DrmBackend::frame_update, (&backend, &scanout, damage_blobs), request),
        0 <= index < backend.displays.outputs@.len(),
        backend.displays.outputs@[index].wf(),
        distinct_objects(backend.displays.outputs@),
        distinct_properties(backend.displays.outputs@[index]),
        backend.displays.outputs@[index].width > 0 && backend.displays.outputs@[index].height > 0,
        sprite_fits(backend.cursor.state, backend.cursor.buffers.buffers@),
    ensures
        ({
            let values = request_entries(request);
            let output = backend.displays.outputs@[index];
            &&& output_is_driven(values, output)
            &&& color_is_right(
                values,
                output,
                backend.displays.color_mode,
                backend.hdr_metadata_blob,
            )
            &&& part_is_shown(
                values,
                output,
                scanout.framebuffer,
                if scanout.acquire_fence is Some {
                    scanout.acquire_fence->0
                } else {
                    -1i32
                },
                damage_blobs@[index],
            )
            &&& output.cursor is Some ==> sprite_is_right(
                values,
                output,
                backend.cursor.state,
                backend.cursor.buffers.buffers@,
            )
        }),
{
    frame_updates_show_each_output_its_part(
        backend.displays.outputs@,
        backend.displays.color_mode,
        backend.hdr_metadata_blob,
        backend.cursor.state,
        backend.cursor.buffers.buffers@,
        scanout.framebuffer,
        if scanout.acquire_fence is Some {
            scanout.acquire_fence->0
        } else {
            -1i32
        },
        damage_blobs@,
        index,
    );
}

/// The update that turns the outputs off turns off every output with all its planes.
pub proof fn disabled_outputs_are_off(
    outputs: &[Output],
    request: AtomicModeReq,
    index: int,
)
    requires
        call_ensures(disable_request, (outputs,), request),
        0 <= index < outputs@.len(),
    ensures
        output_is_off(request_entries(request), outputs@[index]),
{
    disabling_turns_every_output_off(outputs@, index);
}

/// The hint for an output is absent where its plane takes none or the damage leaves it
/// alone, and otherwise encloses exactly the damaged pixels of the output.
pub proof fn hints_enclose_the_damage(
    output: Output,
    rects: &[Rect],
    hint: DamageHint,
    x: int,
    y: int,
)
    requires
        output.wf(),
        call_ensures(damage_hint, (&output, Some(rects)), hint),
        forall|i: int| 0 <= i < rects@.len()
            ==> (#[trigger] rects@[i]).size.w >= 0 && rects@[i].size.h >= 0,
    ensures
        hint matches DamageHint::Clips { clips, fallback } ==> ((exists|c: int|
            #![trigger clips@[c]]
            0 <= c < clips@.len() && clips@[c]@[0] <= x < clips@[c]@[2] && clips@[c]@[1] <= y
                < clips@[c]@[3]) <==> on_output(output, x, y) && exists|i: int|
            0 <= i < rects@.len() && (#[trigger] rects@[i]).covers(x, y)),
        output.primary.props.fb_damage_clips is None ==> hint is Absent,
        hint is Absent && output.primary.props.fb_damage_clips is Some && on_output(output, x, y)
            ==> forall|i: int| 0 <= i < rects@.len() ==> !(#[trigger] rects@[i]).covers(x, y),
{
    let full = output_edges(output.x, output.y, output.width as u32, output.height as u32);
    let clips = damage_clips(rects@, full);
    assert(edges_cover(full, x, y) <==> on_output(output, x, y));
    if on_output(output, x, y) && exists|i: int|
        0 <= i < rects@.len() && (#[trigger] rects@[i]).covers(x, y) {
        clips_cover_all_damage(rects@, full, x, y);
        let c = choose|c: int| 0 <= c < clips.len() && #[trigger] edges_cover(clips[c], x, y);
        if hint is Clips {
            let listed = hint->clips;
            assert(clip_views(listed@)[c] == listed@[c]@);
            assert(listed@[c]@[0] <= x);
        }
    }
    if hint is Clips {
        let listed = hint->clips;
        assert(clip_views(listed@).len() == listed@.len());
        if exists|c: int|
            #![trigger listed@[c]]
            0 <= c < listed@.len() && listed@[c]@[0] <= x < listed@[c]@[2] && listed@[c]@[1] <= y
                < listed@[c]@[3] {
            let c = choose|c: int|
                #![trigger listed@[c]]
                0 <= c < listed@.len() && listed@[c]@[0] <= x < listed@[c]@[2]
                    && listed@[c]@[1] <= y
                    < listed@[c]@[3];
            assert(clip_views(listed@)[c] == listed@[c]@);
            clips_stay_within_damage(rects@, full, c, x, y);
        }
    }
}

/// The cursor plane of an output is on after its part of an update if and only if the sprite
/// has a desktop pixel on the output, and then the sprite is at the pointer less the
/// hotspot, counted from the output's corner, whatever the update said before.
pub(crate) proof fn cursor_planes_follow_the_pointer(
    request: &mut AtomicModeReq,
    output: Output,
    state: Option<CursorState>,
    buffers: &[CursorBuffer],
    done: Seq<Entry>,
)
    requires
        request_entries(*request) == settings(done),
        call_ensures(
            add_cursor_plane_to_commit,
            (request, &output, state, buffers, Ghost(done)),
            (),
        ),
        output.wf(),
        output.cursor is Some,
        cursor_properties(output.cursor->0).no_duplicates(),
        output.width > 0 && output.height > 0,
        sprite_fits(state, buffers@),
    ensures
        sprite_is_right(request_entries(*final(request)), output, state, buffers@),
{
    let more = cursor_entries(output, state, buffers@);
    settings_add_up(Map::empty(), done, more);
    lemma_sprite_settings(settings(done), output, state, buffers@);
}

/// The backend moves the sprite that it holds, on the outputs that it drives.
pub proof fn held_sprites_are_at_the_pointer(
    backend: DrmBackend,
    request: AtomicModeReq,
    index: int,
)
    requires
        backend.wf(),
        call_ensures(DrmBackend::cursor_update, (&backend,), request),
        0 <= index < backend.displays.outputs@.len(),
        backend.displays.outputs@[index].cursor is Some,
        cursor_properties(backend.displays.outputs@[index].cursor->0).no_duplicates(),
        backend.displays.outputs@[index].width > 0 && backend.displays.outputs@[index].height > 0,
        sprite_fits(backend.cursor.state, backend.cursor.buffers.buffers@),
        forall|j: int|
            0 <= j < backend.displays.outputs@.len() && j != index && (
            #[trigger] backend.displays.outputs@[j]).cursor is Some
                ==> backend.displays.outputs@[j].cursor->0.handle
                != backend.displays.outputs@[index].cursor->0.handle,
    ensures
        sprite_is_right(
            request_entries(request),
            backend.displays.outputs@[index],
            backend.cursor.state,
            backend.cursor.buffers.buffers@,
        ),
{
    let outputs = backend.displays.outputs@;
    assert(outputs[index].wf());
    sprite_updates_follow_the_pointer(
        outputs,
        backend.cursor.state,
        backend.cursor.buffers.buffers@,
        index,
    );
}

/// The backend turns off every output that it drives.
pub proof fn driven_outputs_are_turned_off(
    backend: DrmBackend,
    request: AtomicModeReq,
    index: int,
)
    requires
        call_ensures(DrmBackend::disable_update, (&backend,), request),
        0 <= index < backend.displays.outputs@.len(),
    ensures
        output_is_off(request_entries(request), backend.displays.outputs@[index]),
{
    disabling_turns_every_output_off(backend.displays.outputs@, index);
}

/// A gamma update gives an output's controller the table that was made for that output.
pub proof fn tables_are_loaded_where_they_belong(
    outputs: &[Output],
    tables: &[Option<u64>],
    request: Option<AtomicModeReq>,
    index: int,
)
    requires
        distinct_controllers(outputs@),
        call_ensures(gamma_request, (outputs, tables), request),
        0 <= index < outputs@.len(),
        outputs@[index].props.crtc_gamma_lut is Some,
        tables@[index] is Some,
    ensures
        request is Some,
        says(
            request_entries(request->0),
            (outputs@[index].crtc, (outputs@[index].props.crtc_gamma_lut->0).0),
        ) == tables@[index],
{
    let property = (outputs@[index].props.crtc_gamma_lut->0).0;
    gamma_tables_go_to_their_own_output(outputs@, tables@, index, property);
    let all = gamma_entries(outputs@, tables@, outputs@.len() as int);
    if all.len() == 0 {
        assert(settings(all) =~= Map::empty());
    }
}

/// Asking for completion makes every controller report at its own address.
pub proof fn completion_is_asked_for_apart(
    request: &mut AtomicModeReq,
    outputs: &[Output],
    pointers: &[u64],
    index: int,
)
    requires
        distinct_controllers(outputs@),
        call_ensures(request_completion, (request, outputs, pointers), ()),
        0 <= index < outputs@.len(),
        outputs@[index].props.crtc_out_fence_ptr is Some,
    ensures
        says(
            request_entries(*final(request)),
            (outputs@[index].crtc, outputs@[index].props.crtc_out_fence_ptr->0),
        ) == Some(pointers@[index]),
{
    completion_is_reported_apart(request_entries(*request), outputs@, pointers@, index);
}

} // verus!
