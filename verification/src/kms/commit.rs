//! The contents of display updates.

use vstd::prelude::*;
use drm::control::atomic::AtomicModeReq;
use crate::geometry::Rect;
use crate::kms::color::DisplayColorMode;
use crate::kms::cursor::{
    cursor_plane_rect, sprite_overlaps, CursorBuffer, CursorPlaneRect, CursorState,
};
use crate::kms::damage::{
    clip_views, damage_clip_for_output, known_damage, output_clips, output_edges,
};
use crate::kms::output::{
    all_report_completion, outputs_wf, CursorPlane, Output, OutputAtomicProperties, PrimaryPlane,
};
use crate::kms::request::{
    fixed_point, new_request, put, put_over, request_entries, settings, signed, signed_value,
    with_entries, Entry,
};

verus! {

/// The sprite's framebuffer and placement on an output, if it shows there.
pub open spec fn cursor_placement(
    output: Output,
    state: Option<CursorState>,
    buffers: Seq<CursorBuffer>,
) -> Option<(u32, CursorPlaneRect)> {
    match state {
        Some(state) => if state.buffer < buffers.len() && sprite_overlaps(
            state.position,
            state.hotspot,
            buffers[state.buffer as int].extent,
            (output.x, output.y),
            (output.width as u32, output.height as u32),
        ) {
            let buffer = buffers[state.buffer as int];
            Some(
                (
                    buffer.framebuffer,
                    CursorPlaneRect {
                        src: (0, 0, buffer.extent.0, buffer.extent.1),
                        dst: (
                            (state.position.0 - state.hotspot.0 - output.x) as i32,
                            (state.position.1 - state.hotspot.1 - output.y) as i32,
                            buffer.extent.0,
                            buffer.extent.1,
                        ),
                    },
                ),
            )
        } else {
            None
        },
        None => None,
    }
}

/// What an update says of a cursor plane: where it shows which framebuffer, or
/// that it is off.
pub open spec fn cursor_plane_entries(
    cursor: CursorPlane,
    crtc: u32,
    placement: Option<(u32, CursorPlaneRect)>,
) -> Seq<Entry> {
    let plane = cursor.handle;
    let props = cursor.props;
    match placement {
        None => seq![((plane, props.plane_fb_id), 0u64), ((plane, props.plane_crtc_id), 0u64)],
        Some((framebuffer, rect)) => seq![
            ((plane, props.plane_fb_id), framebuffer as u64),
            ((plane, props.plane_crtc_id), crtc as u64),
            ((plane, props.plane_src_x), (rect.src.0 * 0x1_0000) as u64),
            ((plane, props.plane_src_y), (rect.src.1 * 0x1_0000) as u64),
            ((plane, props.plane_src_w), (rect.src.2 * 0x1_0000) as u64),
            ((plane, props.plane_src_h), (rect.src.3 * 0x1_0000) as u64),
            ((plane, props.plane_crtc_x), signed_value(rect.dst.0 as i64)),
            ((plane, props.plane_crtc_y), signed_value(rect.dst.1 as i64)),
            ((plane, props.plane_crtc_w), rect.dst.2 as u64),
            ((plane, props.plane_crtc_h), rect.dst.3 as u64),
        ],
    }
}

/// What an update says of an output's cursor plane, if it has one.
pub open spec fn cursor_entries(
    output: Output,
    state: Option<CursorState>,
    buffers: Seq<CursorBuffer>,
) -> Seq<Entry> {
    match output.cursor {
        None => Seq::empty(),
        Some(cursor) => cursor_plane_entries(
            cursor,
            output.crtc,
            cursor_placement(output, state, buffers),
        ),
    }
}

/// Add an output's cursor plane to an update.
pub(crate) fn add_cursor_plane_to_commit(
    request: &mut AtomicModeReq,
    output: &Output,
    state: Option<CursorState>,
    buffers: &[CursorBuffer],
    Ghost(done): Ghost<Seq<Entry>>,
)
    requires
        output.wf(),
        request_entries(*old(request)) == settings(done),
    ensures
        request_entries(*final(request)) == settings(
            done + cursor_entries(*output, state, buffers@),
        ),
{
    let cursor: CursorPlane = match output.cursor {
        None => {
            assert(done + cursor_entries(*output, state, buffers@) =~= done);
            return;
        },
        Some(cursor) => cursor,
    };
    let placement: Option<(u32, CursorPlaneRect)> = match state {
        None => None,
        Some(state) => if state.buffer < buffers.len() {
            let buffer = &buffers[state.buffer];
            match cursor_plane_rect(
                state.position,
                state.hotspot,
                buffer.extent,
                (output.x, output.y),
                (output.width as u32, output.height as u32),
            ) {
                None => None,
                Some(rect) => Some((buffer.framebuffer, rect)),
            }
        } else {
            None
        },
    };
    let ghost mut d: Seq<Entry> = done;
    let plane: u32 = cursor.handle;
    let (framebuffer, rect): (u32, CursorPlaneRect) = match placement {
        None => {
            put(request, plane, cursor.props.plane_fb_id, 0, Ghost(d));
            proof {
                d = d.push(((plane, cursor.props.plane_fb_id), 0u64));
            }
            put(request, plane, cursor.props.plane_crtc_id, 0, Ghost(d));
            proof {
                d = d.push(((plane, cursor.props.plane_crtc_id), 0u64));
                assert(d =~= done + cursor_entries(*output, state, buffers@));
            }
            return;
        },
        Some(placed) => placed,
    };
    let props = cursor.props;
    put(request, plane, props.plane_fb_id, framebuffer as u64, Ghost(d));
    proof {
        d = d.push(((plane, props.plane_fb_id), framebuffer as u64));
    }
    put(request, plane, props.plane_crtc_id, output.crtc as u64, Ghost(d));
    proof {
        d = d.push(((plane, props.plane_crtc_id), output.crtc as u64));
    }
    put(request, plane, props.plane_src_x, fixed_point(rect.src.0), Ghost(d));
    proof {
        d = d.push(((plane, props.plane_src_x), (rect.src.0 * 0x1_0000) as u64));
    }
    put(request, plane, props.plane_src_y, fixed_point(rect.src.1), Ghost(d));
    proof {
        d = d.push(((plane, props.plane_src_y), (rect.src.1 * 0x1_0000) as u64));
    }
    put(request, plane, props.plane_src_w, fixed_point(rect.src.2), Ghost(d));
    proof {
        d = d.push(((plane, props.plane_src_w), (rect.src.2 * 0x1_0000) as u64));
    }
    put(request, plane, props.plane_src_h, fixed_point(rect.src.3), Ghost(d));
    proof {
        d = d.push(((plane, props.plane_src_h), (rect.src.3 * 0x1_0000) as u64));
    }
    put(request, plane, props.plane_crtc_x, signed(rect.dst.0 as i64), Ghost(d));
    proof {
        d = d.push(((plane, props.plane_crtc_x), signed_value(rect.dst.0 as i64)));
    }
    put(request, plane, props.plane_crtc_y, signed(rect.dst.1 as i64), Ghost(d));
    proof {
        d = d.push(((plane, props.plane_crtc_y), signed_value(rect.dst.1 as i64)));
    }
    put(request, plane, props.plane_crtc_w, rect.dst.2 as u64, Ghost(d));
    proof {
        d = d.push(((plane, props.plane_crtc_w), rect.dst.2 as u64));
    }
    put(request, plane, props.plane_crtc_h, rect.dst.3 as u64, Ghost(d));
    proof {
        d = d.push(((plane, props.plane_crtc_h), rect.dst.3 as u64));
        assert(d =~= done + cursor_entries(*output, state, buffers@));
    }
}

/// A setting of an optional property.
pub open spec fn optional_entry(object: u32, property: Option<u32>, value: u64) -> Seq<Entry> {
    match property {
        Some(property) => seq![((object, property), value)],
        None => Seq::empty(),
    }
}

/// What an update says of an output's color: the colorspace, the description of
/// the encoding, and the depth. The display remembers all three, so every
/// update states them anew.
pub open spec fn color_entries(
    connector: u32,
    props: OutputAtomicProperties,
    mode: DisplayColorMode,
    hdr_blob: Option<u64>,
) -> Seq<Entry> {
    let colorspace = match props.connector_colorspace {
        Some((property, default_value, bt2020_value)) => seq![
            (
                (connector, property),
                if mode == DisplayColorMode::Hdr {
                    bt2020_value
                } else {
                    default_value
                },
            ),
        ],
        None => Seq::empty(),
    };
    let metadata = if mode == DisplayColorMode::Hdr && hdr_blob is Some {
        hdr_blob->0
    } else {
        0
    };
    colorspace + optional_entry(connector, props.connector_hdr_metadata, metadata)
        + optional_entry(connector, props.connector_max_bpc, mode.link_depth())
}

/// Add an output's color to an update.
fn add_color(
    request: &mut AtomicModeReq,
    connector: u32,
    props: OutputAtomicProperties,
    mode: DisplayColorMode,
    hdr_blob: Option<u64>,
    Ghost(done): Ghost<Seq<Entry>>,
)
    requires
        connector != 0,
        props.wf(),
        request_entries(*old(request)) == settings(done),
    ensures
        request_entries(*final(request)) == settings(
            done + color_entries(connector, props, mode, hdr_blob),
        ),
{
    let ghost mut d: Seq<Entry> = done;
    if let Some((property, default_value, bt2020_value)) = props.connector_colorspace {
        let value: u64 = match mode {
            DisplayColorMode::Hdr => bt2020_value,
            DisplayColorMode::Sdr | DisplayColorMode::SdrDeepColor => default_value,
        };
        put(request, connector, property, value, Ghost(d));
        proof {
            d = d.push(((connector, property), value));
        }
    }
    if let Some(property) = props.connector_hdr_metadata {
        let value: u64 = match mode {
            DisplayColorMode::Hdr => match hdr_blob {
                Some(blob) => blob,
                None => 0,
            },
            DisplayColorMode::Sdr | DisplayColorMode::SdrDeepColor => 0,
        };
        put(request, connector, property, value, Ghost(d));
        proof {
            d = d.push(((connector, property), value));
        }
    }
    if let Some(property) = props.connector_max_bpc {
        let bits: u64 = mode.max_bpc();
        put(request, connector, property, bits, Ghost(d));
        proof {
            d = d.push(((connector, property), bits));
        }
    }
    assert(d =~= done + color_entries(connector, props, mode, hdr_blob));
}

/// What an update says of an output's primary plane: which framebuffer it
/// shows, which part of it, what to wait for, and what changed.
pub open spec fn primary_entries(
    output: Output,
    framebuffer: u32,
    acquire_fd: i32,
    damage_blob: u64,
) -> Seq<Entry> {
    let plane = output.primary.handle;
    let props = output.primary.props;
    seq![
        ((plane, props.fb_id), framebuffer as u64),
        ((plane, props.crtc_id), output.crtc as u64),
        ((plane, props.src_x), (output.x * 0x1_0000) as u64),
        ((plane, props.src_y), (output.y * 0x1_0000) as u64),
        ((plane, props.src_w), (output.width * 0x1_0000) as u64),
        ((plane, props.src_h), (output.height * 0x1_0000) as u64),
        ((plane, props.crtc_x), 0u64),
        ((plane, props.crtc_y), 0u64),
        ((plane, props.crtc_w), output.width as u64),
        ((plane, props.crtc_h), output.height as u64),
    ] + optional_entry(plane, props.in_fence_fd, signed_value(acquire_fd as i64)) + optional_entry(
        plane,
        props.fb_damage_clips,
        damage_blob,
    )
}

/// Add an output's primary plane to an update.
fn add_primary_plane(
    request: &mut AtomicModeReq,
    output: &Output,
    framebuffer: u32,
    acquire_fd: i32,
    damage_blob: u64,
    Ghost(done): Ghost<Seq<Entry>>,
)
    requires
        output.wf(),
        request_entries(*old(request)) == settings(done),
    ensures
        request_entries(*final(request)) == settings(
            done + primary_entries(*output, framebuffer, acquire_fd, damage_blob),
        ),
{
    let ghost mut d: Seq<Entry> = done;
    let plane: u32 = output.primary.handle;
    let props = output.primary.props;
    put(request, plane, props.fb_id, framebuffer as u64, Ghost(d));
    proof {
        d = d.push(((plane, props.fb_id), framebuffer as u64));
    }
    put(request, plane, props.crtc_id, output.crtc as u64, Ghost(d));
    proof {
        d = d.push(((plane, props.crtc_id), output.crtc as u64));
    }
    put(request, plane, props.src_x, fixed_point(output.x), Ghost(d));
    proof {
        d = d.push(((plane, props.src_x), (output.x * 0x1_0000) as u64));
    }
    put(request, plane, props.src_y, fixed_point(output.y), Ghost(d));
    proof {
        d = d.push(((plane, props.src_y), (output.y * 0x1_0000) as u64));
    }
    put(request, plane, props.src_w, fixed_point(output.width as u32), Ghost(d));
    proof {
        d = d.push(((plane, props.src_w), (output.width * 0x1_0000) as u64));
    }
    put(request, plane, props.src_h, fixed_point(output.height as u32), Ghost(d));
    proof {
        d = d.push(((plane, props.src_h), (output.height * 0x1_0000) as u64));
    }
    put(request, plane, props.crtc_x, 0, Ghost(d));
    proof {
        d = d.push(((plane, props.crtc_x), 0u64));
    }
    put(request, plane, props.crtc_y, 0, Ghost(d));
    proof {
        d = d.push(((plane, props.crtc_y), 0u64));
    }
    put(request, plane, props.crtc_w, output.width as u64, Ghost(d));
    proof {
        d = d.push(((plane, props.crtc_w), output.width as u64));
    }
    put(request, plane, props.crtc_h, output.height as u64, Ghost(d));
    proof {
        d = d.push(((plane, props.crtc_h), output.height as u64));
    }
    if let Some(property) = props.in_fence_fd {
        put(request, plane, property, signed(acquire_fd as i64), Ghost(d));
        proof {
            d = d.push(((plane, property), signed_value(acquire_fd as i64)));
        }
    }
    if let Some(property) = props.fb_damage_clips {
        put(request, plane, property, damage_blob, Ghost(d));
        proof {
            d = d.push(((plane, property), damage_blob));
        }
    }
    assert(d =~= done + primary_entries(*output, framebuffer, acquire_fd, damage_blob));
}

/// The damage hint that an update carries for an output.
#[derive(Debug)]
pub enum DamageHint {
    /// No hint: the plane takes none, or the output is untouched.
    Absent,
    /// The ready-made hint for the whole output.
    Whole(u64),
    /// A hint made of the given clips. If it cannot be made, `fallback` stands
    /// in for it.
    Clips { clips: Vec<[i32; 4]>, fallback: u64 },
}

/// The hint for an output.
pub open spec fn hint_for(output: Output, damage: Option<Seq<Rect>>, hint: DamageHint) -> bool {
    let full = output_edges(output.x, output.y, output.width as u32, output.height as u32);
    let clips = output_clips(damage, full);
    let whole = output.primary.full_damage_blob;
    if output.primary.props.fb_damage_clips is None || clips.len() == 0 {
        hint == DamageHint::Absent
    } else if clips == seq![full] && whole is Some {
        hint == DamageHint::Whole(whole->0)
    } else {
        hint matches DamageHint::Clips { clips: listed, fallback } && clip_views(listed@) == clips
            && fallback == if whole is Some {
            whole->0
        } else {
            0
        }
    }
}

/// Choose the damage hint for an output.
///
/// Separate regions stay separate. An untouched output gets no hint, which
/// displays read as full damage; that is always safe.
pub fn damage_hint(output: &Output, damage: Option<&[Rect]>) -> (hint: DamageHint)
    requires
        output.wf(),
    ensures
        hint_for(*output, known_damage(damage), hint),
{
    if output.primary.props.fb_damage_clips.is_none() {
        return DamageHint::Absent;
    }
    let width: u32 = output.width as u32;
    let height: u32 = output.height as u32;
    let clips = damage_clip_for_output(damage, output.x, output.y, width, height);
    let ghost full = output_edges(output.x, output.y, width, height);
    let ghost views = clip_views(clips@);
    assert(views.len() == clips.len());
    if clips.len() == 0 {
        return DamageHint::Absent;
    }
    let left: i32 = output.x as i32;
    let top: i32 = output.y as i32;
    let right: i32 = (output.x + width) as i32;
    let bottom: i32 = (output.y + height) as i32;
    let covers_output = clips.len() == 1 && clips[0][0] == left && clips[0][1] == top
        && clips[0][2] == right && clips[0][3] == bottom;
    assert(covers_output <==> views == seq![full]) by {
        assert(views[0] == clips@[0]@);
        if covers_output {
            assert(clips@[0]@ =~= full);
            assert(views =~= seq![full]);
        }
        if views == seq![full] {
            assert(views.len() == 1);
            assert(views[0] == full);
            assert(clips@[0]@[0] == full[0] && clips@[0]@[1] == full[1] && clips@[0]@[2] == full[2]
                && clips@[0]@[3] == full[3]);
        }
    }
    match output.primary.full_damage_blob {
        Some(whole) => if covers_output {
            DamageHint::Whole(whole)
        } else {
            DamageHint::Clips { clips, fallback: whole }
        },
        None => DamageHint::Clips { clips, fallback: 0 },
    }
}

impl DamageHint {
    /// The blob that a hint stands for, given the one made of its clips.
    pub open spec fn blob(self, made: Option<u64>) -> u64 {
        match self {
            DamageHint::Absent => 0,
            DamageHint::Whole(whole) => whole,
            DamageHint::Clips { clips, fallback } => match made {
                Some(blob) => blob,
                None => fallback,
            },
        }
    }

    /// The blob that a hint stands for, given the one made of its clips.
    pub fn resolve(&self, made: Option<u64>) -> (blob: u64)
        ensures
            blob == self.blob(made),
    {
        match self {
            DamageHint::Absent => 0,
            DamageHint::Whole(whole) => *whole,
            DamageHint::Clips { clips: _, fallback } => match made {
                Some(blob) => blob,
                None => *fallback,
            },
        }
    }
}

/// What a frame update says of one output.
pub open spec fn output_entries(
    output: Output,
    mode: DisplayColorMode,
    hdr_blob: Option<u64>,
    cursor: Option<CursorState>,
    buffers: Seq<CursorBuffer>,
    framebuffer: u32,
    acquire_fd: i32,
    damage_blob: u64,
) -> Seq<Entry> {
    cursor_entries(output, cursor, buffers) + seq![
        ((output.connector, output.props.connector_crtc_id), output.crtc as u64),
        ((output.crtc, output.props.crtc_mode_id), output.mode_blob),
        ((output.crtc, output.props.crtc_active), 1u64),
    ] + color_entries(output.connector, output.props, mode, hdr_blob) + primary_entries(
        output,
        framebuffer,
        acquire_fd,
        damage_blob,
    )
}

/// What a frame update says of the first `count` outputs.
pub open spec fn frame_entries(
    outputs: Seq<Output>,
    count: int,
    mode: DisplayColorMode,
    hdr_blob: Option<u64>,
    cursor: Option<CursorState>,
    buffers: Seq<CursorBuffer>,
    framebuffer: u32,
    acquire_fd: i32,
    damage_blobs: Seq<u64>,
) -> Seq<Entry>
    decreases count,
{
    if count <= 0 {
        Seq::empty()
    } else {
        frame_entries(
            outputs,
            count - 1,
            mode,
            hdr_blob,
            cursor,
            buffers,
            framebuffer,
            acquire_fd,
            damage_blobs,
        ) + output_entries(
            outputs[count - 1],
            mode,
            hdr_blob,
            cursor,
            buffers,
            framebuffer,
            acquire_fd,
            damage_blobs[count - 1],
        )
    }
}

proof fn lemma_appended(
    before: Seq<Entry>,
    head: Seq<Entry>,
    a: Entry,
    b: Entry,
    c: Entry,
    middle: Seq<Entry>,
    tail: Seq<Entry>,
)
    ensures
        (before + head).push(a).push(b).push(c) + middle + tail == before + (head + seq![a, b, c]
            + middle + tail),
{
    assert((before + head).push(a).push(b).push(c) + middle + tail =~= before + (head + seq![
        a,
        b,
        c,
    ] + middle + tail));
}

/// Build the update that shows a framebuffer on every output at once, each
/// output showing its own part.
pub fn frame_request(
    outputs: &[Output],
    mode: DisplayColorMode,
    hdr_blob: Option<u64>,
    cursor: Option<CursorState>,
    buffers: &[CursorBuffer],
    framebuffer: u32,
    acquire_fd: i32,
    damage_blobs: &[u64],
) -> (request: AtomicModeReq)
    requires
        outputs_wf(outputs@),
        damage_blobs.len() == outputs.len(),
    ensures
        request_entries(request) == settings(
            frame_entries(
                outputs@,
                outputs.len() as int,
                mode,
                hdr_blob,
                cursor,
                buffers@,
                framebuffer,
                acquire_fd,
                damage_blobs@,
            ),
        ),
{
    let mut request = new_request();
    let mut index: usize = 0;
    while index < outputs.len()
        invariant
            index <= outputs.len(),
            outputs_wf(outputs@),
            damage_blobs.len() == outputs.len(),
            request_entries(request) == settings(
                frame_entries(
                    outputs@,
                    index as int,
                    mode,
                    hdr_blob,
                    cursor,
                    buffers@,
                    framebuffer,
                    acquire_fd,
                    damage_blobs@,
                ),
            ),
        decreases outputs.len() - index,
    {
        let output = &outputs[index];
        let ghost before = frame_entries(
            outputs@,
            index as int,
            mode,
            hdr_blob,
            cursor,
            buffers@,
            framebuffer,
            acquire_fd,
            damage_blobs@,
        );
        let ghost mut d: Seq<Entry> = before;
        add_cursor_plane_to_commit(&mut request, output, cursor, buffers, Ghost(d));
        proof {
            d = d + cursor_entries(*output, cursor, buffers@);
        }
        put(
            &mut request,
            output.connector,
            output.props.connector_crtc_id,
            output.crtc as u64,
            Ghost(d),
        );
        proof {
            d = d.push(((output.connector, output.props.connector_crtc_id), output.crtc as u64));
        }
        put(&mut request, output.crtc, output.props.crtc_mode_id, output.mode_blob, Ghost(d));
        proof {
            d = d.push(((output.crtc, output.props.crtc_mode_id), output.mode_blob));
        }
        put(&mut request, output.crtc, output.props.crtc_active, 1, Ghost(d));
        proof {
            d = d.push(((output.crtc, output.props.crtc_active), 1u64));
        }
        add_color(&mut request, output.connector, output.props, mode, hdr_blob, Ghost(d));
        proof {
            d = d + color_entries(output.connector, output.props, mode, hdr_blob);
        }
        add_primary_plane(
            &mut request,
            output,
            framebuffer,
            acquire_fd,
            damage_blobs[index],
            Ghost(d),
        );
        proof {
            d = d + primary_entries(
                *output,
                framebuffer,
                acquire_fd,
                damage_blobs@[index as int],
            );
            lemma_appended(
                before,
                cursor_entries(*output, cursor, buffers@),
                ((output.connector, output.props.connector_crtc_id), output.crtc as u64),
                ((output.crtc, output.props.crtc_mode_id), output.mode_blob),
                ((output.crtc, output.props.crtc_active), 1u64),
                color_entries(output.connector, output.props, mode, hdr_blob),
                primary_entries(*output, framebuffer, acquire_fd, damage_blobs@[index as int]),
            );
        }
        index += 1;
    }
    request
}

/// Where each of the first `count` controllers is told to report completion.
pub open spec fn completion_entries(
    outputs: Seq<Output>,
    pointers: Seq<u64>,
    count: int,
) -> Seq<Entry>
    decreases count,
{
    if count <= 0 {
        Seq::empty()
    } else {
        completion_entries(outputs, pointers, count - 1).push(
            (
                (outputs[count - 1].crtc, outputs[count - 1].props.crtc_out_fence_ptr->0),
                pointers[count - 1],
            ),
        )
    }
}

/// Ask every controller to report completion of an update, each at its own
/// address. This is added once the update has been tested, because a test must
/// not allocate fences.
pub fn request_completion(request: &mut AtomicModeReq, outputs: &[Output], pointers: &[u64])
    requires
        outputs_wf(outputs@),
        all_report_completion(outputs@),
        pointers.len() == outputs.len(),
    ensures
        request_entries(*final(request)) == with_entries(
            request_entries(*old(request)),
            completion_entries(outputs@, pointers@, outputs.len() as int),
        ),
{
    let ghost base = request_entries(*request);
    let mut index: usize = 0;
    while index < outputs.len()
        invariant
            index <= outputs.len(),
            outputs_wf(outputs@),
            all_report_completion(outputs@),
            pointers.len() == outputs.len(),
            request_entries(*request) == with_entries(
                base,
                completion_entries(outputs@, pointers@, index as int),
            ),
        decreases outputs.len() - index,
    {
        let output = &outputs[index];
        assert(outputs@[index as int].props.crtc_out_fence_ptr is Some);
        assert(output.wf());
        if let Some(property) = output.props.crtc_out_fence_ptr {
            put_over(
                request,
                output.crtc,
                property,
                pointers[index],
                Ghost(base),
                Ghost(completion_entries(outputs@, pointers@, index as int)),
            );
        }
        index += 1;
    }
}

/// What an update of the sprites alone says of the first `count` outputs.
pub open spec fn sprite_entries(
    outputs: Seq<Output>,
    count: int,
    cursor: Option<CursorState>,
    buffers: Seq<CursorBuffer>,
) -> Seq<Entry>
    decreases count,
{
    if count <= 0 {
        Seq::empty()
    } else {
        sprite_entries(outputs, count - 1, cursor, buffers) + cursor_entries(
            outputs[count - 1],
            cursor,
            buffers,
        )
    }
}

/// Build the update that moves the sprite and touches no primary plane.
pub fn cursor_request(
    outputs: &[Output],
    cursor: Option<CursorState>,
    buffers: &[CursorBuffer],
) -> (request: AtomicModeReq)
    requires
        outputs_wf(outputs@),
    ensures
        request_entries(request) == settings(
            sprite_entries(outputs@, outputs.len() as int, cursor, buffers@),
        ),
{
    let mut request = new_request();
    let mut index: usize = 0;
    while index < outputs.len()
        invariant
            index <= outputs.len(),
            outputs_wf(outputs@),
            request_entries(request) == settings(
                sprite_entries(outputs@, index as int, cursor, buffers@),
            ),
        decreases outputs.len() - index,
    {
        let output = &outputs[index];
        add_cursor_plane_to_commit(
            &mut request,
            output,
            cursor,
            buffers,
            Ghost(sprite_entries(outputs@, index as int, cursor, buffers@)),
        );
        index += 1;
    }
    request
}

/// What turning an output off says of it.
pub open spec fn off_entries(output: Output) -> Seq<Entry> {
    let cursor = match output.cursor {
        None => Seq::empty(),
        Some(cursor) => seq![
            ((cursor.handle, cursor.props.plane_fb_id), 0u64),
            ((cursor.handle, cursor.props.plane_crtc_id), 0u64),
        ],
    };
    cursor + seq![
        ((output.primary.handle, output.primary.props.fb_id), 0u64),
        ((output.primary.handle, output.primary.props.crtc_id), 0u64),
        ((output.connector, output.props.connector_crtc_id), 0u64),
        ((output.crtc, output.props.crtc_active), 0u64),
    ]
}

/// What turning the first `count` outputs off says of them.
pub open spec fn all_off_entries(outputs: Seq<Output>, count: int) -> Seq<Entry>
    decreases count,
{
    if count <= 0 {
        Seq::empty()
    } else {
        all_off_entries(outputs, count - 1) + off_entries(outputs[count - 1])
    }
}

/// Build the update that turns every output off.
pub fn disable_request(outputs: &[Output]) -> (request: AtomicModeReq)
    requires
        outputs_wf(outputs@),
    ensures
        request_entries(request) == settings(all_off_entries(outputs@, outputs.len() as int)),
{
    let mut request = new_request();
    let mut index: usize = 0;
    while index < outputs.len()
        invariant
            index <= outputs.len(),
            outputs_wf(outputs@),
            request_entries(request) == settings(all_off_entries(outputs@, index as int)),
        decreases outputs.len() - index,
    {
        let output = &outputs[index];
        let ghost before = all_off_entries(outputs@, index as int);
        let ghost mut d: Seq<Entry> = before;
        if let Some(cursor) = output.cursor {
            put(&mut request, cursor.handle, cursor.props.plane_fb_id, 0, Ghost(d));
            proof {
                d = d.push(((cursor.handle, cursor.props.plane_fb_id), 0u64));
            }
            put(&mut request, cursor.handle, cursor.props.plane_crtc_id, 0, Ghost(d));
            proof {
                d = d.push(((cursor.handle, cursor.props.plane_crtc_id), 0u64));
            }
        }
        let primary: &PrimaryPlane = &output.primary;
        put(&mut request, primary.handle, primary.props.fb_id, 0, Ghost(d));
        proof {
            d = d.push(((primary.handle, primary.props.fb_id), 0u64));
        }
        put(&mut request, primary.handle, primary.props.crtc_id, 0, Ghost(d));
        proof {
            d = d.push(((primary.handle, primary.props.crtc_id), 0u64));
        }
        put(&mut request, output.connector, output.props.connector_crtc_id, 0, Ghost(d));
        proof {
            d = d.push(((output.connector, output.props.connector_crtc_id), 0u64));
        }
        put(&mut request, output.crtc, output.props.crtc_active, 0, Ghost(d));
        proof {
            d = d.push(((output.crtc, output.props.crtc_active), 0u64));
            assert(d =~= before + off_entries(*output));
        }
        index += 1;
    }
    request
}

/// What a gamma update says of the first `count` outputs: each controller with
/// a gamma table takes the table made for it, if one could be made.
pub open spec fn gamma_entries(
    outputs: Seq<Output>,
    tables: Seq<Option<u64>>,
    count: int,
) -> Seq<Entry>
    decreases count,
{
    if count <= 0 {
        Seq::empty()
    } else {
        let earlier = gamma_entries(outputs, tables, count - 1);
        let output = outputs[count - 1];
        match (output.props.crtc_gamma_lut, tables[count - 1]) {
            (Some((property, _)), Some(table)) => earlier.push(((output.crtc, property), table)),
            _ => earlier,
        }
    }
}

/// Build the update that loads gamma tables. A table numbered zero restores the
/// default. `None` means that there is nothing to load.
pub fn gamma_request(outputs: &[Output], tables: &[Option<u64>]) -> (request: Option<AtomicModeReq>)
    requires
        outputs_wf(outputs@),
        tables.len() == outputs.len(),
    ensures
        match request {
            Some(request) => gamma_entries(outputs@, tables@, outputs.len() as int).len() > 0
                && request_entries(request) == settings(
                gamma_entries(outputs@, tables@, outputs.len() as int),
            ),
            None => gamma_entries(outputs@, tables@, outputs.len() as int).len() == 0,
        },
{
    let mut request = new_request();
    let mut touched = false;
    let mut index: usize = 0;
    while index < outputs.len()
        invariant
            index <= outputs.len(),
            outputs_wf(outputs@),
            tables.len() == outputs.len(),
            request_entries(request) == settings(gamma_entries(outputs@, tables@, index as int)),
            touched == (gamma_entries(outputs@, tables@, index as int).len() > 0),
        decreases outputs.len() - index,
    {
        let output = &outputs[index];
        assert(output.wf());
        if let (Some((property, _size)), Some(table)) = (
            output.props.crtc_gamma_lut,
            tables[index],
        ) {
            put(
                &mut request,
                output.crtc,
                property,
                table,
                Ghost(gamma_entries(outputs@, tables@, index as int)),
            );
            touched = true;
        }
        index += 1;
    }
    if touched {
        Some(request)
    } else {
        None
    }
}

/// An update for a standard pipeline resets what a high-dynamic-range one left
/// behind: the default colorspace, no description of the encoding.
pub proof fn standard_updates_reset_color(
    output: Output,
    mode: DisplayColorMode,
    hdr_blob: Option<u64>,
    cursor: Option<CursorState>,
    buffers: Seq<CursorBuffer>,
    framebuffer: u32,
    acquire_fd: i32,
    damage_blob: u64,
)
    requires
        mode != DisplayColorMode::Hdr,
    ensures
        output.props.connector_colorspace matches Some((property, default_value, _))
            ==> output_entries(
            output,
            mode,
            hdr_blob,
            cursor,
            buffers,
            framebuffer,
            acquire_fd,
            damage_blob,
        ).contains(((output.connector, property), default_value)),
        output.props.connector_hdr_metadata matches Some(property) ==> output_entries(
            output,
            mode,
            hdr_blob,
            cursor,
            buffers,
            framebuffer,
            acquire_fd,
            damage_blob,
        ).contains(((output.connector, property), 0u64)),
{
    let all = output_entries(
        output,
        mode,
        hdr_blob,
        cursor,
        buffers,
        framebuffer,
        acquire_fd,
        damage_blob,
    );
    let start = cursor_entries(output, cursor, buffers).len() + 3;
    if output.props.connector_colorspace is Some {
        let found = all[start as int];
        if output.props.connector_hdr_metadata is Some {
            let next = all[start as int + 1];
        }
    } else if output.props.connector_hdr_metadata is Some {
        let found = all[start as int];
    }
}

/// A sprite update leaves every primary plane alone, as long as no plane is both
/// a cursor plane and a primary plane.
pub proof fn sprite_updates_leave_frames_alone(
    outputs: Seq<Output>,
    count: int,
    cursor: Option<CursorState>,
    buffers: Seq<CursorBuffer>,
    plane: u32,
    property: u32,
)
    requires
        0 <= count <= outputs.len(),
        forall|i: int|
            0 <= i < outputs.len() && (#[trigger] outputs[i]).cursor is Some
                ==> outputs[i].cursor->0.handle != plane,
    ensures
        !settings(sprite_entries(outputs, count, cursor, buffers)).dom().contains(
            (plane, property),
        ),
    decreases count,
{
    if count > 0 {
        sprite_updates_leave_frames_alone(outputs, count - 1, cursor, buffers, plane, property);
        let earlier = sprite_entries(outputs, count - 1, cursor, buffers);
        let more = cursor_entries(outputs[count - 1], cursor, buffers);
        assert forall|i: int| 0 <= i < more.len() implies (#[trigger] more[i]).0.0 != plane by {
            assert(outputs[count - 1].cursor is Some);
        }
        lemma_other_objects(earlier, more, plane, property);
    }
}

/// Settings of other objects leave an object alone.
proof fn lemma_other_objects(earlier: Seq<Entry>, more: Seq<Entry>, object: u32, property: u32)
    requires
        !settings(earlier).dom().contains((object, property)),
        forall|i: int| 0 <= i < more.len() ==> (#[trigger] more[i]).0.0 != object,
    ensures
        !settings(earlier + more).dom().contains((object, property)),
    decreases more.len(),
{
    if more.len() == 0 {
        assert(earlier + more =~= earlier);
    } else {
        lemma_other_objects(earlier, more.drop_last(), object, property);
        assert((earlier + more).drop_last() =~= earlier + more.drop_last());
        assert((earlier + more).last() == more.last());
        assert(more[more.len() - 1].0.0 != object);
    }
}

/// A hint of clips uses the blob that was made for it, or else the one for the whole output;
/// no hint is zero.
pub proof fn hints_use_what_was_made(hint: DamageHint, made: Option<u64>, blob: u64)
    requires
        call_ensures(DamageHint::resolve, (&hint, made), blob),
    ensures
        hint is Absent ==> blob == 0,
        hint matches DamageHint::Whole(whole) ==> blob == whole,
        hint is Clips && made is Some ==> blob == made->0,
        hint is Clips && made is None ==> blob == hint->fallback,
{
}

} // verus!
