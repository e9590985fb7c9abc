//! Assembly of the driven outputs from a plan and what was made for it.

use vstd::prelude::*;
use crate::kms::assign::{is_assignment, is_first_assignment, picked, selects, shared_modifiers};
use crate::kms::display::{
    assign_cursors, cursors_well_assigned, first_reading_failure, is_scanout_intersection,
    only_candidates, scanout_candidates, scanout_format_intersection, DisplaySet,
    OverlayPlaneInventory, OverlayPlanePolicy, UsableCursor,
};
use crate::kms::error::DrmError;
use crate::kms::formats::ByteOrder;
use crate::kms::modes::{advertised_modes, is_mode_list, refresh_mhz_of, OutputMode};
use crate::kms::output::{
    outputs_wf, CursorPlane, Output, OutputAtomicProperties, OutputKind, PrimaryPlane,
    PrimaryPlaneProperties, Scale,
};
use crate::kms::plan::{
    asked_mode, is_plan, FramebufferLimits, OutputPlan, OutputSettings, PlannedOutput,
};
use crate::kms::select::{
    all_choices, connector_choices, crtc_choices, crtcs_to_try, format_choice, output_kind,
    plane_fits, ConnectorProbe, FormatChoice, ModeProbe, PlaneProbe, PlaneRole, INTERFACE_DSI,
    INTERFACE_EDP, INTERFACE_LVDS,
};

verus! {

/// What was found out and made for a planned output.
#[derive(Debug, Clone, Copy)]
pub struct OutputParts {
    pub props: OutputAtomicProperties,
    pub plane_props: PrimaryPlaneProperties,
    /// The blob that describes the mode to the kernel.
    pub mode_blob: u64,
    /// The blob of the clip that covers the whole output.
    pub full_damage_blob: Option<u64>,
    pub scale: Scale,
}

/// Modes as the rest of the compositor sees them.
pub open spec fn output_modes(modes: Seq<ModeProbe>) -> Seq<OutputMode> {
    modes.map_values(
        |m: ModeProbe|
            OutputMode {
                width: m.width as i32,
                height: m.height as i32,
                refresh_mhz: refresh_mhz_of(m.vrefresh),
            },
    )
}

fn convert_modes(modes: &[ModeProbe]) -> (list: Vec<OutputMode>)
    ensures
        list@ == output_modes(modes@),
{
    let mut list: Vec<OutputMode> = Vec::new();
    let mut index: usize = 0;
    while index < modes.len()
        invariant
            index <= modes.len(),
            list@ == output_modes(modes@.take(index as int)),
        decreases modes.len() - index,
    {
        let mode: ModeProbe = modes[index];
        list.push(OutputMode::advertised(mode.width, mode.height, mode.vrefresh));
        assert(list@ =~= output_modes(modes@.take(index + 1)));
        index += 1;
    }
    assert(modes@.take(modes.len() as int) =~= modes@);
    list
}

/// The clip that covers a whole output, for updates whose damage is unknown.
pub fn full_damage_clip(x: u32, mode: &ModeProbe) -> (clip: [i32; 4])
    requires
        x + mode.width <= i32::MAX,
    ensures
        clip@ == seq![x as i32, 0i32, (x + mode.width) as i32, mode.height as i32],
{
    let clip: [i32; 4] = [x as i32, 0, (x + mode.width as u32) as i32, mode.height as i32];
    assert(clip@ =~= seq![x as i32, 0i32, (x + mode.width) as i32, mode.height as i32]);
    clip
}

/// Whether `output` is the planned output of `connector`, without a cursor plane
/// yet.
pub open spec fn is_output(
    connector: ConnectorProbe,
    planned: PlannedOutput,
    parts: OutputParts,
    output: Output,
) -> bool {
    let mode = connector.modes@[planned.mode as int];
    &&& output.connector == connector.handle
    &&& output.name@ == connector.name@
    &&& output.crtc == planned.crtc
    &&& output.primary == (PrimaryPlane {
        handle: planned.plane,
        props: parts.plane_props,
        full_damage_blob: parts.full_damage_blob,
    })
    &&& output.width == mode.width
    &&& output.height == mode.height
    &&& output.vrefresh == mode.vrefresh
    &&& output.mode_blob == parts.mode_blob
    &&& output.x == planned.x
    &&& output.y == 0
    &&& output.physical_size_mm == connector.physical_size_mm
    &&& output.kind == if connector.interface == INTERFACE_EDP || connector.interface
        == INTERFACE_LVDS || connector.interface == INTERFACE_DSI {
        OutputKind::Internal
    } else {
        OutputKind::External
    }
    &&& output.scale == parts.scale
    &&& output.props == parts.props
    &&& output.cursor is None
    &&& is_mode_list(output_modes(connector.modes@), output.available_modes@)
    &&& output.color_caps == connector.color_caps
}

/// Assemble a planned output.
pub fn build_output(connector: &ConnectorProbe, planned: &PlannedOutput, parts: OutputParts) -> (output:
    Output)
    requires
        planned.mode < connector.modes.len(),
        connector.handle != 0,
        planned.crtc != 0,
        parts.props.wf(),
        (PrimaryPlane {
            handle: planned.plane,
            props: parts.plane_props,
            full_damage_blob: parts.full_damage_blob,
        }).wf(),
        planned.x + connector.modes@[planned.mode as int].width <= i32::MAX,
    ensures
        output.wf(),
        is_output(*connector, *planned, parts, output),
{
    let mode: ModeProbe = connector.modes[planned.mode];
    Output {
        connector: connector.handle,
        name: connector.name.clone(),
        crtc: planned.crtc,
        primary: PrimaryPlane {
            handle: planned.plane,
            props: parts.plane_props,
            full_damage_blob: parts.full_damage_blob,
        },
        width: mode.width,
        height: mode.height,
        vrefresh: mode.vrefresh,
        mode_blob: parts.mode_blob,
        x: planned.x,
        y: 0,
        physical_size_mm: connector.physical_size_mm,
        kind: output_kind(connector.interface),
        scale: parts.scale,
        props: parts.props,
        cursor: None,
        available_modes: advertised_modes(convert_modes(connector.modes.as_slice()).as_slice()),
        color_caps: connector.color_caps,
    }
}

/// Where the plane with the given handle is.
pub open spec fn plane_place(planes: Seq<PlaneProbe>, handle: u32) -> Option<int>
    decreases planes.len(),
{
    if planes.len() == 0 {
        None
    } else {
        match plane_place(planes.drop_last(), handle) {
            Some(place) => Some(place),
            None => if planes.last().handle == handle {
                Some(planes.len() - 1)
            } else {
                None
            },
        }
    }
}

/// The first plane with a handle is first in every longer list too.
proof fn lemma_plane_place(planes: Seq<PlaneProbe>, handle: u32, place: int)
    requires
        0 <= place < planes.len(),
        plane_place(planes.take(place), handle) is None,
        planes[place].handle == handle,
    ensures
        plane_place(planes, handle) == Some(place),
    decreases planes.len(),
{
    if place == planes.len() - 1 {
        assert(planes.drop_last() =~= planes.take(place));
    } else {
        assert(planes.drop_last().take(place) =~= planes.take(place));
        lemma_plane_place(planes.drop_last(), handle, place);
    }
}

fn find_plane(planes: &[PlaneProbe], handle: u32) -> (found: Option<usize>)
    ensures
        match plane_place(planes@, handle) {
            Some(place) => found is Some && found->0 == place && 0 <= place < planes.len(),
            None => found is None,
        },
{
    let mut index: usize = 0;
    while index < planes.len()
        invariant
            index <= planes.len(),
            plane_place(planes@.take(index as int), handle) is None,
        decreases planes.len() - index,
    {
        assert(planes@.take(index + 1).drop_last() =~= planes@.take(index as int));
        if planes[index].handle == handle {
            proof {
                lemma_plane_place(planes@, handle, index as int);
            }
            return Some(index);
        }
        index += 1;
    }
    assert(planes@.take(index as int) =~= planes@);
    None
}

/// Where the primary planes of outputs are.
pub open spec fn primary_places(planes: Seq<PlaneProbe>, outputs: Seq<Output>) -> Seq<usize> {
    outputs.map_values(|o: Output| plane_place(planes, o.primary.handle)->0 as usize)
}

/// The controllers of outputs.
pub open spec fn controllers(outputs: Seq<Output>) -> Seq<u32> {
    outputs.map_values(|o: Output| o.crtc)
}

/// Whether `after` are the outputs `before` with the given cursor planes.
pub open spec fn cursors_given(
    before: Seq<Output>,
    after: Seq<Output>,
    cursors: Seq<UsableCursor>,
    given: Seq<Option<usize>>,
) -> bool {
    &&& after.len() == before.len()
    &&& given.len() == before.len()
    &&& forall|i: int|
        0 <= i < before.len() ==> (#[trigger] after[i]) == (Output {
            cursor: match given[i] {
                Some(index) => Some(cursors[index as int].plane),
                None => None,
            },
            ..before[i]
        })
}

/// How many of the planes are overlay planes.
pub open spec fn overlays(planes: Seq<PlaneProbe>) -> nat
    decreases planes.len(),
{
    if planes.len() == 0 {
        0
    } else {
        overlays(planes.drop_last()) + if planes.last().role == Some(PlaneRole::Overlay) {
            1nat
        } else {
            0nat
        }
    }
}

fn count_overlays(planes: &[PlaneProbe]) -> (count: usize)
    ensures
        count == overlays(planes@),
{
    let mut count: usize = 0;
    let mut index: usize = 0;
    while index < planes.len()
        invariant
            index <= planes.len(),
            count <= index,
            count == overlays(planes@.take(index as int)),
        decreases planes.len() - index,
    {
        assert(planes@.take(index + 1).drop_last() =~= planes@.take(index as int));
        if let Some(PlaneRole::Overlay) = planes[index].role {
            count += 1;
        }
        index += 1;
    }
    assert(planes@.take(index as int) =~= planes@);
    count
}

/// Complete the display set that a plan and its outputs make: give the outputs
/// their cursor planes, and find out which client buffers all of them show.
pub fn build_displays(
    order: ByteOrder,
    plan: OutputPlan,
    outputs: Vec<Output>,
    planes: &[PlaneProbe],
    cursors: &[UsableCursor],
) -> (result: Result<DisplaySet, DrmError>)
    requires
        outputs_wf(outputs@),
        forall|i: int| 0 <= i < cursors.len() ==> (#[trigger] cursors@[i]).plane.wf(),
        forall|i: int|
            0 <= i < outputs.len() ==> plane_place(
                planes@,
                (#[trigger] outputs@[i]).primary.handle,
            ) is Some,
    ensures
        match first_reading_failure(
            order,
            planes@,
            primary_places(planes@, outputs@),
            scanout_candidates(),
            0,
        ) {
            Some(error) => result == Err::<DisplaySet, DrmError>(error),
            None => {
                &&& result matches Ok(displays)
                &&& outputs_wf(displays.outputs@)
                &&& only_candidates(displays.scanout_formats@)
                &&& exists|given: Seq<Option<usize>>| #[trigger]
                    cursors_well_assigned(controllers(outputs@), cursors@, given)
                        && cursors_given(outputs@, displays.outputs@, cursors@, given)
                &&& is_scanout_intersection(
                    order,
                    planes@,
                    primary_places(planes@, outputs@),
                    displays.scanout_formats@,
                    scanout_candidates(),
                )
                &&& displays.size == plan.size
                &&& displays.format == plan.format
                &&& displays.modifiers == plan.modifiers
                &&& displays.overlay.available == overlays(planes@)
                &&& displays.color_mode == plan.color_mode
                &&& displays.icc_profile == plan.icc_profile
            },
        },
{
    let mut outputs = outputs;
    let ghost before = outputs@;
    let mut crtcs: Vec<u32> = Vec::new();
    let mut chosen: Vec<usize> = Vec::new();
    let mut index: usize = 0;
    while index < outputs.len()
        invariant
            index <= outputs.len(),
            outputs@ == before,
            crtcs@ == controllers(before.take(index as int)),
            chosen@ == primary_places(planes@, before.take(index as int)),
            forall|i: int| 0 <= i < index ==> #[trigger] chosen@[i] < planes.len(),
            forall|i: int|
                0 <= i < outputs.len() ==> plane_place(
                    planes@,
                    (#[trigger] outputs@[i]).primary.handle,
                ) is Some,
        decreases outputs.len() - index,
    {
        crtcs.push(outputs[index].crtc);
        let place: usize = match find_plane(planes, outputs[index].primary.handle) {
            Some(place) => place,
            None => 0,
        };
        chosen.push(place);
        assert(crtcs@ =~= controllers(before.take(index + 1)));
        assert(chosen@ =~= primary_places(planes@, before.take(index + 1)));
        index += 1;
    }
    assert(before.take(index as int) =~= before);
    let given = assign_cursors(crtcs.as_slice(), cursors);
    let mut index: usize = 0;
    while index < outputs.len()
        invariant
            index <= outputs.len(),
            outputs.len() == before.len(),
            given.len() == before.len(),
            outputs_wf(before),
            forall|i: int| 0 <= i < cursors.len() ==> (#[trigger] cursors@[i]).plane.wf(),
            forall|i: int|
                0 <= i < given.len() && (#[trigger] given@[i]) is Some ==> given@[i]->0
                    < cursors.len(),
            forall|i: int| index <= i < before.len() ==> outputs@[i] == #[trigger] before[i],
            forall|i: int|
                0 <= i < index ==> (#[trigger] outputs@[i]) == (Output {
                    cursor: match given@[i] {
                        Some(chosen) => Some(cursors@[chosen as int].plane),
                        None => None,
                    },
                    ..before[i]
                }),
        decreases outputs.len() - index,
    {
        assert(outputs@[index as int] == before[index as int]);
        let ghost held = outputs@;
        let cursor: Option<CursorPlane> = match given[index] {
            Some(chosen) => Some(cursors[chosen].plane),
            None => None,
        };
        outputs[index].cursor = cursor;
        assert(outputs@ =~= held.update(
            index as int,
            Output { cursor, ..before[index as int] },
        ));
        index += 1;
    }
    assert(cursors_given(before, outputs@, cursors@, given@));
    assert forall|i: int| 0 <= i < outputs.len() implies (#[trigger] outputs@[i]).wf() by {
        assert(before[i].wf());
    }
    match scanout_format_intersection(order, planes, chosen.as_slice()) {
        Err(error) => Err(error),
        Ok(scanout_formats) => Ok(
            DisplaySet {
                outputs,
                size: plan.size,
                format: plan.format,
                modifiers: plan.modifiers,
                scanout_formats,
                overlay: OverlayPlaneInventory {
                    available: count_overlays(planes),
                    policy: OverlayPlanePolicy::CompositorOnly,
                },
                color_mode: plan.color_mode,
                icc_profile: plan.icc_profile,
            },
        ),
    }
}

/// Whether one of the planes is the one of a choice, and can show the format
/// through its controller.
pub open spec fn offers(planes: Seq<PlaneProbe>, plane: u32, crtc: u32, format: u32) -> bool {
    exists|j: int|
        0 <= j < planes.len() && (#[trigger] planes[j]).handle == plane && plane_fits(
            planes[j],
            crtc,
            format,
        )
}

proof fn lemma_crtc_choice_offered(
    order: ByteOrder,
    planes: Seq<PlaneProbe>,
    crtc: u32,
    format: u32,
    count: int,
    k: int,
)
    requires
        0 <= count <= planes.len(),
        crtc_choices(order, planes, crtc, format, count) is Ok,
        0 <= k < crtc_choices(order, planes, crtc, format, count)->Ok_0.len(),
    ensures
        ({
            let choice = crtc_choices(order, planes, crtc, format, count)->Ok_0[k];
            offers(planes, choice.plane, choice.crtc, format)
        }),
    decreases count,
{
    let earlier = crtc_choices(order, planes, crtc, format, count - 1)->Ok_0;
    if k < earlier.len() {
        lemma_crtc_choice_offered(order, planes, crtc, format, count - 1, k);
    } else {
        assert(planes[count - 1].handle == crtc_choices(
            order,
            planes,
            crtc,
            format,
            count,
        )->Ok_0[k].plane);
    }
}

proof fn lemma_connector_choice_offered(
    order: ByteOrder,
    planes: Seq<PlaneProbe>,
    crtcs: Seq<u32>,
    format: u32,
    count: int,
    k: int,
)
    requires
        0 <= count <= crtcs.len(),
        connector_choices(order, planes, crtcs, format, count) is Ok,
        0 <= k < connector_choices(order, planes, crtcs, format, count)->Ok_0.len(),
    ensures
        ({
            let choice = connector_choices(order, planes, crtcs, format, count)->Ok_0[k];
            offers(planes, choice.plane, choice.crtc, format)
        }),
    decreases count,
{
    let earlier = connector_choices(order, planes, crtcs, format, count - 1)->Ok_0;
    if k < earlier.len() {
        lemma_connector_choice_offered(order, planes, crtcs, format, count - 1, k);
    } else {
        lemma_crtc_choice_offered(
            order,
            planes,
            crtcs[count - 1],
            format,
            planes.len() as int,
            k - earlier.len(),
        );
    }
}

proof fn lemma_choice_offered(
    order: ByteOrder,
    connectors: Seq<ConnectorProbe>,
    ranks: Seq<usize>,
    planes: Seq<PlaneProbe>,
    format: u32,
    count: int,
    i: int,
    k: int,
)
    requires
        0 <= count <= ranks.len(),
        all_choices(order, connectors, ranks, planes, format, count) is Ok,
        0 <= i < count,
        0 <= k < all_choices(order, connectors, ranks, planes, format, count)->Ok_0[i].len(),
    ensures
        all_choices(order, connectors, ranks, planes, format, count)->Ok_0.len() == count,
        ({
            let choice = all_choices(order, connectors, ranks, planes, format, count)->Ok_0[i][k];
            offers(planes, choice.plane, choice.crtc, format)
        }),
    decreases count,
{
    lemma_choices_count(order, connectors, ranks, planes, format, count);
    if i < count - 1 {
        lemma_choice_offered(order, connectors, ranks, planes, format, count - 1, i, k);
    } else {
        lemma_choices_count(order, connectors, ranks, planes, format, count - 1);
        let crtcs = crtcs_to_try(connectors[ranks[count - 1] as int]);
        lemma_connector_choice_offered(order, planes, crtcs, format, crtcs.len() as int, k);
    }
}

proof fn lemma_choices_count(
    order: ByteOrder,
    connectors: Seq<ConnectorProbe>,
    ranks: Seq<usize>,
    planes: Seq<PlaneProbe>,
    format: u32,
    count: int,
)
    requires
        0 <= count <= ranks.len(),
        all_choices(order, connectors, ranks, planes, format, count) is Ok,
    ensures
        all_choices(order, connectors, ranks, planes, format, count)->Ok_0.len() == count,
    decreases count,
{
    if count > 0 {
        lemma_choices_count(order, connectors, ranks, planes, format, count - 1);
    }
}

proof fn lemma_offered_is_found(planes: Seq<PlaneProbe>, handle: u32, place: int)
    requires
        0 <= place < planes.len(),
        planes[place].handle == handle,
    ensures
        plane_place(planes, handle) is Some,
    decreases planes.len(),
{
    if place < planes.len() - 1 {
        lemma_offered_is_found(planes.drop_last(), handle, place);
    }
}

/// Each planned output is driven through a primary plane of the card that fits
/// its controller and shows the framebuffer's format, and no two outputs share a
/// controller or a plane.
pub proof fn planned_outputs_have_planes_of_their_own(
    order: ByteOrder,
    connectors: Seq<ConnectorProbe>,
    ranks: Seq<usize>,
    planes: Seq<PlaneProbe>,
    limits: FramebufferLimits,
    settings: OutputSettings,
    plan: OutputPlan,
    i: int,
    j: int,
)
    requires
        is_plan(
            order,
            connectors,
            ranks,
            planes,
            limits,
            settings,
            Ok::<OutputPlan, DrmError>(plan),
        ),
        0 <= i < plan.outputs@.len(),
        0 <= j < plan.outputs@.len(),
    ensures
        offers(planes, plan.outputs@[i].plane, plan.outputs@[i].crtc, plan.format),
        plane_place(planes, plan.outputs@[i].plane) is Some,
        i != j ==> plan.outputs@[i].plane != plan.outputs@[j].plane && plan.outputs@[i].crtc
            != plan.outputs@[j].crtc,
{
    let asked = asked_mode(connectors, ranks, settings.color);
    let formats = asked.formats();
    lemma_chosen_format(order, connectors, ranks, planes, formats, 0);
    let candidates = all_choices(
        order,
        connectors,
        ranks,
        planes,
        plan.format,
        ranks.len() as int,
    )->Ok_0;
    let picks = choose|picks: Seq<int>| #[trigger]
        is_first_assignment(candidates, picks) && selects(candidates, picks, plan.choices@)
            && plan.modifiers@ == shared_modifiers(candidates, picks);
    assert(is_assignment(candidates, picks));
    let a = plan.outputs@[i];
    let b = plan.outputs@[j];
    assert(plan.choices@[i]@ == picked(candidates, picks, i));
    assert(plan.choices@[j]@ == picked(candidates, picks, j));
    assert(0 <= picks[i] < candidates[i].len());
    assert(0 <= picks[j] < candidates[j].len());
    lemma_choice_offered(
        order,
        connectors,
        ranks,
        planes,
        plan.format,
        ranks.len() as int,
        i,
        picks[i],
    );
    let place = choose|p: int|
        0 <= p < planes.len() && (#[trigger] planes[p]).handle == a.plane && plane_fits(
            planes[p],
            a.crtc,
            plan.format,
        );
    lemma_offered_is_found(planes, a.plane, place);
}

proof fn lemma_chosen_format(
    order: ByteOrder,
    connectors: Seq<ConnectorProbe>,
    ranks: Seq<usize>,
    planes: Seq<PlaneProbe>,
    formats: Seq<u32>,
    from: int,
)
    requires
        0 <= from,
    ensures
        format_choice(order, connectors, ranks, planes, formats, from) matches FormatChoice::Format(
            index,
        ) ==> from <= index < formats.len() && all_choices(
            order,
            connectors,
            ranks,
            planes,
            formats[index],
            ranks.len() as int,
        ) is Ok,
    decreases formats.len() - from,
{
    if from < formats.len() {
        lemma_chosen_format(order, connectors, ranks, planes, formats, from + 1);
    }
}

/// An assembled output drives its connector through the planned controller and plane, in
/// the planned mode, at the planned place in the top row.
pub proof fn outputs_are_assembled_as_planned(
    connector: ConnectorProbe,
    planned: PlannedOutput,
    parts: OutputParts,
    output: Output,
)
    requires
        call_ensures(build_output, (&connector, &planned, parts), output),
    ensures
        output.connector == connector.handle && output.name@ == connector.name@,
        output.crtc == planned.crtc && output.primary.handle == planned.plane,
        output.x == planned.x && output.y == 0,
        output.width == connector.modes@[planned.mode as int].width,
        output.height == connector.modes@[planned.mode as int].height,
        output.vrefresh == connector.modes@[planned.mode as int].vrefresh,
        output.mode_blob == parts.mode_blob && output.scale == parts.scale,
        output.primary.full_damage_blob == parts.full_damage_blob,
        output.physical_size_mm == connector.physical_size_mm,
        output.kind == OutputKind::Internal <==> connector.interface == 14 || connector.interface
            == 7 || connector.interface == 16,
        output.cursor is None,
{
}

/// The clip for unknown damage covers exactly the pixels of the output.
pub proof fn whole_clips_cover_the_output(
    x: u32,
    mode: ModeProbe,
    clip: [i32; 4],
    px: int,
    py: int,
)
    requires
        x + mode.width <= i32::MAX,
        call_ensures(full_damage_clip, (x, &mode), clip),
    ensures
        clip@[0] <= px < clip@[2] && clip@[1] <= py < clip@[3] <==> x <= px < x + mode.width && 0
            <= py < mode.height,
{
}

/// Completing a display set changes nothing of its outputs but their cursor planes, and
/// takes size, format, layouts and color over from the plan.
pub proof fn displays_are_completed_as_planned(
    order: ByteOrder,
    plan: OutputPlan,
    outputs: Vec<Output>,
    planes: &[PlaneProbe],
    cursors: &[UsableCursor],
    displays: DisplaySet,
    index: int,
)
    requires
        call_ensures(build_displays, (order, plan, outputs, planes, cursors), Ok(displays)),
        0 <= index < outputs@.len(),
    ensures
        displays.outputs@.len() == outputs@.len(),
        displays.outputs@[index] == (Output {
            cursor: displays.outputs@[index].cursor,
            ..outputs@[index]
        }),
        displays.size == plan.size && displays.format == plan.format,
        displays.modifiers == plan.modifiers,
        displays.color_mode == plan.color_mode && displays.icc_profile == plan.icc_profile,
{
    let given = choose|given: Seq<Option<usize>>| #[trigger]
        cursors_well_assigned(controllers(outputs@), cursors@, given) && cursors_given(
            outputs@,
            displays.outputs@,
            cursors@,
            given,
        );
    let after = displays.outputs@[index];
}

} // verus!
