//! The set of driven outputs and what they have in common.

use std::collections::HashMap;
use vstd::prelude::*;
use crate::kms::color::DisplayColorMode;
use crate::kms::error::DrmError;
use crate::kms::formats::{
    intersect_modifier_sets, ByteOrder, ABGR2101010, ABGR8888, ARGB8888, MODIFIER_LINEAR,
    XBGR2101010, XBGR8888, XRGB8888,
};
use crate::kms::matching::{
    allowed, assign_optional_planes, can_serve, is_matching, served, served_below,
};
use crate::kms::output::{
    optional_prop, properties_are_found_by_name, property_named, required_prop, CursorPlane,
    CursorPlaneProperties,
    NamedProperty, Output, OutputAtomicProperties, PrimaryPlaneProperties,
};
use crate::kms::plan::optional_text;
use crate::kms::select::{plane_layouts, plane_modifiers, PlaneProbe, PlaneRole};
use crate::seqs::{contains_u32, contains_u64, copy_u64s, equal_u64s, strictly_increasing};
use crate::text::text_equal;

verus! {

/// What overlay planes are used for: nothing. Every layer stays with the
/// compositor.
#[derive(Debug, Clone, Copy, PartialEq, Eq, Structural)]
pub enum OverlayPlanePolicy {
    CompositorOnly,
}

/// How many overlay planes there are, and what they are used for.
#[derive(Debug, Clone, Copy, PartialEq, Eq, Structural)]
pub struct OverlayPlaneInventory {
    pub available: usize,
    pub policy: OverlayPlanePolicy,
}

/// The driven outputs, the framebuffer they share, and what they accept.
#[derive(Debug)]
pub struct DisplaySet {
    pub outputs: Vec<Output>,
    pub size: (u32, u32),
    pub format: u32,
    pub modifiers: Vec<u64>,
    /// For each format, the layouts that every primary plane accepts. Client
    /// buffers are held against these.
    pub scanout_formats: HashMap<u32, Vec<u64>>,
    pub overlay: OverlayPlaneInventory,
    pub color_mode: DisplayColorMode,
    pub icc_profile: Option<String>,
}

/// The first of the names that no property has.
pub open spec fn first_missing(props: Seq<NamedProperty>, names: Seq<&'static str>) -> Option<
    &'static str,
>
    decreases names.len(),
{
    if names.len() == 0 {
        None
    } else if property_named(props, names[0]@) is None {
        Some(names[0])
    } else {
        first_missing(props, names.skip(1))
    }
}

/// Find every one of the named properties.
fn required_props(props: &[NamedProperty], names: &[&'static str]) -> (result: Result<
    Vec<u32>,
    DrmError,
>)
    ensures
        match first_missing(props@, names@) {
            Some(name) => result == Err::<Vec<u32>, DrmError>(DrmError::MissingProperty(name)),
            None => result is Ok && result->Ok_0.len() == names.len() && forall|i: int|
                0 <= i < names.len() ==> Some(#[trigger] result->Ok_0@[i]) == property_named(
                    props@,
                    names@[i]@,
                ),
        },
{
    let mut found: Vec<u32> = Vec::new();
    let mut index: usize = 0;
    assert(names@.skip(0) =~= names@);
    while index < names.len()
        invariant
            index <= names.len(),
            found.len() == index,
            first_missing(props@, names@) == first_missing(props@, names@.skip(index as int)),
            forall|i: int|
                0 <= i < index ==> Some(#[trigger] found@[i]) == property_named(
                    props@,
                    names@[i]@,
                ),
        decreases names.len() - index,
    {
        assert(names@.skip(index as int).skip(1) =~= names@.skip(index + 1));
        match required_prop(props, names[index]) {
            Ok(handle) => {
                found.push(handle);
            },
            Err(error) => return Err(error),
        }
        index += 1;
    }
    Ok(found)
}

/// The names of the properties that every primary plane must have.
pub open spec fn plane_property_names() -> Seq<&'static str> {
    seq![
        "FB_ID",
        "CRTC_ID",
        "SRC_X",
        "SRC_Y",
        "SRC_W",
        "SRC_H",
        "CRTC_X",
        "CRTC_Y",
        "CRTC_W",
        "CRTC_H",
    ]
}

/// Find the properties of a primary plane.
pub fn primary_plane_properties(props: &[NamedProperty]) -> (result: Result<
    PrimaryPlaneProperties,
    DrmError,
>)
    ensures
        match first_missing(props@, plane_property_names()) {
            Some(name) => result == Err::<PrimaryPlaneProperties, DrmError>(
                DrmError::MissingProperty(name),
            ),
            None => result is Ok && ({
                let found = result->Ok_0;
                &&& Some(found.fb_id) == property_named(props@, "FB_ID"@)
                &&& Some(found.crtc_id) == property_named(props@, "CRTC_ID"@)
                &&& Some(found.src_x) == property_named(props@, "SRC_X"@)
                &&& Some(found.src_y) == property_named(props@, "SRC_Y"@)
                &&& Some(found.src_w) == property_named(props@, "SRC_W"@)
                &&& Some(found.src_h) == property_named(props@, "SRC_H"@)
                &&& Some(found.crtc_x) == property_named(props@, "CRTC_X"@)
                &&& Some(found.crtc_y) == property_named(props@, "CRTC_Y"@)
                &&& Some(found.crtc_w) == property_named(props@, "CRTC_W"@)
                &&& Some(found.crtc_h) == property_named(props@, "CRTC_H"@)
                &&& found.in_fence_fd == property_named(props@, "IN_FENCE_FD"@)
                &&& found.fb_damage_clips == property_named(props@, "FB_DAMAGE_CLIPS"@)
            }),
        },
{
    let names = [
        "FB_ID",
        "CRTC_ID",
        "SRC_X",
        "SRC_Y",
        "SRC_W",
        "SRC_H",
        "CRTC_X",
        "CRTC_Y",
        "CRTC_W",
        "CRTC_H",
    ];
    assert(names@ =~= plane_property_names());
    match required_props(props, names.as_slice()) {
        Err(error) => Err(error),
        Ok(found) => Ok(
            PrimaryPlaneProperties {
                fb_id: found[0],
                crtc_id: found[1],
                src_x: found[2],
                src_y: found[3],
                src_w: found[4],
                src_h: found[5],
                crtc_x: found[6],
                crtc_y: found[7],
                crtc_w: found[8],
                crtc_h: found[9],
                in_fence_fd: optional_prop(props, "IN_FENCE_FD"),
                fb_damage_clips: optional_prop(props, "FB_DAMAGE_CLIPS"),
            },
        ),
    }
}

/// Find the properties of a cursor plane.
pub fn build_cursor_plane(handle: u32, props: &[NamedProperty]) -> (result: Result<
    CursorPlane,
    DrmError,
>)
    ensures
        match first_missing(props@, plane_property_names()) {
            Some(name) => result == Err::<CursorPlane, DrmError>(DrmError::MissingProperty(name)),
            None => result is Ok && is_cursor_plane(handle, props@, result->Ok_0),
        },
{
    let names = [
        "FB_ID",
        "CRTC_ID",
        "SRC_X",
        "SRC_Y",
        "SRC_W",
        "SRC_H",
        "CRTC_X",
        "CRTC_Y",
        "CRTC_W",
        "CRTC_H",
    ];
    assert(names@ =~= plane_property_names());
    match required_props(props, names.as_slice()) {
        Err(error) => Err(error),
        Ok(found) => Ok(
            CursorPlane {
                handle,
                props: CursorPlaneProperties {
                    plane_fb_id: found[0],
                    plane_crtc_id: found[1],
                    plane_src_x: found[2],
                    plane_src_y: found[3],
                    plane_src_w: found[4],
                    plane_src_h: found[5],
                    plane_crtc_x: found[6],
                    plane_crtc_y: found[7],
                    plane_crtc_w: found[8],
                    plane_crtc_h: found[9],
                },
            },
        ),
    }
}

/// Whether `plane` is the cursor plane with the given properties.
pub open spec fn is_cursor_plane(
    handle: u32,
    props: Seq<NamedProperty>,
    plane: CursorPlane,
) -> bool {
    &&& plane.handle == handle
    &&& Some(plane.props.plane_fb_id) == property_named(props, "FB_ID"@)
    &&& Some(plane.props.plane_crtc_id) == property_named(props, "CRTC_ID"@)
    &&& Some(plane.props.plane_src_x) == property_named(props, "SRC_X"@)
    &&& Some(plane.props.plane_src_y) == property_named(props, "SRC_Y"@)
    &&& Some(plane.props.plane_src_w) == property_named(props, "SRC_W"@)
    &&& Some(plane.props.plane_src_h) == property_named(props, "SRC_H"@)
    &&& Some(plane.props.plane_crtc_x) == property_named(props, "CRTC_X"@)
    &&& Some(plane.props.plane_crtc_y) == property_named(props, "CRTC_Y"@)
    &&& Some(plane.props.plane_crtc_w) == property_named(props, "CRTC_W"@)
    &&& Some(plane.props.plane_crtc_h) == property_named(props, "CRTC_H"@)
}

/// A value that an enumerated property can take.
#[derive(Debug)]
pub struct EnumVariant {
    pub name: String,
    pub value: u64,
}

/// The value of the first variant called `name`.
pub open spec fn variant_value(variants: Seq<EnumVariant>, name: Seq<char>) -> Option<u64>
    decreases variants.len(),
{
    if variants.len() == 0 {
        None
    } else if variants[0].name@ == name {
        Some(variants[0].value)
    } else {
        variant_value(variants.skip(1), name)
    }
}

/// Find a variant by name.
fn find_variant(variants: &[EnumVariant], name: &str) -> (value: Option<u64>)
    ensures
        value == variant_value(variants@, name@),
{
    let mut index: usize = 0;
    assert(variants@.skip(0) =~= variants@);
    while index < variants.len()
        invariant
            index <= variants.len(),
            variant_value(variants@, name@) == variant_value(variants@.skip(index as int), name@),
        decreases variants.len() - index,
    {
        assert(variants@.skip(index as int).skip(1) =~= variants@.skip(index + 1));
        if text_equal(variants[index].name.as_str(), name) {
            return Some(variants[index].value);
        }
        index += 1;
    }
    None
}

/// The colorspace property of a connector, with its values for the default
/// colorspace and for BT.2020: only where the connector offers both.
pub fn colorspace_prop(handle: u32, variants: &[EnumVariant]) -> (found: Option<(u32, u64, u64)>)
    ensures
        found == match (
            variant_value(variants@, "Default"@),
            variant_value(variants@, "BT2020_RGB"@),
        ) {
            (Some(standard), Some(wide)) => Some((handle, standard, wide)),
            _ => None,
        },
{
    match (find_variant(variants, "Default"), find_variant(variants, "BT2020_RGB")) {
        (Some(standard), Some(wide)) => Some((handle, standard, wide)),
        _ => None,
    }
}

/// Find the properties of a connector and its controller. The colorspace
/// property and the size of the gamma table are read separately.
pub fn output_properties(
    connector: &[NamedProperty],
    crtc: &[NamedProperty],
    colorspace: Option<(u32, u64, u64)>,
    gamma_size: Option<u32>,
) -> (result: Result<OutputAtomicProperties, DrmError>)
    ensures
        match (
            property_named(connector@, "CRTC_ID"@),
            property_named(crtc@, "MODE_ID"@),
            property_named(crtc@, "ACTIVE"@),
        ) {
            (None, _, _) => result == Err::<OutputAtomicProperties, DrmError>(
                DrmError::MissingProperty("CRTC_ID"),
            ),
            (Some(_), None, _) => result == Err::<OutputAtomicProperties, DrmError>(
                DrmError::MissingProperty("MODE_ID"),
            ),
            (Some(_), Some(_), None) => result == Err::<OutputAtomicProperties, DrmError>(
                DrmError::MissingProperty("ACTIVE"),
            ),
            (Some(connector_crtc_id), Some(crtc_mode_id), Some(crtc_active)) => result == Ok::<
                OutputAtomicProperties,
                DrmError,
            >(
                OutputAtomicProperties {
                    connector_crtc_id,
                    crtc_mode_id,
                    crtc_active,
                    crtc_out_fence_ptr: property_named(crtc@, "OUT_FENCE_PTR"@),
                    connector_colorspace: colorspace,
                    connector_hdr_metadata: property_named(connector@, "HDR_OUTPUT_METADATA"@),
                    connector_max_bpc: property_named(connector@, "max bpc"@),
                    crtc_gamma_lut: match (property_named(crtc@, "GAMMA_LUT"@), gamma_size) {
                        (Some(handle), Some(size)) => Some((handle, size)),
                        _ => None,
                    },
                },
            ),
        },
{
    let connector_crtc_id: u32 = match required_prop(connector, "CRTC_ID") {
        Ok(handle) => handle,
        Err(error) => return Err(error),
    };
    let crtc_mode_id: u32 = match required_prop(crtc, "MODE_ID") {
        Ok(handle) => handle,
        Err(error) => return Err(error),
    };
    let crtc_active: u32 = match required_prop(crtc, "ACTIVE") {
        Ok(handle) => handle,
        Err(error) => return Err(error),
    };
    Ok(
        OutputAtomicProperties {
            connector_crtc_id,
            crtc_mode_id,
            crtc_active,
            crtc_out_fence_ptr: optional_prop(crtc, "OUT_FENCE_PTR"),
            connector_colorspace: colorspace,
            connector_hdr_metadata: optional_prop(connector, "HDR_OUTPUT_METADATA"),
            connector_max_bpc: optional_prop(connector, "max bpc"),
            crtc_gamma_lut: match (optional_prop(crtc, "GAMMA_LUT"), gamma_size) {
                (Some(handle), Some(size)) => Some((handle, size)),
                _ => None,
            },
        },
    )
}

/// A cursor plane that can be used, and the controllers that can use it.
#[derive(Debug)]
pub struct UsableCursor {
    pub plane: CursorPlane,
    pub possible_crtcs: Vec<u32>,
}

/// Whether a plane can show sprites: a cursor plane that takes linear memory
/// with alpha.
pub open spec fn shows_sprites(order: ByteOrder, plane: PlaneProbe) -> bool {
    &&& plane.role == Some(PlaneRole::Cursor)
    &&& plane.formats@.contains(ARGB8888)
    &&& plane_layouts(order, plane.table, ARGB8888) matches Ok(modifiers)
    &&& modifiers.contains(MODIFIER_LINEAR)
}

/// Check whether a plane can show sprites and has all properties for it.
pub fn usable_cursor(
    order: ByteOrder,
    plane: &PlaneProbe,
    props: &[NamedProperty],
) -> (usable: Option<UsableCursor>)
    ensures
        match usable {
            Some(cursor) => shows_sprites(order, *plane) && is_cursor_plane(
                plane.handle,
                props@,
                cursor.plane,
            ) && cursor.possible_crtcs@ == plane.possible_crtcs@,
            None => !shows_sprites(order, *plane) || first_missing(
                props@,
                plane_property_names(),
            ) is Some,
        },
{
    let cursor = match plane.role {
        Some(PlaneRole::Cursor) => true,
        _ => false,
    };
    if !cursor || !contains_u32(plane.formats.as_slice(), ARGB8888) {
        return None;
    }
    let linear = match plane_modifiers(order, &plane.table, ARGB8888) {
        Ok(modifiers) => contains_u64(modifiers.as_slice(), MODIFIER_LINEAR),
        Err(_) => false,
    };
    if !linear {
        return None;
    }
    match build_cursor_plane(plane.handle, props) {
        Ok(built) => {
            let mut possible_crtcs: Vec<u32> = Vec::new();
            let mut index: usize = 0;
            while index < plane.possible_crtcs.len()
                invariant
                    index <= plane.possible_crtcs.len(),
                    possible_crtcs@ == plane.possible_crtcs@.take(index as int),
                decreases plane.possible_crtcs.len() - index,
            {
                possible_crtcs.push(plane.possible_crtcs[index]);
                index += 1;
            }
            Some(UsableCursor { plane: built, possible_crtcs })
        },
        Err(_) => None,
    }
}

/// Whether `list` holds the indices of the cursor planes that a controller can
/// use, in order.
pub open spec fn is_cursor_choice(cursors: Seq<UsableCursor>, crtc: u32, list: Seq<usize>) -> bool {
    &&& forall|i: int, j: int|
        #![trigger list[i], list[j]]
        0 <= i < j < list.len() ==> list[i] < list[j]
    &&& forall|p: int| #[trigger]
        lists_plane(list, p) <==> 0 <= p < cursors.len() && cursors[p].possible_crtcs@.contains(
            crtc,
        )
}

/// Whether `list` holds `plane`.
pub open spec fn lists_plane(list: Seq<usize>, plane: int) -> bool {
    exists|i: int| 0 <= i < list.len() && #[trigger] list[i] == plane
}

/// The cursor planes that a controller can use.
fn cursor_choices(cursors: &[UsableCursor], crtc: u32) -> (list: Vec<usize>)
    ensures
        is_cursor_choice(cursors@, crtc, list@),
{
    let mut list: Vec<usize> = Vec::new();
    let mut index: usize = 0;
    while index < cursors.len()
        invariant
            index <= cursors.len(),
            forall|i: int|
                #![trigger list@[i]]
                0 <= i < list@.len() ==> list@[i] < index,
            forall|i: int, j: int|
                #![trigger list@[i], list@[j]]
                0 <= i < j < list@.len() ==> list@[i] < list@[j],
            forall|p: int| #[trigger]
                lists_plane(list@, p) <==> 0 <= p < index && cursors@[p].possible_crtcs@.contains(
                    crtc,
                ),
        decreases cursors.len() - index,
    {
        let ghost before = list@;
        if contains_u32(cursors[index].possible_crtcs.as_slice(), crtc) {
            list.push(index);
        }
        proof {
            assert forall|p: int| #[trigger] lists_plane(list@, p) <==> 0 <= p < index + 1
                && cursors@[p].possible_crtcs@.contains(crtc) by {
                if lists_plane(before, p) {
                    let i = choose|i: int| 0 <= i < before.len() && #[trigger] before[i] == p;
                    assert(list@[i] == p);
                }
                if lists_plane(list@, p) {
                    let i = choose|i: int| 0 <= i < list@.len() && #[trigger] list@[i] == p;
                    if i < before.len() {
                        assert(before[i] == p);
                    }
                }
                if p == index && list@.len() > before.len() {
                    assert(list@[before.len() as int] == p);
                }
            }
        }
        index += 1;
    }
    list
}

/// Whether a controller can use the cursor plane that each output was given, no
/// plane was given twice, and no other way of giving them serves more outputs.
/// Earlier controllers take precedence: one goes without only where serving it
/// would take a plane away from the served ones before it.
pub open spec fn cursors_well_assigned(
    crtcs: Seq<u32>,
    cursors: Seq<UsableCursor>,
    given: Seq<Option<usize>>,
) -> bool {
    exists|choices: Seq<Vec<usize>>|
        {
            &&& choices.len() == crtcs.len()
            &&& forall|i: int|
                0 <= i < crtcs.len() ==> is_cursor_choice(
                    cursors,
                    crtcs[i],
                    (#[trigger] choices[i])@,
                )
            &&& #[trigger] is_matching(choices, cursors.len() as int, given)
            &&& forall|other: Seq<Option<usize>>|
                is_matching(choices, cursors.len() as int, other) ==> (#[trigger] served(
                    other,
                )).len() <= served(given).len()
            &&& forall|c: int|
                0 <= c < given.len() && (#[trigger] given[c]) is None ==> !can_serve(
                    choices,
                    cursors.len() as int,
                    served_below(given, c).insert(c),
                )
        }
}

/// Give as many controllers as possible a cursor plane of their own.
pub fn assign_cursors(crtcs: &[u32], cursors: &[UsableCursor]) -> (given: Vec<Option<usize>>)
    ensures
        given.len() == crtcs.len(),
        cursors_well_assigned(crtcs@, cursors@, given@),
        forall|i: int|
            0 <= i < given.len() && (#[trigger] given@[i]) is Some ==> given@[i]->0
                < cursors.len(),
{
    let mut choices: Vec<Vec<usize>> = Vec::new();
    let mut index: usize = 0;
    while index < crtcs.len()
        invariant
            index <= crtcs.len(),
            choices.len() == index,
            forall|i: int|
                0 <= i < index ==> is_cursor_choice(cursors@, crtcs@[i], (#[trigger] choices@[i])@),
        decreases crtcs.len() - index,
    {
        choices.push(cursor_choices(cursors, crtcs[index]));
        index += 1;
    }
    let given = assign_optional_planes(choices.as_slice(), cursors.len());
    proof {
        assert(is_matching(choices@, cursors.len() as int, given@));
        assert forall|i: int| 0 <= i < given.len()
            && (#[trigger] given@[i]) is Some implies given@[i]->0
            < cursors.len() by {
            assert(allowed(choices@, cursors.len() as int, i, given@[i]->0 as int));
        }
    }
    given
}

/// The formats in which client buffers may be shown as they are.
pub open spec fn scanout_candidates() -> Seq<u32> {
    seq![ARGB8888, XRGB8888, ABGR8888, XBGR8888, ABGR2101010, XBGR2101010]
}

/// Whether a plane shows a format in a layout.
pub open spec fn plane_takes(
    order: ByteOrder,
    plane: PlaneProbe,
    format: u32,
    modifier: u64,
) -> bool {
    &&& plane.formats@.contains(format)
    &&& plane_layouts(order, plane.table, format) matches Ok(modifiers)
    &&& modifiers.contains(modifier)
}

/// Whether every one of the chosen planes shows a format in a layout.
pub open spec fn all_planes_take(
    order: ByteOrder,
    planes: Seq<PlaneProbe>,
    chosen: Seq<usize>,
    format: u32,
    modifier: u64,
) -> bool {
    chosen.len() > 0 && forall|i: int|
        0 <= i < chosen.len() ==> plane_takes(
            order,
            planes[#[trigger] chosen[i] as int],
            format,
            modifier,
        )
}

/// Whether reading the chosen planes for a format, one after the other, stops
/// at a failure. A plane that does not show the format ends the reading.
pub open spec fn reading_fails(
    order: ByteOrder,
    planes: Seq<PlaneProbe>,
    chosen: Seq<usize>,
    format: u32,
    from: int,
) -> Option<DrmError>
    decreases chosen.len() - from,
{
    if from >= chosen.len() {
        None
    } else {
        let plane = planes[chosen[from] as int];
        if !plane.formats@.contains(format) {
            None
        } else {
            match plane_layouts(order, plane.table, format) {
                Err(error) => Some(error),
                Ok(modifiers) => if modifiers.len() == 0 {
                    None
                } else {
                    reading_fails(order, planes, chosen, format, from + 1)
                },
            }
        }
    }
}

/// The first failure to read the chosen planes, format by format.
pub open spec fn first_reading_failure(
    order: ByteOrder,
    planes: Seq<PlaneProbe>,
    chosen: Seq<usize>,
    formats: Seq<u32>,
    from: int,
) -> Option<DrmError>
    decreases formats.len() - from,
{
    if from >= formats.len() {
        None
    } else {
        match reading_fails(order, planes, chosen, formats[from], 0) {
            Some(error) => Some(error),
            None => first_reading_failure(order, planes, chosen, formats, from + 1),
        }
    }
}

/// Whether `list` holds the layouts in which a plane shows a format.
spec fn layouts_are(order: ByteOrder, plane: PlaneProbe, format: u32, list: Seq<u64>) -> bool {
    plane_layouts(order, plane.table, format) matches Ok(modifiers) && modifiers == list
}

/// The layouts of a format that every chosen plane shows, in increasing order.
fn shared_layouts(
    order: ByteOrder,
    planes: &[PlaneProbe],
    chosen: &[usize],
    format: u32,
) -> (result: Result<Vec<u64>, DrmError>)
    requires
        forall|i: int| 0 <= i < chosen.len() ==> #[trigger] chosen@[i] < planes.len(),
    ensures
        match reading_fails(order, planes@, chosen@, format, 0) {
            Some(error) => result == Err::<Vec<u64>, DrmError>(error),
            None => result is Ok && strictly_increasing(result->Ok_0@) && forall|m: u64|
                #[trigger] result->Ok_0@.contains(m) <==> all_planes_take(
                    order,
                    planes@,
                    chosen@,
                    format,
                    m,
                ),
        },
{
    let mut sets: Vec<Vec<u64>> = Vec::new();
    let mut index: usize = 0;
    while index < chosen.len()
        invariant
            index <= chosen.len(),
            sets.len() == index,
            forall|i: int| 0 <= i < chosen.len() ==> #[trigger] chosen@[i] < planes.len(),
            reading_fails(order, planes@, chosen@, format, 0) == reading_fails(
                order,
                planes@,
                chosen@,
                format,
                index as int,
            ),
            forall|i: int|
                #![trigger sets@[i]]
                #![trigger chosen@[i]]
                0 <= i < index ==> planes@[chosen@[i] as int].formats@.contains(format)
                    && layouts_are(order, planes@[chosen@[i] as int], format, sets@[i]@),
        decreases chosen.len() - index,
    {
        let plane = &planes[chosen[index]];
        let none: Vec<u64> = Vec::new();
        if !contains_u32(plane.formats.as_slice(), format) {
            proof {
                assert forall|m: u64| !all_planes_take(order, planes@, chosen@, format, m) by {
                    let at = chosen@[index as int];
                }
            }
            return Ok(none);
        }
        let modifiers = match plane_modifiers(order, &plane.table, format) {
            Err(error) => return Err(error),
            Ok(modifiers) => modifiers,
        };
        if modifiers.len() == 0 {
            proof {
                assert forall|m: u64| !all_planes_take(order, planes@, chosen@, format, m) by {
                    let at = chosen@[index as int];
                }
            }
            return Ok(none);
        }
        sets.push(modifiers);
        index += 1;
    }
    let shared = intersect_modifier_sets(sets.as_slice());
    proof {
        assert forall|m: u64| #[trigger] shared@.contains(m) <==> all_planes_take(
            order,
            planes@,
            chosen@,
            format,
            m,
        ) by {
            if shared@.contains(m) {
                assert forall|i: int| 0 <= i < chosen.len() implies plane_takes(
                    order,
                    planes@[#[trigger] chosen@[i] as int],
                    format,
                    m,
                ) by {
                    assert(sets@[i]@.contains(m));
                }
            }
            if all_planes_take(order, planes@, chosen@, format, m) {
                assert forall|i: int| 0 <= i < sets@.len() implies (
                #[trigger] sets@[i])@.contains(m) by {
                    assert(plane_takes(order, planes@[chosen@[i] as int], format, m));
                }
            }
        }
    }
    Ok(shared)
}

/// Whether `formats` says exactly which formats and layouts every chosen plane
/// shows, among the candidates.
pub open spec fn is_scanout_intersection(
    order: ByteOrder,
    planes: Seq<PlaneProbe>,
    chosen: Seq<usize>,
    formats: Map<u32, Vec<u64>>,
    candidates: Seq<u32>,
) -> bool {
    &&& forall|f: u32| #[trigger]
        formats.dom().contains(f) ==> candidates.contains(f) && formats[f]@.len() > 0
            && strictly_increasing(formats[f]@)
    &&& forall|f: u32, m: u64|
        #![trigger all_planes_take(order, planes, chosen, f, m)]
        candidates.contains(f) && all_planes_take(order, planes, chosen, f, m) <==> supports(
            formats,
            f,
            m,
        )
}

/// Whether a format and layout are among `formats`.
pub open spec fn supports(formats: Map<u32, Vec<u64>>, fourcc: u32, modifier: u64) -> bool {
    formats.dom().contains(fourcc) && formats[fourcc]@.contains(modifier)
}

/// Find the formats and layouts that every chosen primary plane shows.
pub fn scanout_format_intersection(
    order: ByteOrder,
    planes: &[PlaneProbe],
    chosen: &[usize],
) -> (result: Result<HashMap<u32, Vec<u64>>, DrmError>)
    requires
        forall|i: int| 0 <= i < chosen.len() ==> #[trigger] chosen@[i] < planes.len(),
    ensures
        match first_reading_failure(order, planes@, chosen@, scanout_candidates(), 0) {
            Some(error) => result == Err::<HashMap<u32, Vec<u64>>, DrmError>(error),
            None => result is Ok && is_scanout_intersection(
                order,
                planes@,
                chosen@,
                result->Ok_0@,
                scanout_candidates(),
            ),
        },
{
    broadcast use vstd::std_specs::hash::group_hash_axioms;

    let candidates = [ARGB8888, XRGB8888, ABGR8888, XBGR8888, ABGR2101010, XBGR2101010];
    assert(candidates@ =~= scanout_candidates());
    let mut formats: HashMap<u32, Vec<u64>> = HashMap::new();
    let mut index: usize = 0;
    while index < 6
        invariant
            index <= 6,
            candidates@ == scanout_candidates(),
            forall|i: int| 0 <= i < chosen.len() ==> #[trigger] chosen@[i] < planes.len(),
            first_reading_failure(order, planes@, chosen@, scanout_candidates(), 0)
                == first_reading_failure(
                order,
                planes@,
                chosen@,
                scanout_candidates(),
                index as int,
            ),
            is_scanout_intersection(
                order,
                planes@,
                chosen@,
                formats@,
                scanout_candidates().take(index as int),
            ),
        decreases 6 - index,
    {
        let format: u32 = candidates[index];
        let ghost before = formats@;
        let ghost seen = scanout_candidates().take(index as int);
        let ghost now = scanout_candidates().take(index + 1);
        assert(now =~= seen.push(format));
        proof {
            crate::seqs::lemma_push_contains(seen, format);
        }
        let shared = match shared_layouts(order, planes, chosen, format) {
            Ok(shared) => shared,
            Err(error) => return Err(error),
        };
        let ghost layouts = shared@;
        let some = shared.len() > 0;
        assert(!seen.contains(format)) by {
            if seen.contains(format) {
                let k = choose|k: int| 0 <= k < seen.len() && seen[k] == format;
                assert(scanout_candidates()[k] == scanout_candidates()[index as int]);
            }
        }
        assert(!before.dom().contains(format));
        if some {
            formats.insert(format, shared);
        }
        proof {
            assert forall|f: u32, m: u64|
                #![trigger all_planes_take(order, planes@, chosen@, f, m)]
                now.contains(f) && all_planes_take(order, planes@, chosen@, f, m) <==> supports(
                    formats@,
                    f,
                    m,
                ) by {
                if f == format {
                    assert(layouts.contains(m) <==> all_planes_take(
                        order,
                        planes@,
                        chosen@,
                        f,
                        m,
                    ));
                } else {
                    assert(supports(formats@, f, m) == supports(before, f, m));
                }
            }
        }
        index += 1;
    }
    assert(scanout_candidates().take(6) =~= scanout_candidates());
    Ok(formats)
}

/// Whether a client buffer with the given format and layout can be shown as it
/// is.
pub fn scanout_formats_support(
    formats: &HashMap<u32, Vec<u64>>,
    fourcc: u32,
    modifier: u64,
) -> (supported: bool)
    ensures
        supported == supports(formats@, fourcc, modifier),
{
    broadcast use vstd::std_specs::hash::group_hash_axioms;

    match formats.get(&fourcc) {
        Some(modifiers) => contains_u64(modifiers.as_slice(), modifier),
        None => false,
    }
}

/// A format with the layouts in which it can be shown.
#[derive(Debug)]
pub struct DmabufFormat {
    pub fourcc: u32,
    pub modifiers: Vec<u64>,
}

/// The formats in which client buffers may be shown, in increasing order.
pub open spec fn sorted_candidates() -> Seq<u32> {
    seq![ABGR2101010, XBGR2101010, ABGR8888, XBGR8888, ARGB8888, XRGB8888]
}

/// Whether `list` holds exactly the supported formats with their layouts, in
/// increasing order.
pub open spec fn is_format_list(formats: Map<u32, Vec<u64>>, list: Seq<DmabufFormat>) -> bool {
    &&& forall|i: int, j: int|
        #![trigger list[i], list[j]]
        0 <= i < j < list.len() ==> list[i].fourcc < list[j].fourcc
    &&& forall|i: int|
        #![trigger list[i]]
        0 <= i < list.len() ==> formats.dom().contains(list[i].fourcc) && list[i].modifiers@
            == formats[list[i].fourcc]@
    &&& forall|f: u32| #[trigger]
        formats.dom().contains(f) ==> exists|i: int|
            0 <= i < list.len() && (#[trigger] list[i]).fourcc == f
}

/// The supported formats are among the candidates.
pub open spec fn only_candidates(formats: Map<u32, Vec<u64>>) -> bool {
    forall|f: u32| #[trigger] formats.dom().contains(f) ==> scanout_candidates().contains(f)
}

/// List the supported formats with their layouts, in increasing order.
pub fn dmabuf_scanout_formats(formats: &HashMap<u32, Vec<u64>>) -> (list: Vec<DmabufFormat>)
    requires
        only_candidates(formats@),
    ensures
        is_format_list(formats@, list@),
{
    broadcast use vstd::std_specs::hash::group_hash_axioms;

    let candidates = [ABGR2101010, XBGR2101010, ABGR8888, XBGR8888, ARGB8888, XRGB8888];
    assert(candidates@ =~= sorted_candidates());
    let mut list: Vec<DmabufFormat> = Vec::new();
    let mut index: usize = 0;
    while index < 6
        invariant
            index <= 6,
            candidates@ == sorted_candidates(),
            forall|i: int, j: int|
                #![trigger list@[i], list@[j]]
                0 <= i < j < list@.len() ==> list@[i].fourcc < list@[j].fourcc,
            forall|i: int|
                #![trigger list@[i]]
                0 <= i < list@.len() ==> formats@.dom().contains(list@[i].fourcc)
                    && list@[i].modifiers@ == formats@[list@[i].fourcc]@ && (index < 6
                    ==> list@[i].fourcc < candidates@[index as int]),
            forall|k: int|
                0 <= k < index && formats@.dom().contains(#[trigger] candidates@[k]) ==> exists|
                    i: int,
                |
                    0 <= i < list@.len() && (#[trigger] list@[i]).fourcc == candidates@[k],
        decreases 6 - index,
    {
        let fourcc: u32 = candidates[index];
        let ghost before = list@;
        if let Some(modifiers) = formats.get(&fourcc) {
            list.push(DmabufFormat { fourcc, modifiers: copy_u64s(modifiers.as_slice()) });
            assert(list@[before.len() as int].fourcc == fourcc);
        }
        proof {
            assert forall|k: int|
                0 <= k < index + 1 && formats@.dom().contains(
                    #[trigger] candidates@[k],
                ) implies exists|i: int|
                0 <= i < list@.len() && (#[trigger] list@[i]).fourcc == candidates@[k] by {
                if k < index {
                    let i = choose|i: int|
                        0 <= i < before.len() && (#[trigger] before[i]).fourcc == candidates@[k];
                    assert(list@[i].fourcc == candidates@[k]);
                }
            }
        }
        index += 1;
    }
    proof {
        assert forall|f: u32| #[trigger] formats@.dom().contains(f) implies exists|i: int|
            0 <= i < list@.len() && (#[trigger] list@[i]).fourcc == f by {
            assert(scanout_candidates().contains(f));
            let k = choose|k: int| 0 <= k < 6 && scanout_candidates()[k] == f;
            assert(exists|c: int| 0 <= c < 6 && #[trigger] candidates@[c] == f) by {
                assert(candidates@[0] == ABGR2101010 && candidates@[1] == XBGR2101010
                    && candidates@[2] == ABGR8888 && candidates@[3] == XBGR8888 && candidates@[4]
                    == ARGB8888 && candidates@[5] == XRGB8888);
            }
        }
    }
    list
}

/// What tells one output of a display set from another.
pub struct OutputSignature {
    pub name: Seq<char>,
    pub width: u16,
    pub height: u16,
    pub vrefresh: u32,
    pub scale_bits: u32,
    pub x: u32,
    pub y: u32,
    pub has_cursor: bool,
}

/// What tells an output from another.
pub open spec fn output_signature(output: Output) -> OutputSignature {
    OutputSignature {
        name: output.name@,
        width: output.width,
        height: output.height,
        vrefresh: output.vrefresh,
        scale_bits: output.scale.bits,
        x: output.x,
        y: output.y,
        has_cursor: output.cursor is Some,
    }
}

/// Whether two display sets look the same to the compositor: the same
/// framebuffer, the same scanout formats, and the same outputs in the same
/// places.
pub open spec fn same_signature(left: DisplaySet, right: DisplaySet) -> bool {
    &&& left.format == right.format
    &&& left.modifiers@ == right.modifiers@
    &&& left.scanout_formats@.dom() == right.scanout_formats@.dom()
    &&& forall|f: u32| #[trigger]
        left.scanout_formats@.dom().contains(f) ==> left.scanout_formats@[f]@
            == right.scanout_formats@[f]@
    &&& left.color_mode == right.color_mode
    &&& optional_text(left.icc_profile) == optional_text(right.icc_profile)
    &&& left.overlay == right.overlay
    &&& left.outputs@.len() == right.outputs@.len()
    &&& forall|i: int|
        #![trigger left.outputs@[i]]
        0 <= i < left.outputs@.len() ==> output_signature(left.outputs@[i]) == output_signature(
            right.outputs@[i],
        )
}

/// Whether two optional texts are the same.
pub fn same_optional_text(left: &Option<String>, right: &Option<String>) -> (same: bool)
    ensures
        same == (optional_text(*left) == optional_text(*right)),
{
    match (left, right) {
        (None, None) => true,
        (Some(l), Some(r)) => text_equal(l.as_str(), r.as_str()),
        _ => false,
    }
}

/// Whether two tables of formats among the candidates are the same.
fn same_formats(left: &HashMap<u32, Vec<u64>>, right: &HashMap<u32, Vec<u64>>) -> (same: bool)
    requires
        only_candidates(left@),
        only_candidates(right@),
    ensures
        same == (left@.dom() == right@.dom() && forall|f: u32| #[trigger]
            left@.dom().contains(f) ==> left@[f]@ == right@[f]@),
{
    broadcast use vstd::std_specs::hash::group_hash_axioms;

    let candidates = [ARGB8888, XRGB8888, ABGR8888, XBGR8888, ABGR2101010, XBGR2101010];
    assert(candidates@ =~= scanout_candidates());
    let mut index: usize = 0;
    while index < 6
        invariant
            index <= 6,
            candidates@ == scanout_candidates(),
            forall|k: int|
                0 <= k < index ==> (left@.dom().contains(#[trigger] candidates@[k])
                    <==> right@.dom().contains(candidates@[k])) && (left@.dom().contains(
                    candidates@[k],
                ) ==> left@[candidates@[k]]@ == right@[candidates@[k]]@),
        decreases 6 - index,
    {
        let fourcc: u32 = candidates[index];
        let same = match (left.get(&fourcc), right.get(&fourcc)) {
            (None, None) => true,
            (Some(l), Some(r)) => equal_u64s(l.as_slice(), r.as_slice()),
            _ => false,
        };
        if !same {
            proof {
                if left@.dom() == right@.dom() {
                    assert(left@.dom().contains(fourcc));
                }
            }
            return false;
        }
        index += 1;
    }
    proof {
        assert forall|f: u32| left@.dom().contains(f) <==> right@.dom().contains(f) by {
            if left@.dom().contains(f) || right@.dom().contains(f) {
                assert(scanout_candidates().contains(f));
                let k = choose|k: int| 0 <= k < 6 && scanout_candidates()[k] == f;
                assert(candidates@[k] == f);
            }
        }
        assert(left@.dom() =~= right@.dom());
        assert forall|f: u32| #[trigger] left@.dom().contains(f) implies left@[f]@
            == right@[f]@ by {
            let k = choose|k: int| 0 <= k < 6 && scanout_candidates()[k] == f;
            assert(candidates@[k] == f);
        }
    }
    true
}

/// Whether two display sets look the same to the compositor.
pub fn same_displays(left: &DisplaySet, right: &DisplaySet) -> (same: bool)
    requires
        only_candidates(left.scanout_formats@),
        only_candidates(right.scanout_formats@),
    ensures
        same == same_signature(*left, *right),
{
    if left.format != right.format || left.color_mode != right.color_mode || left.overlay
        != right.overlay || left.outputs.len() != right.outputs.len() {
        return false;
    }
    if !equal_u64s(left.modifiers.as_slice(), right.modifiers.as_slice()) || !same_formats(
        &left.scanout_formats,
        &right.scanout_formats,
    ) || !same_optional_text(&left.icc_profile, &right.icc_profile) {
        return false;
    }
    let mut index: usize = 0;
    while index < left.outputs.len()
        invariant
            index <= left.outputs.len(),
            left.outputs.len() == right.outputs.len(),
            forall|i: int|
                #![trigger left.outputs@[i]]
                0 <= i < index ==> output_signature(left.outputs@[i]) == output_signature(
                    right.outputs@[i],
                ),
        decreases left.outputs.len() - index,
    {
        let a = &left.outputs[index];
        let b = &right.outputs[index];
        let same = text_equal(a.name.as_str(), b.name.as_str()) && a.width == b.width && a.height
            == b.height && a.vrefresh == b.vrefresh && a.scale.bits == b.scale.bits && a.x == b.x
            && a.y == b.y && a.cursor.is_some() == b.cursor.is_some();
        assert(same == (output_signature(*a) == output_signature(*b)));
        if !same {
            assert(left.outputs@[index as int] == *a);
            return false;
        }
        index += 1;
    }
    true
}

/// Display sets look the same if and only if they agree in the framebuffer's
/// format and layouts, in the formats that can be shown directly, in the color
/// pipeline and profile and the overlay, and, output by output, in name, mode
/// size, refresh rate, scale, place, and whether there is a cursor plane.
pub proof fn equal_looks_agree_throughout(left: DisplaySet, right: DisplaySet)
    ensures
        same_signature(left, right) <==> {
            &&& left.format == right.format
            &&& left.modifiers@ == right.modifiers@
            &&& forall|f: u32| #[trigger]
                left.scanout_formats@.dom().contains(f)
                    <==> right.scanout_formats@.dom().contains(f)
            &&& forall|f: u32| #[trigger]
                left.scanout_formats@.dom().contains(f) ==> left.scanout_formats@[f]@
                    == right.scanout_formats@[f]@
            &&& left.color_mode == right.color_mode
            &&& left.icc_profile is Some <==> right.icc_profile is Some
            &&& left.icc_profile is Some ==> left.icc_profile->0@ == right.icc_profile->0@
            &&& left.overlay == right.overlay
            &&& left.outputs@.len() == right.outputs@.len()
            &&& forall|i: int|
                #![trigger left.outputs@[i]]
                0 <= i < left.outputs@.len() ==> {
                    &&& left.outputs@[i].name@ == right.outputs@[i].name@
                    &&& left.outputs@[i].width == right.outputs@[i].width
                    &&& left.outputs@[i].height == right.outputs@[i].height
                    &&& left.outputs@[i].vrefresh == right.outputs@[i].vrefresh
                    &&& left.outputs@[i].scale.bits == right.outputs@[i].scale.bits
                    &&& left.outputs@[i].x == right.outputs@[i].x
                    &&& left.outputs@[i].y == right.outputs@[i].y
                    &&& left.outputs@[i].cursor is Some <==> right.outputs@[i].cursor is Some
                }
        },
{
    if same_signature(left, right) {
        assert forall|f: u32|
            left.scanout_formats@.dom().contains(f) <==> right.scanout_formats@.dom().contains(
                f,
            ) by {}
        assert forall|i: int|
            #![trigger left.outputs@[i]]
            0 <= i < left.outputs@.len() implies {
            let a = left.outputs@[i];
            let b = right.outputs@[i];
            &&& a.name@ == b.name@
            &&& a.width == b.width
            &&& a.height == b.height
            &&& a.vrefresh == b.vrefresh
            &&& a.scale.bits == b.scale.bits
            &&& a.x == b.x
            &&& a.y == b.y
            &&& a.cursor is Some <==> b.cursor is Some
        } by {
            assert(output_signature(left.outputs@[i]) == output_signature(right.outputs@[i]));
        }
    } else {
        if forall|f: u32| #[trigger]
            left.scanout_formats@.dom().contains(f) <==> right.scanout_formats@.dom().contains(
                f,
            ) {
            assert(left.scanout_formats@.dom() =~= right.scanout_formats@.dom());
        }
    }
}

/// Whether a number is that of a property with the given name.
pub open spec fn is_called(props: Seq<NamedProperty>, handle: u32, name: Seq<char>) -> bool {
    exists|i: int|
        0 <= i < props.len() && (#[trigger] props[i]).name@ == name && props[i].handle == handle
}

/// Every property of a primary plane is the one of its name; the two optional ones are
/// there exactly if the plane has them.
pub proof fn plane_properties_have_their_names(
    props: &[NamedProperty],
    found: PrimaryPlaneProperties,
)
    requires
        call_ensures(primary_plane_properties, (props,), Ok(found)),
    ensures
        is_called(props@, found.fb_id, "FB_ID"@),
        is_called(props@, found.crtc_id, "CRTC_ID"@),
        is_called(props@, found.src_x, "SRC_X"@),
        is_called(props@, found.src_y, "SRC_Y"@),
        is_called(props@, found.src_w, "SRC_W"@),
        is_called(props@, found.src_h, "SRC_H"@),
        is_called(props@, found.crtc_x, "CRTC_X"@),
        is_called(props@, found.crtc_y, "CRTC_Y"@),
        is_called(props@, found.crtc_w, "CRTC_W"@),
        is_called(props@, found.crtc_h, "CRTC_H"@),
        found.in_fence_fd matches Some(fence) ==> is_called(props@, fence, "IN_FENCE_FD"@),
        found.fb_damage_clips matches Some(clips) ==> is_called(props@, clips, "FB_DAMAGE_CLIPS"@),
        found.in_fence_fd is None ==> forall|i: int|
            0 <= i < props@.len() ==> (#[trigger] props@[i]).name@ != "IN_FENCE_FD"@,
        found.fb_damage_clips is None ==> forall|i: int|
            0 <= i < props@.len() ==> (#[trigger] props@[i]).name@ != "FB_DAMAGE_CLIPS"@,
{
    properties_are_found_by_name(props@, "FB_ID"@);
    properties_are_found_by_name(props@, "CRTC_ID"@);
    properties_are_found_by_name(props@, "SRC_X"@);
    properties_are_found_by_name(props@, "SRC_Y"@);
    properties_are_found_by_name(props@, "SRC_W"@);
    properties_are_found_by_name(props@, "SRC_H"@);
    properties_are_found_by_name(props@, "CRTC_X"@);
    properties_are_found_by_name(props@, "CRTC_Y"@);
    properties_are_found_by_name(props@, "CRTC_W"@);
    properties_are_found_by_name(props@, "CRTC_H"@);
    properties_are_found_by_name(props@, "IN_FENCE_FD"@);
    properties_are_found_by_name(props@, "FB_DAMAGE_CLIPS"@);
}

/// Every property of a cursor plane is the one of its name.
pub proof fn cursor_properties_have_their_names(
    handle: u32,
    props: &[NamedProperty],
    plane: CursorPlane,
)
    requires
        call_ensures(build_cursor_plane, (handle, props), Ok(plane)),
    ensures
        plane.handle == handle,
        is_called(props@, plane.props.plane_fb_id, "FB_ID"@),
        is_called(props@, plane.props.plane_crtc_id, "CRTC_ID"@),
        is_called(props@, plane.props.plane_src_x, "SRC_X"@),
        is_called(props@, plane.props.plane_src_y, "SRC_Y"@),
        is_called(props@, plane.props.plane_src_w, "SRC_W"@),
        is_called(props@, plane.props.plane_src_h, "SRC_H"@),
        is_called(props@, plane.props.plane_crtc_x, "CRTC_X"@),
        is_called(props@, plane.props.plane_crtc_y, "CRTC_Y"@),
        is_called(props@, plane.props.plane_crtc_w, "CRTC_W"@),
        is_called(props@, plane.props.plane_crtc_h, "CRTC_H"@),
{
    properties_are_found_by_name(props@, "FB_ID"@);
    properties_are_found_by_name(props@, "CRTC_ID"@);
    properties_are_found_by_name(props@, "SRC_X"@);
    properties_are_found_by_name(props@, "SRC_Y"@);
    properties_are_found_by_name(props@, "SRC_W"@);
    properties_are_found_by_name(props@, "SRC_H"@);
    properties_are_found_by_name(props@, "CRTC_X"@);
    properties_are_found_by_name(props@, "CRTC_Y"@);
    properties_are_found_by_name(props@, "CRTC_W"@);
    properties_are_found_by_name(props@, "CRTC_H"@);
}

/// Every property of a connector and its controller is the one of its name; what was read
/// apart from them is taken as it is.
pub proof fn output_properties_have_their_names(
    connector: &[NamedProperty],
    crtc: &[NamedProperty],
    colorspace: Option<(u32, u64, u64)>,
    gamma_size: Option<u32>,
    found: OutputAtomicProperties,
)
    requires
        call_ensures(output_properties, (connector, crtc, colorspace, gamma_size), Ok(found)),
    ensures
        is_called(connector@, found.connector_crtc_id, "CRTC_ID"@),
        is_called(crtc@, found.crtc_mode_id, "MODE_ID"@),
        is_called(crtc@, found.crtc_active, "ACTIVE"@),
        found.crtc_out_fence_ptr matches Some(handle) ==> is_called(
            crtc@,
            handle,
            "OUT_FENCE_PTR"@,
        ),
        found.connector_hdr_metadata matches Some(handle) ==> is_called(
            connector@,
            handle,
            "HDR_OUTPUT_METADATA"@,
        ),
        found.connector_max_bpc matches Some(handle) ==> is_called(connector@, handle, "max bpc"@),
        found.crtc_gamma_lut is Some ==> is_called(
            crtc@,
            (found.crtc_gamma_lut->0).0,
            "GAMMA_LUT"@,
        ) && gamma_size == Some((found.crtc_gamma_lut->0).1),
        found.connector_colorspace == colorspace,
{
    properties_are_found_by_name(connector@, "CRTC_ID"@);
    properties_are_found_by_name(crtc@, "MODE_ID"@);
    properties_are_found_by_name(crtc@, "ACTIVE"@);
    properties_are_found_by_name(crtc@, "OUT_FENCE_PTR"@);
    properties_are_found_by_name(connector@, "HDR_OUTPUT_METADATA"@);
    properties_are_found_by_name(connector@, "max bpc"@);
    properties_are_found_by_name(crtc@, "GAMMA_LUT"@);
}

proof fn lemma_variant(variants: Seq<EnumVariant>, name: Seq<char>)
    ensures
        variant_value(variants, name) matches Some(value) ==> exists|i: int|
            0 <= i < variants.len() && (#[trigger] variants[i]).name@ == name && variants[i].value
                == value,
    decreases variants.len(),
{
    if variants.len() > 0 && variants[0].name@ != name {
        let rest = variants.skip(1);
        lemma_variant(rest, name);
        if variant_value(rest, name) is Some {
            let value = variant_value(rest, name)->0;
            let i = choose|i: int|
                0 <= i < rest.len() && (#[trigger] rest[i]).name@ == name && rest[i].value == value;
            assert(variants[i + 1].name@ == name && variants[i + 1].value == value);
        }
    }
}

/// The two values of a colorspace property are those of the variants of their names.
pub proof fn colorspaces_have_their_names(
    handle: u32,
    variants: &[EnumVariant],
    found: (u32, u64, u64),
)
    requires
        call_ensures(colorspace_prop, (handle, variants), Some(found)),
    ensures
        found.0 == handle,
        exists|i: int|
            0 <= i < variants@.len() && (#[trigger] variants@[i]).name@ == "Default"@
                && variants@[i].value == found.1,
        exists|i: int|
            0 <= i < variants@.len() && (#[trigger] variants@[i]).name@ == "BT2020_RGB"@
                && variants@[i].value == found.2,
{
    lemma_variant(variants@, "Default"@);
    lemma_variant(variants@, "BT2020_RGB"@);
}

/// A cursor plane is usable only if it is one, takes linear memory with alpha, and has all
/// its properties; it keeps its number and its controllers.
pub proof fn usable_cursors_show_sprites(
    order: ByteOrder,
    plane: PlaneProbe,
    props: &[NamedProperty],
    usable: UsableCursor,
)
    requires
        call_ensures(usable_cursor, (order, &plane, props), Some(usable)),
    ensures
        plane.role == Some(PlaneRole::Cursor),
        plane.formats@.contains(ARGB8888),
        plane_layouts(order, plane.table, ARGB8888) is Ok,
        plane_layouts(order, plane.table, ARGB8888)->Ok_0.contains(0u64),
        usable.plane.handle == plane.handle,
        usable.possible_crtcs@ == plane.possible_crtcs@,
{
}

/// A controller gets a cursor plane that it can use, no plane is given twice, and a
/// controller goes without only where every plane it can use is given away.
pub proof fn cursor_planes_are_given_where_they_fit(
    crtcs: &[u32],
    cursors: &[UsableCursor],
    given: Vec<Option<usize>>,
    i: int,
    j: int,
    plane: usize,
)
    requires
        call_ensures(assign_cursors, (crtcs, cursors), given),
        0 <= i < crtcs@.len(),
        0 <= j < crtcs@.len(),
        plane < cursors@.len(),
    ensures
        given@.len() == crtcs@.len(),
        given@[i] matches Some(own) ==> own < cursors@.len()
            && cursors@[own as int].possible_crtcs@.contains(crtcs@[i]),
        i != j && given@[i] is Some ==> given@[i] != given@[j],
        given@[i] is None && cursors@[plane as int].possible_crtcs@.contains(crtcs@[i]) ==> exists|
            k: int,
        |
            0 <= k < given@.len() && #[trigger] given@[k] == Some(plane),
{
    let all = crtcs@;
    let planes = cursors@;
    let n = planes.len() as int;
    assert(cursors_well_assigned(all, planes, given@));
    let choices = choose|choices: Seq<Vec<usize>>|
        {
            &&& choices.len() == all.len()
            &&& forall|i: int|
                0 <= i < all.len() ==> is_cursor_choice(planes, all[i], (#[trigger] choices[i])@)
            &&& #[trigger] is_matching(choices, n, given@)
            &&& forall|other: Seq<Option<usize>>|
                is_matching(choices, n, other) ==> (#[trigger] served(other)).len() <= served(
                    given@,
                ).len()
            &&& forall|c: int|
                0 <= c < given@.len() && (#[trigger] given@[c]) is None ==> !can_serve(
                    choices,
                    n,
                    served_below(given@, c).insert(c),
                )
        };
    assert(is_cursor_choice(planes, all[i], choices[i]@));
    if given@[i] is Some {
        let own = given@[i]->0 as int;
        assert(allowed(choices, n, i, own));
        assert(lists_plane(choices[i]@, own));
        if i < j {
            assert(given@[j] is Some ==> given@[j]->0 != given@[i]->0);
        } else if j < i {
            assert(given@[j] is Some ==> given@[j]->0 != given@[i]->0);
        }
    } else if planes[plane as int].possible_crtcs@.contains(all[i]) && !(exists|k: int|
        0 <= k < given@.len() && #[trigger] given@[k] == Some(plane)) {
        let more = given@.update(i, Some(plane));
        assert(lists_plane(choices[i]@, plane as int));
        let at = choose|at: int|
            0 <= at < choices[i]@.len() && #[trigger] choices[i]@[at] == plane;
        assert(allowed(choices, n, i, plane as int));
        assert forall|c: int| 0 <= c < more.len() && (#[trigger] more[c]) is Some implies allowed(
            choices,
            n,
            c,
            more[c]->0 as int,
        ) by {
            if c != i {
                assert(given@[c] is Some);
            }
        }
        assert forall|c: int, d: int|
            0 <= c < d < more.len() && (#[trigger] more[c]) is Some && (
            #[trigger] more[d]) is Some implies more[c]->0 != more[d]->0 by {
            if c == i {
                assert(given@[d] != Some(plane));
            } else if d == i {
                assert(given@[c] != Some(plane));
            } else {
                assert(given@[c] is Some && given@[d] is Some);
            }
        }
        assert(is_matching(choices, n, more));
        assert(served_below(given@, i).insert(i).subset_of(served(more)));
        assert(can_serve(choices, n, served_below(given@, i).insert(i)));
    }
}

/// A client's format and layout can be shown exactly if the format is one of the six that
/// are looked for, and every plane in use lists the format and takes the layout.
pub proof fn shown_formats_suit_every_plane(
    order: ByteOrder,
    planes: &[PlaneProbe],
    chosen: &[usize],
    formats: HashMap<u32, Vec<u64>>,
    fourcc: u32,
    modifier: u64,
)
    requires
        chosen@.len() > 0,
        call_ensures(scanout_format_intersection, (order, planes, chosen), Ok(formats)),
    ensures
        formats@.contains_key(fourcc) && formats@[fourcc]@.contains(modifier) <==> {
            &&& {
                ||| fourcc == ARGB8888 || fourcc == XRGB8888
                ||| fourcc == ABGR8888 || fourcc == XBGR8888
                ||| fourcc == ABGR2101010 || fourcc == XBGR2101010
            }
            &&& forall|i: int|
                #![trigger chosen@[i]]
                0 <= i < chosen@.len() ==> {
                    let plane = planes@[chosen@[i] as int];
                    &&& plane.formats@.contains(fourcc)
                    &&& plane_layouts(order, plane.table, fourcc) is Ok
                    &&& plane_layouts(order, plane.table, fourcc)->Ok_0.contains(modifier)
                }
        },
{
    let candidates = scanout_candidates();
    assert(candidates[0] == ARGB8888 && candidates[1] == XRGB8888 && candidates[2] == ABGR8888
        && candidates[3] == XBGR8888 && candidates[4] == ABGR2101010 && candidates[5]
        == XBGR2101010);
    assert(candidates.contains(fourcc) <==> fourcc == ARGB8888 || fourcc == XRGB8888 || fourcc
        == ABGR8888 || fourcc == XBGR8888 || fourcc == ABGR2101010 || fourcc == XBGR2101010);
    assert(candidates.contains(fourcc) && all_planes_take(
        order,
        planes@,
        chosen@,
        fourcc,
        modifier,
    ) <==> supports(formats@, fourcc, modifier));
    if supports(formats@, fourcc, modifier) {
        assert forall|i: int| #![trigger chosen@[i]] 0 <= i < chosen@.len() implies {
            let plane = planes@[chosen@[i] as int];
            &&& plane.formats@.contains(fourcc)
            &&& plane_layouts(order, plane.table, fourcc) is Ok
            &&& plane_layouts(order, plane.table, fourcc)->Ok_0.contains(modifier)
        } by {
            assert(plane_takes(order, planes@[chosen@[i] as int], fourcc, modifier));
        }
    }
}

/// The list that clients are told holds each format once, with all its layouts, and no
/// other.
pub proof fn clients_are_told_the_formats(
    formats: HashMap<u32, Vec<u64>>,
    list: Vec<DmabufFormat>,
    i: int,
    j: int,
    fourcc: u32,
)
    requires
        call_ensures(dmabuf_scanout_formats, (&formats,), list),
        0 <= i < list@.len(),
        0 <= j < list@.len(),
    ensures
        formats@.contains_key(list@[i].fourcc),
        list@[i].modifiers@ == formats@[list@[i].fourcc]@,
        i < j ==> list@[i].fourcc < list@[j].fourcc,
        formats@.contains_key(fourcc) ==> exists|k: int|
            0 <= k < list@.len() && (#[trigger] list@[k]).fourcc == fourcc,
{
}

/// Display sets are taken for the same only if, output by output, name, mode size, refresh
/// rate, scale and place agree.
pub proof fn same_displays_have_the_same_outputs(
    left: DisplaySet,
    right: DisplaySet,
    same: bool,
    index: int,
)
    requires
        call_ensures(same_displays, (&left, &right), same),
        0 <= index < left.outputs@.len(),
    ensures
        same ==> left.outputs@.len() == right.outputs@.len(),
        same ==> {
            let a = left.outputs@[index];
            let b = right.outputs@[index];
            &&& a.name@ == b.name@
            &&& a.width == b.width && a.height == b.height
            &&& a.vrefresh == b.vrefresh
            &&& a.scale.bits == b.scale.bits
            &&& a.x == b.x && a.y == b.y
            &&& a.cursor is Some <==> b.cursor is Some
        },
        same ==> left.format == right.format && left.modifiers@ == right.modifiers@
            && left.color_mode == right.color_mode && left.overlay == right.overlay,
{
    equal_looks_agree_throughout(left, right);
    let a = left.outputs@[index];
}

} // verus!
