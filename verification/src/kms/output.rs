//! Driven outputs and the display objects behind them.

use vstd::prelude::*;
use crate::kms::color::EdidColorCapabilities;
use crate::kms::error::DrmError;
use crate::kms::modes::OutputMode;
use crate::text::text_equal;

verus! {

/// Whether an output is built into the machine.
#[derive(Debug, Clone, Copy, PartialEq, Eq, Structural)]
pub enum OutputKind {
    Internal,
    External,
}

/// An output's scale factor, by the bits of its floating-point number.
#[derive(Debug, Clone, Copy, PartialEq, Eq, Structural)]
pub struct Scale {
    pub bits: u32,
}

/// The properties of a connector and its controller that an update sets.
#[derive(Debug, Clone, Copy)]
pub struct OutputAtomicProperties {
    pub connector_crtc_id: u32,
    pub crtc_mode_id: u32,
    pub crtc_active: u32,
    /// Where the controller reports completion of an update.
    pub crtc_out_fence_ptr: Option<u32>,
    /// The connector's colorspace property with the values for the default
    /// colorspace and for BT.2020.
    pub connector_colorspace: Option<(u32, u64, u64)>,
    pub connector_hdr_metadata: Option<u32>,
    pub connector_max_bpc: Option<u32>,
    /// The controller's gamma table property and the table's size.
    pub crtc_gamma_lut: Option<(u32, u32)>,
}

/// The properties of a primary plane that an update sets.
#[derive(Debug, Clone, Copy, PartialEq, Eq, Structural)]
pub struct PrimaryPlaneProperties {
    pub fb_id: u32,
    pub crtc_id: u32,
    pub src_x: u32,
    pub src_y: u32,
    pub src_w: u32,
    pub src_h: u32,
    pub crtc_x: u32,
    pub crtc_y: u32,
    pub crtc_w: u32,
    pub crtc_h: u32,
    /// Where the plane takes a fence to wait for.
    pub in_fence_fd: Option<u32>,
    /// Where the plane takes a damage hint.
    pub fb_damage_clips: Option<u32>,
}

/// A primary plane.
#[derive(Debug, Clone, Copy, PartialEq, Eq, Structural)]
pub struct PrimaryPlane {
    pub handle: u32,
    pub props: PrimaryPlaneProperties,
    /// A ready-made damage hint that covers the whole output.
    pub full_damage_blob: Option<u64>,
}

/// The properties of a cursor plane that an update sets.
#[derive(Debug, Clone, Copy, PartialEq, Eq, Structural)]
pub struct CursorPlaneProperties {
    pub plane_fb_id: u32,
    pub plane_crtc_id: u32,
    pub plane_src_x: u32,
    pub plane_src_y: u32,
    pub plane_src_w: u32,
    pub plane_src_h: u32,
    pub plane_crtc_x: u32,
    pub plane_crtc_y: u32,
    pub plane_crtc_w: u32,
    pub plane_crtc_h: u32,
}

/// A cursor plane.
#[derive(Debug, Clone, Copy, PartialEq, Eq, Structural)]
pub struct CursorPlane {
    pub handle: u32,
    pub props: CursorPlaneProperties,
}

/// A connector that is driven by a controller, showing its part of the desktop.
#[derive(Debug)]
pub struct Output {
    pub connector: u32,
    pub name: String,
    pub crtc: u32,
    pub primary: PrimaryPlane,
    pub width: u16,
    pub height: u16,
    pub vrefresh: u32,
    /// The blob that describes the mode to the kernel.
    pub mode_blob: u64,
    pub x: u32,
    pub y: u32,
    pub physical_size_mm: Option<(u32, u32)>,
    pub kind: OutputKind,
    pub scale: Scale,
    pub props: OutputAtomicProperties,
    pub cursor: Option<CursorPlane>,
    pub available_modes: Vec<OutputMode>,
    pub color_caps: EdidColorCapabilities,
}

/// An optional handle is not zero.
pub open spec fn optional_handle_ok(handle: Option<u32>) -> bool {
    handle is Some ==> handle->0 != 0
}

impl OutputAtomicProperties {
    /// No property is numbered zero.
    pub open spec fn wf(self) -> bool {
        &&& self.connector_crtc_id != 0
        &&& self.crtc_mode_id != 0
        &&& self.crtc_active != 0
        &&& optional_handle_ok(self.crtc_out_fence_ptr)
        &&& self.connector_colorspace matches Some((handle, _, _)) ==> handle != 0
        &&& optional_handle_ok(self.connector_hdr_metadata)
        &&& optional_handle_ok(self.connector_max_bpc)
        &&& self.crtc_gamma_lut matches Some((handle, _)) ==> handle != 0
    }
}

impl PrimaryPlane {
    /// Neither the plane nor any of its properties is numbered zero.
    pub open spec fn wf(self) -> bool {
        &&& self.handle != 0
        &&& self.props.fb_id != 0
        &&& self.props.crtc_id != 0
        &&& self.props.src_x != 0
        &&& self.props.src_y != 0
        &&& self.props.src_w != 0
        &&& self.props.src_h != 0
        &&& self.props.crtc_x != 0
        &&& self.props.crtc_y != 0
        &&& self.props.crtc_w != 0
        &&& self.props.crtc_h != 0
        &&& optional_handle_ok(self.props.in_fence_fd)
        &&& optional_handle_ok(self.props.fb_damage_clips)
    }
}

impl CursorPlane {
    /// Neither the plane nor any of its properties is numbered zero.
    pub open spec fn wf(self) -> bool {
        &&& self.handle != 0
        &&& self.props.plane_fb_id != 0
        &&& self.props.plane_crtc_id != 0
        &&& self.props.plane_src_x != 0
        &&& self.props.plane_src_y != 0
        &&& self.props.plane_src_w != 0
        &&& self.props.plane_src_h != 0
        &&& self.props.plane_crtc_x != 0
        &&& self.props.plane_crtc_y != 0
        &&& self.props.plane_crtc_w != 0
        &&& self.props.plane_crtc_h != 0
    }
}

impl Output {
    /// All display objects are real, and the output lies within the coordinate
    /// range.
    pub open spec fn wf(self) -> bool {
        &&& self.connector != 0
        &&& self.crtc != 0
        &&& self.props.wf()
        &&& self.primary.wf()
        &&& self.cursor is Some ==> self.cursor->0.wf()
        &&& self.x + self.width <= i32::MAX
        &&& self.y + self.height <= i32::MAX
    }
}

/// Whether every output is well formed.
pub open spec fn outputs_wf(outputs: Seq<Output>) -> bool {
    forall|i: int| 0 <= i < outputs.len() ==> (#[trigger] outputs[i]).wf()
}

/// Whether every primary plane can wait for a fence.
pub open spec fn all_take_fences(outputs: Seq<Output>) -> bool {
    forall|i: int|
        0 <= i < outputs.len() ==> (#[trigger] outputs[i]).primary.props.in_fence_fd is Some
}

/// Whether every controller reports completion.
pub open spec fn all_report_completion(outputs: Seq<Output>) -> bool {
    forall|i: int|
        0 <= i < outputs.len() ==> (#[trigger] outputs[i]).props.crtc_out_fence_ptr is Some
}

/// Whether every output has a cursor plane.
pub open spec fn all_have_cursor(outputs: Seq<Output>) -> bool {
    forall|i: int| 0 <= i < outputs.len() ==> (#[trigger] outputs[i]).cursor is Some
}

/// Whether every primary plane can wait for a fence.
pub fn all_planes_take_fences(outputs: &[Output]) -> (all: bool)
    ensures
        all == all_take_fences(outputs@),
{
    let mut index: usize = 0;
    while index < outputs.len()
        invariant
            index <= outputs.len(),
            forall|i: int|
                0 <= i < index ==> (#[trigger] outputs@[i]).primary.props.in_fence_fd is Some,
        decreases outputs.len() - index,
    {
        if outputs[index].primary.props.in_fence_fd.is_none() {
            assert(outputs@[index as int].primary.props.in_fence_fd is None);
            return false;
        }
        index += 1;
    }
    true
}

/// Whether every controller reports completion.
pub fn all_crtcs_report_completion(outputs: &[Output]) -> (all: bool)
    ensures
        all == all_report_completion(outputs@),
{
    let mut index: usize = 0;
    while index < outputs.len()
        invariant
            index <= outputs.len(),
            forall|i: int|
                0 <= i < index ==> (#[trigger] outputs@[i]).props.crtc_out_fence_ptr is Some,
        decreases outputs.len() - index,
    {
        if outputs[index].props.crtc_out_fence_ptr.is_none() {
            assert(outputs@[index as int].props.crtc_out_fence_ptr is None);
            return false;
        }
        index += 1;
    }
    true
}

/// Whether every output has a cursor plane.
pub fn all_outputs_have_cursor(outputs: &[Output]) -> (all: bool)
    ensures
        all == all_have_cursor(outputs@),
{
    let mut index: usize = 0;
    while index < outputs.len()
        invariant
            index <= outputs.len(),
            forall|i: int| 0 <= i < index ==> (#[trigger] outputs@[i]).cursor is Some,
        decreases outputs.len() - index,
    {
        if outputs[index].cursor.is_none() {
            assert(outputs@[index as int].cursor is None);
            return false;
        }
        index += 1;
    }
    true
}

/// A property of a display object: its name and number.
#[derive(Debug)]
pub struct NamedProperty {
    pub name: String,
    pub handle: u32,
}

/// The number of the first property called `name`.
pub open spec fn property_named(props: Seq<NamedProperty>, name: Seq<char>) -> Option<u32>
    decreases props.len(),
{
    if props.len() == 0 {
        None
    } else if props[0].name@ == name {
        Some(props[0].handle)
    } else {
        property_named(props.skip(1), name)
    }
}

/// Find a property by name.
pub fn optional_prop(props: &[NamedProperty], name: &str) -> (handle: Option<u32>)
    ensures
        handle == property_named(props@, name@),
{
    let mut index: usize = 0;
    assert(props@.skip(0) =~= props@);
    while index < props.len()
        invariant
            index <= props.len(),
            property_named(props@, name@) == property_named(props@.skip(index as int), name@),
        decreases props.len() - index,
    {
        assert(props@.skip(index as int).skip(1) =~= props@.skip(index + 1));
        if text_equal(props[index].name.as_str(), name) {
            return Some(props[index].handle);
        }
        index += 1;
    }
    None
}

/// Find a property by name, where there must be one.
pub fn required_prop(props: &[NamedProperty], name: &'static str) -> (result: Result<u32, DrmError>)
    ensures
        match property_named(props@, name@) {
            Some(handle) => result == Ok::<u32, DrmError>(handle),
            None => result == Err::<u32, DrmError>(DrmError::MissingProperty(name)),
        },
{
    match optional_prop(props, name) {
        Some(handle) => Ok(handle),
        None => Err(DrmError::MissingProperty(name)),
    }
}

/// A property is found exactly if one is called so, and is then one of that name.
pub proof fn properties_are_found_by_name(props: Seq<NamedProperty>, name: Seq<char>)
    ensures
        property_named(props, name) is Some <==> exists|i: int|
            0 <= i < props.len() && (#[trigger] props[i]).name@ == name,
        property_named(props, name) matches Some(handle) ==> exists|i: int|
            0 <= i < props.len() && (#[trigger] props[i]).name@ == name && props[i].handle
                == handle,
    decreases props.len(),
{
    if props.len() > 0 {
        if props[0].name@ != name {
            let rest = props.skip(1);
            properties_are_found_by_name(rest, name);
            if property_named(rest, name) is Some {
                let handle = property_named(rest, name)->0;
                let i = choose|i: int|
                    0 <= i < rest.len() && (#[trigger] rest[i]).name@ == name && rest[i].handle
                        == handle;
                assert(props[i + 1].name@ == name && props[i + 1].handle == handle);
            }
            if exists|i: int| 0 <= i < props.len() && (#[trigger] props[i]).name@ == name {
                let i = choose|i: int| 0 <= i < props.len() && (#[trigger] props[i]).name@ == name;
                assert(rest[i - 1].name@ == name);
            }
        }
    }
}

/// Looking a property up gives one of that name, or says that none is called so.
pub proof fn lookups_go_by_name(
    props: &[NamedProperty],
    name: &'static str,
    found: Option<u32>,
    result: Result<u32, DrmError>,
)
    requires
        call_ensures(optional_prop, (props, name), found),
        call_ensures(required_prop, (props, name), result),
    ensures
        found is Some <==> exists|i: int|
            0 <= i < props@.len() && (#[trigger] props@[i]).name@ == name@,
        found matches Some(handle) ==> exists|i: int|
            0 <= i < props@.len() && (#[trigger] props@[i]).name@ == name@ && props@[i].handle
                == handle,
        result is Ok <==> found is Some,
        result is Ok ==> Some(result->Ok_0) == found,
        result is Err ==> result->Err_0 is MissingProperty,
{
    properties_are_found_by_name(props@, name@);
}

/// A thing holds of all outputs exactly if none lacks it.
pub proof fn all_outputs_means_each(
    outputs: &[Output],
    fences: bool,
    completion: bool,
    cursors: bool,
)
    requires
        call_ensures(all_planes_take_fences, (outputs,), fences),
        call_ensures(all_crtcs_report_completion, (outputs,), completion),
        call_ensures(all_outputs_have_cursor, (outputs,), cursors),
    ensures
        fences <==> forall|i: int|
            0 <= i < outputs@.len() ==> (
            #[trigger] outputs@[i]).primary.props.in_fence_fd is Some,
        completion <==> forall|i: int|
            0 <= i < outputs@.len() ==> (#[trigger] outputs@[i]).props.crtc_out_fence_ptr is Some,
        cursors <==> forall|i: int|
            0 <= i < outputs@.len() ==> (#[trigger] outputs@[i]).cursor is Some,
{
}

} // verus!
