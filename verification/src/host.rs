//! The host display: direct output or a window of another compositor.

use std::str::FromStr;
use vstd::prelude::*;
use crate::devnode::{card_device, device_number, renderer_device, DrmNode};
use crate::devnode::{CHARACTER_DEVICE, FILE_KIND};
use crate::geometry::Size;
use crate::input::{TextInputEvent, TextInputState};
use crate::kms::backend::{
    known_fourcc, CursorPlaneState, DrmBackend, HARDWARE_CURSOR_RETRY_MAX_MS,
};
use crate::kms::color::ColorPolicy;
use crate::kms::config::ConnectorSettings;
use crate::kms::cursor::{first_holding, in_front, promoted, sprite_fault, CursorState};
use crate::kms::display::{dmabuf_scanout_formats, is_format_list, supports, DmabufFormat};
use crate::kms::error::DrmError;
use crate::kms::info::{describes, describes_only, ColorPipeline, OutputInfo};
use crate::kms::modes::ModeSpec;
use crate::kms::output::{all_have_cursor, all_take_fences, Scale};
use crate::kms::present::CursorStep;
use crate::kms::scanout::{all_retired, kept, next_epoch, reaped, Resource};
use crate::kms::session::PowerStep;
use crate::nested::window::{at_least_one, BufferScale, NestedHost};
use crate::nested::{request_views, text_input_requests, NestedError, TextInputRequest};
use crate::text::text_equal;

verus! {

/// A pointer sprite for the hardware cursor: tightly packed pixels, their
/// size, the pixel that points, and the desktop pixel it points at.
#[derive(Debug, Clone, Copy)]
pub struct HardwareCursor<'a> {
    pub pixels: &'a [u8],
    pub size: (u32, u32),
    pub hotspot: (u32, u32),
    pub position: (i32, i32),
}

/// How many frames the renderer has in flight. With one image for each, a frame
/// is never drawn into the image that is still on the screen.
pub const FRAMES_IN_FLIGHT: u32 = 3;

/// What the renderer's device is made for.
#[derive(Debug, Clone, Copy, PartialEq, Eq, Structural)]
pub struct DevicePlan {
    /// Whether it draws for no window.
    pub headless: bool,
    pub frames_in_flight: u32,
    /// The display card that it must belong to.
    pub drm_node: Option<DrmNode>,
    /// Whether it is of no use unless it can share buffers.
    pub needs_dmabuf: bool,
}

impl DevicePlan {
    /// The error to report where no device meets the plan. `path` is that of the
    /// display card.
    pub fn unmet(&self, path: &str) -> (error: HostError)
        ensures
            match self.drm_node {
                Some(node) => error matches HostError::DrmRenderer { path: told, major, minor }
                    && told@ == path@ && major == node.major && minor == node.minor,
                None => error == HostError::Flux,
            },
    {
        match self.drm_node {
            Some(node) => HostError::DrmRenderer {
                path: path.to_owned(),
                major: node.major,
                minor: node.minor,
            },
            None => HostError::Flux,
        }
    }
}

/// The configured way to present.
#[derive(Debug, Clone, Copy, PartialEq, Eq, Structural)]
pub enum BackendKind {
    /// A window where there is another compositor, direct output elsewhere.
    Auto,
    Drm,
    Nested,
}

/// Errors of choosing a host or presenting through it.
#[derive(Debug)]
pub enum HostError {
    /// The text names no way to present.
    InvalidBackend(String),
    Nested(NestedError),
    Drm(DrmError),
    /// The renderer failed.
    Flux,
    /// The renderer cannot draw for the display card.
    DrmRenderer { path: String, major: u32, minor: u32 },
}

impl From<NestedError> for HostError {
    fn from(error: NestedError) -> (host: HostError) {
        HostError::Nested(error)
    }
}

impl vstd::std_specs::convert::FromSpecImpl<NestedError> for HostError {
    open spec fn obeys_from_spec() -> bool {
        true
    }

    open spec fn from_spec(error: NestedError) -> HostError {
        HostError::Nested(error)
    }
}

impl From<DrmError> for HostError {
    fn from(error: DrmError) -> (host: HostError) {
        HostError::Drm(error)
    }
}

impl vstd::std_specs::convert::FromSpecImpl<DrmError> for HostError {
    open spec fn obeys_from_spec() -> bool {
        true
    }

    open spec fn from_spec(error: DrmError) -> HostError {
        HostError::Drm(error)
    }
}

impl BackendKind {
    /// The way to present that a text names.
    pub open spec fn named(text: Seq<char>) -> Option<BackendKind> {
        if text == "auto"@ {
            Some(BackendKind::Auto)
        } else if text == "drm"@ {
            Some(BackendKind::Drm)
        } else if text == "nested"@ {
            Some(BackendKind::Nested)
        } else {
            None
        }
    }

    /// Read the way to present from its name.
    pub fn parse(value: &str) -> (result: Result<BackendKind, HostError>)
        ensures
            match BackendKind::named(value@) {
                Some(kind) => result == Ok::<BackendKind, HostError>(kind),
                None => result matches Err(HostError::InvalidBackend(text)) && text@ == value@,
            },
    {
        if text_equal(value, "auto") {
            Ok(BackendKind::Auto)
        } else if text_equal(value, "drm") {
            Ok(BackendKind::Drm)
        } else if text_equal(value, "nested") {
            Ok(BackendKind::Nested)
        } else {
            Err(HostError::InvalidBackend(value.to_owned()))
        }
    }

    /// Whether to open a window, given the name of the display of another
    /// compositor where there is one.
    pub fn wants_window(self, wayland_display: Option<&str>) -> (window: bool)
        ensures
            window == match self {
                BackendKind::Nested => true,
                BackendKind::Drm => false,
                BackendKind::Auto => wayland_display matches Some(name) && name@.len() > 0,
            },
    {
        match self {
            BackendKind::Nested => true,
            BackendKind::Drm => false,
            BackendKind::Auto => match wayland_display {
                Some(name) => name.unicode_len() > 0,
                None => false,
            },
        }
    }
}

impl FromStr for BackendKind {
    type Err = HostError;

    fn from_str(value: &str) -> (result: Result<BackendKind, HostError>)
        ensures
            match BackendKind::named(value@) {
                Some(kind) => result == Ok::<BackendKind, HostError>(kind),
                None => result matches Err(HostError::InvalidBackend(text)) && text@ == value@,
            },
    {
        BackendKind::parse(value)
    }
}

/// Why the outputs cannot be turned on or off.
#[derive(Debug)]
pub enum PowerError {
    /// The host does not let its outputs be turned off.
    Unavailable(&'static str),
    Drm(DrmError),
}

/// How a sprite is to be shown.
#[derive(Debug, Clone, Copy, PartialEq, Eq, Structural)]
pub enum SpriteStep {
    /// The compositor must draw the cursor itself.
    Composite,
    /// The hardware cursor shows the sprite, or nothing where none was given.
    Shown,
    /// The hardware cursor shows the sprite once it has been uploaded.
    Upload,
}

/// The host that was chosen.
#[derive(Debug)]
pub enum Host {
    Nested(NestedHost),
    Drm(DrmBackend),
}

impl DrmBackend {
    /// Whether the hardware cursor can be used.
    pub open spec fn takes_cursor(self) -> bool {
        !self.cursor.failed && self.displays.outputs@.len() > 0 && all_have_cursor(
            self.displays.outputs@,
        )
    }

    /// Why a client buffer of the given pixel format may not be shown as it is.
    pub open spec fn scanout_fault(self, format: u32, has_fence: bool) -> Option<DrmError> {
        if !self.showing() {
            Some(DrmError::Inactive)
        } else if !self.pending_flips@.is_empty() {
            Some(DrmError::Busy)
        } else if self.pending_resize is Some {
            Some(DrmError::Reconfigured)
        } else if !known_fourcc(format) || (has_fence && !all_take_fences(
            self.displays.outputs@,
        )) {
            Some(DrmError::ScanoutUnsupported)
        } else {
            None
        }
    }

    /// Why the cursor alone may not be updated.
    pub open spec fn cursor_fault(self) -> Option<DrmError> {
        if !self.showing() {
            Some(DrmError::Inactive)
        } else if self.pending_resize is Some {
            Some(DrmError::Reconfigured)
        } else if self.current is None {
            Some(DrmError::ScanoutUnsupported)
        } else {
            None
        }
    }
}

impl Host {
    /// The state is consistent.
    pub open spec fn wf(self) -> bool {
        self matches Host::Drm(backend) ==> backend.wf()
    }

    /// The name of the host.
    pub fn name(&self) -> (name: &'static str)
        ensures
            name@ == match *self {
                Host::Nested(_) => "nested"@,
                Host::Drm(_) => "drm"@,
            },
    {
        match self {
            Host::Nested(_) => "nested",
            Host::Drm(_) => "drm",
        }
    }

    /// Whether an update is in flight. A window's host keeps track itself.
    pub fn presentation_pending(&self) -> (pending: bool)
        ensures
            pending == match *self {
                Host::Nested(_) => false,
                Host::Drm(backend) => !backend.pending_flips@.is_empty(),
            },
    {
        match self {
            Host::Nested(_) => false,
            Host::Drm(backend) => backend.presentation_pending(),
        }
    }

    /// Whether the compositor must draw the cursor into its frames.
    pub fn uses_software_cursor(&self) -> (software: bool)
        ensures
            software == (*self matches Host::Drm(backend) && !backend.takes_cursor()),
    {
        match self {
            Host::Nested(_) => false,
            Host::Drm(backend) => !backend.hardware_cursor_supported(),
        }
    }

    /// Whether the display shows the cursor by itself.
    pub fn supports_hardware_cursor(&self) -> (hardware: bool)
        ensures
            hardware == (*self matches Host::Drm(backend) && backend.takes_cursor()),
    {
        match self {
            Host::Nested(_) => false,
            Host::Drm(backend) => backend.hardware_cursor_supported(),
        }
    }

    /// Stop using the hardware cursor and set the time of the next attempt.
    pub fn disable_hardware_cursor(&mut self, now_ms: u64)
        requires
            now_ms + HARDWARE_CURSOR_RETRY_MAX_MS <= u64::MAX,
        ensures
            match (*old(self), *final(self)) {
                (Host::Nested(before), Host::Nested(after)) => before == after,
                (Host::Drm(before), Host::Drm(after)) => after == (DrmBackend {
                    cursor: after.cursor,
                    ..before
                }) && DrmBackend::cursor_disabled(before.cursor, after.cursor, now_ms),
                _ => false,
            },
    {
        match self {
            Host::Nested(_) => {},
            Host::Drm(backend) => backend.disable_hardware_cursor(now_ms),
        }
    }

    /// Try the hardware cursor again if its time has come.
    pub fn poll_hardware_cursor_retry(&mut self, now_ms: u64) -> (rearmed: bool)
        ensures
            match (*old(self), *final(self)) {
                (Host::Nested(before), Host::Nested(after)) => before == after && !rearmed,
                (Host::Drm(before), Host::Drm(after)) => {
                    &&& rearmed == (before.cursor.failed && (before.cursor.retry_at matches Some(at)
                        && at <= now_ms))
                    &&& after == (DrmBackend {
                        cursor: if rearmed {
                            CursorPlaneState { failed: false, retry_at: None, ..before.cursor }
                        } else {
                            before.cursor
                        },
                        ..before
                    })
                },
                _ => false,
            },
    {
        match self {
            Host::Nested(_) => false,
            Host::Drm(backend) => backend.poll_hardware_cursor_retry(now_ms),
        }
    }

    /// Give up waiting for an update whose completion was lost.
    pub fn recover_lost_presentation(&mut self)
        ensures
            match (*old(self), *final(self)) {
                (Host::Nested(before), Host::Nested(after)) => before == after,
                (Host::Drm(before), Host::Drm(after)) => after.pending_flips@ == Set::<u32>::empty()
                    && after == (DrmBackend { pending_flips: after.pending_flips, ..before }),
                _ => false,
            },
    {
        match self {
            Host::Nested(_) => {},
            Host::Drm(backend) => backend.recover_lost_presentation(),
        }
    }

    /// Choose the sprite that the hardware cursor shows, or none. When the
    /// display does not take it, the hardware cursor is not used for a while.
    pub fn set_hardware_cursor(&mut self, cursor: Option<HardwareCursor<'_>>, now_ms: u64) -> (step:
        SpriteStep)
        requires
            now_ms + HARDWARE_CURSOR_RETRY_MAX_MS <= u64::MAX,
        ensures
            match (*old(self), *final(self)) {
                (Host::Nested(before), Host::Nested(after)) => before == after && step
                    == SpriteStep::Composite,
                (Host::Drm(before), Host::Drm(after)) => {
                    &&& after == (DrmBackend { cursor: after.cursor, ..before })
                    &&& !before.takes_cursor() ==> step == SpriteStep::Composite && after == before
                    &&& before.takes_cursor() && cursor is None ==> step == SpriteStep::Shown
                        && after.cursor == (CursorPlaneState { state: None, ..before.cursor })
                    &&& before.takes_cursor() && cursor is Some ==> {
                        let sprite = cursor->0;
                        let fault = sprite_fault(sprite, before.cursor.extent);
                        let held = before.cursor.buffers.buffers@;
                        let shown = after.cursor.buffers.buffers@;
                        &&& (step == SpriteStep::Composite <==> fault is Some)
                        &&& (fault is Some ==> DrmBackend::cursor_disabled(
                            before.cursor,
                            after.cursor,
                            now_ms,
                        ))
                        &&& (fault is None ==> (step == SpriteStep::Shown <==> exists|i: int|
                            0 <= i < held.len() && (#[trigger] held[i]).holds(
                                sprite.size,
                                sprite.pixels@,
                            )))
                        &&& (step == SpriteStep::Shown ==> {
                            &&& after.cursor.state == Some(
                                CursorState {
                                    buffer: 0,
                                    position: sprite.position,
                                    hotspot: sprite.hotspot,
                                },
                            )
                            &&& in_front(shown, sprite.size, sprite.pixels@)
                            &&& exists|index: int| #[trigger]
                                first_holding(held, sprite.size, sprite.pixels@, index) && shown
                                    == promoted(held, index)
                        })
                        &&& (step == SpriteStep::Upload ==> after.cursor.state
                            == before.cursor.state && shown == held)
                        &&& (fault is None ==> after.cursor == (CursorPlaneState {
                            state: after.cursor.state,
                            buffers: after.cursor.buffers,
                            ..before.cursor
                        }))
                    }
                },
                _ => false,
            },
    {
        match self {
            Host::Nested(_) => SpriteStep::Composite,
            Host::Drm(backend) => {
                if !backend.hardware_cursor_supported() {
                    return SpriteStep::Composite;
                }
                match backend.begin_cursor(cursor) {
                    Err(_) => {
                        backend.disable_hardware_cursor(now_ms);
                        SpriteStep::Composite
                    },
                    Ok(CursorStep::Done) => SpriteStep::Shown,
                    Ok(CursorStep::Upload) => SpriteStep::Upload,
                }
            },
        }
    }

    /// Whether a client buffer may be shown as it is, and why not.
    pub fn check_scanout(&self, format: u32, has_fence: bool) -> (result: Result<(), HostError>)
        ensures
            match *self {
                Host::Nested(_) => result == Err::<(), HostError>(
                    HostError::Drm(DrmError::ScanoutUnsupported),
                ),
                Host::Drm(backend) => match backend.scanout_fault(format, has_fence) {
                    Some(fault) => result == Err::<(), HostError>(HostError::Drm(fault)),
                    None => result == Ok::<(), HostError>(()),
                },
            },
    {
        match self {
            Host::Nested(_) => Err(HostError::Drm(DrmError::ScanoutUnsupported)),
            Host::Drm(backend) => match backend.check_client_scanout(format, has_fence) {
                Ok(()) => Ok(()),
                Err(error) => Err(HostError::from(error)),
            },
        }
    }

    /// Whether the cursor alone may be updated, and why not.
    pub fn check_cursor(&self) -> (result: Result<(), HostError>)
        ensures
            match *self {
                Host::Nested(_) => result == Err::<(), HostError>(
                    HostError::Drm(DrmError::ScanoutUnsupported),
                ),
                Host::Drm(backend) => match backend.cursor_fault() {
                    Some(fault) => result == Err::<(), HostError>(HostError::Drm(fault)),
                    None => result == Ok::<(), HostError>(()),
                },
            },
    {
        match self {
            Host::Nested(_) => Err(HostError::Drm(DrmError::ScanoutUnsupported)),
            Host::Drm(backend) => match backend.check_cursor_presentable() {
                Ok(()) => Ok(()),
                Err(error) => Err(HostError::from(error)),
            },
        }
    }

    /// Whether a client buffer of the given format and layout can be shown as it
    /// is. A window never can.
    pub fn supports_scanout(&self, fourcc: u32, modifier: u64) -> (supported: bool)
        ensures
            supported == (*self matches Host::Drm(backend) && supports(
                backend.displays.scanout_formats@,
                fourcc,
                modifier,
            )),
    {
        match self {
            Host::Nested(_) => false,
            Host::Drm(backend) => backend.supports_scanout(fourcc, modifier),
        }
    }

    /// The formats and layouts in which client buffers can be shown as they are.
    pub fn dmabuf_scanout_formats(&self) -> (list: Vec<DmabufFormat>)
        requires
            self.wf(),
        ensures
            match *self {
                Host::Nested(_) => list@.len() == 0,
                Host::Drm(backend) => is_format_list(backend.displays.scanout_formats@, list@),
            },
    {
        match self {
            Host::Nested(_) => Vec::new(),
            Host::Drm(backend) => dmabuf_scanout_formats(&backend.displays.scanout_formats),
        }
    }

    /// The display card to advertise for buffers that can be shown as they are,
    /// given the file mode and device number of the open card.
    pub fn dmabuf_scanout_device(&self, card: Option<(u32, u64)>) -> (device: Option<u64>)
        ensures
            device == match (*self, card) {
                (Host::Drm(_), Some((mode, number))) if mode & FILE_KIND
                    == CHARACTER_DEVICE => Some(
                    number,
                ),
                _ => None,
            },
    {
        match self {
            Host::Nested(_) => None,
            Host::Drm(_) => match card {
                Some((mode, number)) => card_device(mode, number),
                None => None,
            },
        }
    }

    /// What the renderer's device is made for. A window can do without shared
    /// buffers; direct output cannot, and needs the very card that shows them.
    pub fn device_plan(&self, card: Option<DrmNode>) -> (result: Result<DevicePlan, HostError>)
        ensures
            result == match (*self, card) {
                (Host::Nested(_), _) => Ok::<DevicePlan, HostError>(
                    DevicePlan {
                        headless: false,
                        frames_in_flight: FRAMES_IN_FLIGHT,
                        drm_node: None,
                        needs_dmabuf: false,
                    },
                ),
                (Host::Drm(_), Some(node)) => Ok(
                    DevicePlan {
                        headless: true,
                        frames_in_flight: FRAMES_IN_FLIGHT,
                        drm_node: Some(node),
                        needs_dmabuf: true,
                    },
                ),
                (Host::Drm(_), None) => Err(HostError::Drm(DrmError::Inactive)),
            },
    {
        match self {
            Host::Nested(_) => Ok(
                DevicePlan {
                    headless: false,
                    frames_in_flight: FRAMES_IN_FLIGHT,
                    drm_node: None,
                    needs_dmabuf: false,
                },
            ),
            Host::Drm(_) => match card {
                Some(node) => Ok(
                    DevicePlan {
                        headless: true,
                        frames_in_flight: FRAMES_IN_FLIGHT,
                        drm_node: Some(node),
                        needs_dmabuf: true,
                    },
                ),
                None => Err(HostError::Drm(DrmError::Inactive)),
            },
        }
    }

    /// The device to advertise for client buffers: the renderer's render node,
    /// or else its primary node, or else the display card.
    pub fn dmabuf_feedback_device(
        &self,
        render: Option<DrmNode>,
        primary: Option<DrmNode>,
        card: Option<(u32, u64)>,
    ) -> (device: Option<u64>)
        ensures
            device == match (render, primary) {
                (Some(node), _) => Some(device_number(node.major, node.minor)),
                (None, Some(node)) => Some(device_number(node.major, node.minor)),
                (None, None) => match (*self, card) {
                    (Host::Drm(_), Some((mode, number))) if mode & FILE_KIND
                        == CHARACTER_DEVICE => Some(number),
                    _ => None,
                },
            },
    {
        match renderer_device(render, primary) {
            Some(device) => Some(device),
            None => self.dmabuf_scanout_device(card),
        }
    }

    /// The size of the desktop.
    pub fn size(&self) -> (size: Size)
        ensures
            size == match *self {
                Host::Nested(window) => Size { w: window.width, h: window.height },
                Host::Drm(backend) => Size {
                    w: backend.displays.size.0 as i32,
                    h: backend.displays.size.1 as i32,
                },
            },
    {
        match self {
            Host::Nested(window) => Size { w: window.width, h: window.height },
            Host::Drm(backend) => backend.size(),
        }
    }

    /// The size of the desktop, at least one by one.
    pub fn size_u32(&self) -> (size: (u32, u32))
        ensures
            ({
                let shown: (i32, i32) = match *self {
                    Host::Nested(window) => (window.width, window.height),
                    Host::Drm(backend) => (
                        backend.displays.size.0 as i32,
                        backend.displays.size.1 as i32,
                    ),
                };
                size == (
                    crate::nested::window::at_least_one(shown.0) as u32,
                    crate::nested::window::at_least_one(shown.1) as u32,
                )
            }),
    {
        let size = self.size();
        let width: i32 = if size.w < 1 {
            1
        } else {
            size.w
        };
        let height: i32 = if size.h < 1 {
            1
        } else {
            size.h
        };
        (width as u32, height as u32)
    }

    /// Whether the session owns a display with something to show frames on.
    pub fn is_active(&self) -> (active: bool)
        ensures
            active == match *self {
                Host::Nested(_) => true,
                Host::Drm(backend) => backend.active && backend.render_ready,
            },
    {
        match self {
            Host::Nested(_) => true,
            Host::Drm(backend) => backend.is_active(),
        }
    }

    /// Whether the outputs are on.
    pub fn outputs_powered(&self) -> (powered: bool)
        ensures
            powered == match *self {
                Host::Nested(_) => true,
                Host::Drm(backend) => backend.outputs_powered,
            },
    {
        match self {
            Host::Nested(_) => true,
            Host::Drm(backend) => backend.outputs_powered,
        }
    }

    /// Whether there is something to show frames on.
    pub fn presentation_target_ready(&self) -> (ready: bool)
        ensures
            ready == match *self {
                Host::Nested(_) => true,
                Host::Drm(backend) => backend.render_ready,
            },
    {
        match self {
            Host::Nested(_) => true,
            Host::Drm(backend) => backend.render_ready,
        }
    }

    /// Whether the render surface must be created anew.
    pub fn surface_needs_recreate(&self) -> (stale: bool)
        ensures
            stale == match *self {
                Host::Nested(_) => false,
                Host::Drm(backend) => backend.surface.stale,
            },
    {
        match self {
            Host::Nested(_) => false,
            Host::Drm(backend) => backend.surface_needs_recreate(),
        }
    }

    /// Begin turning the outputs on or off, and say what that takes. A window
    /// cannot turn its host's outputs off.
    pub fn set_outputs_powered(&self, powered: bool) -> (result: Result<PowerStep, PowerError>)
        ensures
            match *self {
                Host::Nested(_) => if powered {
                    result == Ok::<PowerStep, PowerError>(PowerStep::Unchanged)
                } else {
                    result matches Err(PowerError::Unavailable(why)) && why@
                        == "output power control is unavailable in nested mode"@
                },
                Host::Drm(backend) => match backend.power_answer(powered) {
                    Ok(step) => result == Ok::<PowerStep, PowerError>(step),
                    Err(error) => result == Err::<PowerStep, PowerError>(PowerError::Drm(error)),
                },
            },
    {
        match self {
            Host::Nested(_) => if powered {
                Ok(PowerStep::Unchanged)
            } else {
                Err(PowerError::Unavailable("output power control is unavailable in nested mode"))
            },
            Host::Drm(backend) => match backend.begin_power_change(powered) {
                Ok(step) => Ok(step),
                Err(error) => Err(PowerError::Drm(error)),
            },
        }
    }

    /// The color pipeline in effect. The host of a window does its own.
    pub fn color_pipeline(&self) -> (pipeline: ColorPipeline)
        ensures
            pipeline == match *self {
                Host::Nested(_) => ColorPipeline::Sdr,
                Host::Drm(backend) => match backend.displays.color_mode {
                    crate::kms::color::DisplayColorMode::Sdr => ColorPipeline::Sdr,
                    crate::kms::color::DisplayColorMode::SdrDeepColor => ColorPipeline::SdrDeepColor,
                    crate::kms::color::DisplayColorMode::Hdr => ColorPipeline::Hdr,
                },
            },
    {
        match self {
            Host::Nested(_) => ColorPipeline::Sdr,
            Host::Drm(backend) => backend.color_pipeline(),
        }
    }

    /// The new size of the desktop, where it changed, and what is to be
    /// destroyed on that account.
    pub fn take_resize(&mut self) -> (answer: (Option<Size>, Vec<Resource>))
        requires
            old(self).wf(),
        ensures
            final(self).wf(),
            match (*old(self), *final(self)) {
                (Host::Nested(before), Host::Nested(after)) => {
                    &&& answer.0 == if before.resized || before.scale_changed {
                        Some(Size { w: before.next_size().0, h: before.next_size().1 })
                    } else {
                        None
                    }
                    &&& answer.1@.len() == 0
                    &&& after == (NestedHost {
                        width: before.next_size().0,
                        height: before.next_size().1,
                        resized: false,
                        scale_changed: false,
                        ..before
                    })
                },
                (Host::Drm(before), Host::Drm(after)) => {
                    &&& answer.0 == before.pending_resize
                    &&& after == (DrmBackend { pending_resize: None, cache: after.cache, ..before })
                    &&& before.pending_resize is None ==> answer.1@.len() == 0 && after == before
                    &&& before.pending_resize is Some ==> {
                        &&& after.cache.epoch == next_epoch(before.cache.epoch)
                        &&& after.cache.entries@ == kept(all_retired(before.cache.entries@))
                        &&& answer.1@ == reaped(all_retired(before.cache.entries@))
                    }
                },
                _ => false,
            },
    {
        match self {
            Host::Nested(window) => (window.take_resize(), Vec::new()),
            Host::Drm(backend) => backend.take_resize(),
        }
    }

    /// Describe the outputs. A window is described by its size in pixels and its
    /// scale.
    pub fn output_infos(&self, window_size: (u32, u32), window_scale: Scale) -> (infos: Vec<
        OutputInfo,
    >)
        ensures
            match *self {
                Host::Nested(_) => infos.len() == 1 && describes_only(
                    infos@[0],
                    "nested"@,
                    window_size,
                    window_scale,
                ),
                Host::Drm(backend) => {
                    &&& infos.len() == backend.displays.outputs.len()
                    &&& forall|i: int|
                        0 <= i < infos.len() ==> describes(
                            #[trigger] infos@[i],
                            backend.displays.outputs@[i],
                        )
                },
            },
    {
        match self {
            Host::Nested(window) => window.output_infos(window_size, window_scale),
            Host::Drm(backend) => backend.output_infos(),
        }
    }

    /// The focused text field changed. Only the host of a window is told.
    pub fn set_text_input_state(&mut self, state: TextInputState) -> (requests: Vec<
        TextInputRequest,
    >)
        ensures
            match (*old(self), *final(self)) {
                (Host::Nested(before), Host::Nested(after)) => {
                    &&& after == (NestedHost { text_input_state: state, ..before })
                    &&& request_views(requests@) == if before.has_text_input
                        && before.text_input_entered {
                        text_input_requests(state)
                    } else {
                        Seq::empty()
                    }
                },
                (Host::Drm(before), Host::Drm(after)) => before == after && requests@.len() == 0,
                _ => false,
            },
    {
        match self {
            Host::Nested(window) => window.set_text_input_state(state),
            Host::Drm(_) => Vec::new(),
        }
    }

    /// The edits of the host's input method since the last call. Direct output
    /// has none.
    pub fn take_text_input(&mut self) -> (events: Vec<TextInputEvent>)
        ensures
            match (*old(self), *final(self)) {
                (Host::Nested(before), Host::Nested(after)) => {
                    &&& events@ == before.text_input_events@
                    &&& after.text_input_events@.len() == 0
                    &&& after == (NestedHost {
                        text_input_events: after.text_input_events,
                        ..before
                    })
                },
                (Host::Drm(before), Host::Drm(after)) => before == after && events@.len() == 0,
                _ => false,
            },
    {
        match self {
            Host::Nested(window) => window.take_text_input(),
            Host::Drm(_) => Vec::new(),
        }
    }

    /// The serial and the shape to show the host's cursor with, if there is a
    /// host that can be asked.
    pub fn set_cursor_shape(&self, shape: u32) -> (request: Option<(u32, u32)>)
        ensures
            request == match *self {
                Host::Nested(window) => if window.has_cursor_shape_device && window.pointer_serial
                    != 0 {
                    Some(
                        (
                            window.pointer_serial,
                            if shape < 1 {
                                1
                            } else {
                                shape
                            },
                        ),
                    )
                } else {
                    None
                },
                Host::Drm(_) => None,
            },
    {
        match self {
            Host::Nested(window) => window.set_cursor_shape(shape),
            Host::Drm(_) => None,
        }
    }

    /// The serial to hide the host's cursor with, if there is a host that can be
    /// asked.
    pub fn hide_cursor(&self) -> (serial: Option<u32>)
        ensures
            serial == match *self {
                Host::Nested(window) => if window.has_pointer && window.pointer_serial != 0 {
                    Some(window.pointer_serial)
                } else {
                    None
                },
                Host::Drm(_) => None,
            },
    {
        match self {
            Host::Nested(window) => window.hide_cursor(),
            Host::Drm(_) => None,
        }
    }

    /// What to tell the host about the next buffer, if there is one.
    pub fn set_buffer_scale(&self) -> (update: Option<BufferScale>)
        ensures
            update == match *self {
                Host::Nested(window) => Some(
                    if window.fractional_active {
                        BufferScale {
                            scale: 1,
                            destination: Some(
                                (at_least_one(window.width), at_least_one(window.height)),
                            ),
                        }
                    } else {
                        BufferScale { scale: at_least_one(window.scale), destination: None }
                    },
                ),
                Host::Drm(_) => None,
            },
    {
        match self {
            Host::Nested(window) => Some(window.set_buffer_scale()),
            Host::Drm(_) => None,
        }
    }

    /// Configure display modes. Only direct output takes them up.
    pub fn set_configured_modes(&mut self, modes: ConnectorSettings<ModeSpec>)
        ensures
            match (*old(self), *final(self)) {
                (Host::Nested(before), Host::Nested(after)) => before == after,
                (Host::Drm(before), Host::Drm(after)) => after
                    == if before.settings.modes.agrees_with(modes) {
                    before
                } else {
                    DrmBackend {
                        settings: crate::kms::plan::OutputSettings { modes, ..before.settings },
                        hotplug_pending: true,
                        ..before
                    }
                },
                _ => false,
            },
    {
        match self {
            Host::Nested(_) => {},
            Host::Drm(backend) => backend.set_configured_modes(modes),
        }
    }

    /// Configure color settings. Only direct output takes them up.
    pub fn set_configured_color_policies(&mut self, policies: ConnectorSettings<ColorPolicy>)
        ensures
            match (*old(self), *final(self)) {
                (Host::Nested(before), Host::Nested(after)) => before == after,
                (Host::Drm(before), Host::Drm(after)) => after
                    == if before.settings.color.agrees_with(policies) {
                    before
                } else {
                    DrmBackend {
                        settings: crate::kms::plan::OutputSettings {
                            color: policies,
                            ..before.settings
                        },
                        hotplug_pending: true,
                        ..before
                    }
                },
                _ => false,
            },
    {
        match self {
            Host::Nested(_) => {},
            Host::Drm(backend) => backend.set_configured_color_policies(policies),
        }
    }

    /// Configure color profiles. Only direct output takes them up.
    pub fn set_configured_icc_profiles(&mut self, profiles: ConnectorSettings<String>)
        ensures
            match (*old(self), *final(self)) {
                (Host::Nested(before), Host::Nested(after)) => before == after,
                (Host::Drm(before), Host::Drm(after)) => after
                    == if before.settings.icc.agrees_with(profiles) {
                    before
                } else {
                    DrmBackend {
                        settings: crate::kms::plan::OutputSettings {
                            icc: profiles,
                            ..before.settings
                        },
                        hotplug_pending: true,
                        ..before
                    }
                },
                _ => false,
            },
    {
        match self {
            Host::Nested(_) => {},
            Host::Drm(backend) => backend.set_configured_icc_profiles(profiles),
        }
    }
}

/// A way to present is known by its name, and by no other.
pub proof fn backends_are_known_by_name(value: &str, result: Result<BackendKind, HostError>)
    requires
        call_ensures(BackendKind::parse, (value,), result),
    ensures
        value@ == "auto"@ ==> result is Ok && result->Ok_0 == BackendKind::Auto,
        result is Ok && result->Ok_0 == BackendKind::Auto ==> value@ == "auto"@,
        result is Ok && result->Ok_0 == BackendKind::Drm ==> value@ == "drm"@,
        result is Ok && result->Ok_0 == BackendKind::Nested ==> value@ == "nested"@,
        value@ != "auto"@ && value@ != "drm"@ && value@ != "nested"@ ==> result is Err,
{
}

/// A window is opened where asked, and otherwise only where another compositor's display
/// has a name.
pub proof fn windows_need_another_compositor(
    kind: BackendKind,
    display: Option<&str>,
    window: bool,
)
    requires
        call_ensures(BackendKind::wants_window, (kind, display), window),
    ensures
        kind == BackendKind::Nested ==> window,
        kind == BackendKind::Drm ==> !window,
        kind == BackendKind::Auto ==> (window <==> display is Some && display->0@.len() > 0),
{
}

/// A cursor is drawn by exactly one: by the display where every output has a plane for it
/// and it has not failed, otherwise, on direct output, by the compositor.
pub proof fn cursors_are_drawn_once(host: Host, software: bool, hardware: bool)
    requires
        call_ensures(Host::uses_software_cursor, (&host,), software),
        call_ensures(Host::supports_hardware_cursor, (&host,), hardware),
    ensures
        host is Nested ==> !software && !hardware,
        host is Drm ==> (software <==> !hardware),
        host matches Host::Drm(backend) ==> (hardware <==> !backend.cursor.failed
            && backend.displays.outputs@.len() > 0 && forall|i: int|
            0 <= i < backend.displays.outputs@.len() ==> (
            #[trigger] backend.displays.outputs@[i]).cursor is Some),
{
}

/// A sprite that the display shows is the one that was given, held where it was asked; a
/// sprite that the display cannot take is drawn by the compositor for a while.
pub proof fn sprites_are_shown_or_drawn(
    host: &mut Host,
    sprite: HardwareCursor<'_>,
    now_ms: u64,
    step: SpriteStep,
)
    requires
        now_ms + 300_000 <= u64::MAX,
        *host is Drm,
        call_ensures(Host::set_hardware_cursor, (host, Some(sprite), now_ms), step),
    ensures
        *final(host) is Drm,
        step == SpriteStep::Shown ==> {
            let cursor = (*final(host))->Drm_0.cursor;
            &&& cursor.state is Some
            &&& cursor.state->0.position == sprite.position
            &&& cursor.state->0.hotspot == sprite.hotspot
            &&& cursor.state->0.buffer < cursor.buffers.buffers@.len()
            &&& cursor.buffers.buffers@[cursor.state->0.buffer as int].pixels@ == sprite.pixels@
        },
        step != SpriteStep::Composite ==> 0 < sprite.size.0
            <= (*old(host))->Drm_0.cursor.extent.0
                && 0 < sprite.size.1 <= (*old(host))->Drm_0.cursor.extent.1
            && sprite.hotspot.0 < sprite.size.0 && sprite.hotspot.1 < sprite.size.1,
        (*final(host))->Drm_0.current == (*old(host))->Drm_0.current,
{
}

/// Client buffers are shown as they are only on direct output, and only in a listed layout.
pub proof fn windows_show_no_client_buffers(
    host: Host,
    format: u32,
    fenced: bool,
    result: Result<(), HostError>,
    modifier: u64,
    supported: bool,
    cursor: Result<(), HostError>,
)
    requires
        call_ensures(Host::check_scanout, (&host, format, fenced), result),
        call_ensures(Host::supports_scanout, (&host, format, modifier), supported),
        call_ensures(Host::check_cursor, (&host,), cursor),
    ensures
        host is Nested ==> result is Err && !supported && cursor is Err,
        supported ==> host is Drm && host->Drm_0.displays.scanout_formats@.contains_key(format)
            && host->Drm_0.displays.scanout_formats@[format]@.contains(modifier),
        result is Ok ==> host is Drm && host->Drm_0.active && host->Drm_0.outputs_powered
            && host->Drm_0.pending_flips@.is_empty(),
        cursor is Ok ==> host is Drm && host->Drm_0.active && host->Drm_0.current is Some,
{
}

/// Direct output draws with the card that shows the frames, and needs shared buffers; a
/// window needs neither.
pub proof fn frames_are_drawn_on_the_showing_card(
    host: Host,
    card: Option<DrmNode>,
    result: Result<DevicePlan, HostError>,
)
    requires
        call_ensures(Host::device_plan, (&host, card), result),
    ensures
        result is Err <==> host is Drm && card is None,
        result matches Ok(plan) ==> {
            &&& plan.headless <==> host is Drm
            &&& plan.needs_dmabuf <==> host is Drm
            &&& plan.frames_in_flight == 3
            &&& host is Drm ==> plan.drm_node == card
            &&& host is Nested ==> plan.drm_node is None
        },
{
}

/// The device that clients are told is the renderer's render node, otherwise its primary
/// node, otherwise the open card, as long as that is a character device.
pub proof fn clients_are_told_the_renderers_device(
    host: Host,
    render: Option<DrmNode>,
    primary: Option<DrmNode>,
    card: Option<(u32, u64)>,
    device: Option<u64>,
    shown: Option<u64>,
)
    requires
        call_ensures(Host::dmabuf_feedback_device, (&host, render, primary, card), device),
        call_ensures(Host::dmabuf_scanout_device, (&host, card), shown),
    ensures
        render matches Some(node) ==> device == Some(device_number(node.major, node.minor)),
        render is None && primary is Some ==> device == Some(
            device_number(primary->0.major, primary->0.minor),
        ),
        render is None && primary is None ==> device == shown,
        shown matches Some(number) ==> host is Drm && card is Some && (card->0).1 == number && (
        card->0).0 & 0o170000u32 == 0o020000u32,
        host is Nested ==> shown is None,
{
}

/// The desktop is as large as the window, or as what the outputs show together, and never
/// empty.
pub proof fn desktops_have_the_hosts_size(host: Host, size: Size, whole: (u32, u32))
    requires
        call_ensures(Host::size, (&host,), size),
        call_ensures(Host::size_u32, (&host,), whole),
        host matches Host::Drm(backend) ==> backend.displays.size.0 <= i32::MAX
            && backend.displays.size.1 <= i32::MAX,
    ensures
        host matches Host::Nested(window) ==> size.w == window.width && size.h == window.height,
        host matches Host::Drm(backend) ==> size.w == backend.displays.size.0 && size.h
            == backend.displays.size.1,
        whole.0 >= 1 && whole.1 >= 1,
        size.w >= 1 ==> whole.0 == size.w,
        size.h >= 1 ==> whole.1 == size.h,
{
}

/// A window is always on and ready; direct output is as its session and outputs are.
pub proof fn windows_are_always_on(
    host: Host,
    active: bool,
    powered: bool,
    ready: bool,
    pending: bool,
    stale: bool,
)
    requires
        call_ensures(Host::is_active, (&host,), active),
        call_ensures(Host::outputs_powered, (&host,), powered),
        call_ensures(Host::presentation_target_ready, (&host,), ready),
        call_ensures(Host::presentation_pending, (&host,), pending),
        call_ensures(Host::surface_needs_recreate, (&host,), stale),
    ensures
        host is Nested ==> active && powered && ready && !pending && !stale,
        host matches Host::Drm(backend) ==> {
            &&& active <==> backend.active && backend.render_ready
            &&& powered <==> backend.outputs_powered
            &&& ready <==> backend.render_ready
            &&& pending <==> !backend.pending_flips@.is_empty()
            &&& stale <==> backend.surface.stale
        },
{
}

/// A window cannot turn the host's outputs off, and need not turn them on.
pub proof fn windows_cannot_be_turned_off(
    host: Host,
    powered: bool,
    result: Result<PowerStep, PowerError>,
)
    requires
        call_ensures(Host::set_outputs_powered, (&host, powered), result),
    ensures
        host is Nested ==> (result is Ok <==> powered),
        host is Nested && powered ==> result->Ok_0 == PowerStep::Unchanged,
        host is Nested && !powered ==> result->Err_0 is Unavailable,
        host is Drm && result is Ok && result->Ok_0 == PowerStep::Unchanged
            ==> host->Drm_0.outputs_powered == powered,
        host is Drm && host->Drm_0.outputs_powered == powered ==> result is Ok && result->Ok_0
            == PowerStep::Unchanged,
        host is Drm && host->Drm_0.outputs_powered != powered && !host->Drm_0.active ==> result
            is Err,
{
}

/// The host of a window is told of text fields and asked about the cursor; direct output has
/// nobody to tell.
pub proof fn only_windows_have_a_host_to_tell(
    host: &mut Host,
    state: TextInputState,
    requests: Vec<TextInputRequest>,
    other: Host,
    shape: u32,
    request: Option<(u32, u32)>,
    serial: Option<u32>,
    update: Option<BufferScale>,
)
    requires
        call_ensures(Host::set_text_input_state, (host, state), requests),
        call_ensures(Host::set_cursor_shape, (&other, shape), request),
        call_ensures(Host::hide_cursor, (&other,), serial),
        call_ensures(Host::set_buffer_scale, (&other,), update),
    ensures
        *old(host) is Drm ==> requests@.len() == 0 && *final(host) == *old(host),
        *old(host) is Nested ==> *final(host) is Nested && (*final(host))->Nested_0.text_input_state
            == state,
        other is Drm ==> request is None && serial is None && update is None,
        other matches Host::Nested(window) ==> {
            &&& update is Some
            &&& request matches Some(asked) ==> asked.0 == window.pointer_serial
            &&& serial matches Some(number) ==> number == window.pointer_serial
        },
{
}

} // verus!
