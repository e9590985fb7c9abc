//! The compositor as a window of another compositor.

pub mod window;

use vstd::prelude::*;
use crate::input::{
    text_of, ButtonState, PointerAxis, PointerAxisFrame, PointerAxisRelativeDirection,
    PointerAxisSource, TextInputState,
};
use crate::text::text_equal;

verus! {

/// What can go wrong while the window is opened.
#[derive(Debug, Clone, Copy, PartialEq, Eq)]
pub enum NestedError {
    /// The host display cannot be reached.
    Connect,
    /// The host lacks something that is needed.
    MissingGlobal(&'static str),
    /// The host did not answer.
    Roundtrip,
    /// The window cannot be drawn to.
    Vulkan,
}

/// A descriptor to wait for.
#[allow(non_camel_case_types)]
#[derive(Debug, Clone, Copy, PartialEq, Eq, Structural)]
pub struct pollfd {
    pub fd: i32,
    pub events: i16,
    pub revents: i16,
}

/// What the host can offer.
#[derive(Debug, Clone, Copy, PartialEq, Eq, Structural)]
pub enum HostGlobal {
    Compositor,
    WmBase,
    Seat,
    Output,
    Viewporter,
    FractionalScale,
    CursorShape,
    PointerGestures,
    TextInput,
}

/// The highest version of an offer that is used.
pub open spec fn highest_version(global: HostGlobal) -> u32 {
    match global {
        HostGlobal::Compositor => 4,
        HostGlobal::WmBase => 1,
        HostGlobal::Seat => 9,
        HostGlobal::Output => 2,
        HostGlobal::Viewporter => 1,
        HostGlobal::FractionalScale => 1,
        HostGlobal::CursorShape => 2,
        HostGlobal::PointerGestures => 3,
        HostGlobal::TextInput => 1,
    }
}

/// What an interface name stands for, if it is used.
pub open spec fn global_named(interface: Seq<char>) -> Option<HostGlobal> {
    if interface == "wl_compositor"@ {
        Some(HostGlobal::Compositor)
    } else if interface == "xdg_wm_base"@ {
        Some(HostGlobal::WmBase)
    } else if interface == "wl_seat"@ {
        Some(HostGlobal::Seat)
    } else if interface == "wl_output"@ {
        Some(HostGlobal::Output)
    } else if interface == "wp_viewporter"@ {
        Some(HostGlobal::Viewporter)
    } else if interface == "wp_fractional_scale_manager_v1"@ {
        Some(HostGlobal::FractionalScale)
    } else if interface == "wp_cursor_shape_manager_v1"@ {
        Some(HostGlobal::CursorShape)
    } else if interface == "zwp_pointer_gestures_v1"@ {
        Some(HostGlobal::PointerGestures)
    } else if interface == "zwp_text_input_manager_v3"@ {
        Some(HostGlobal::TextInput)
    } else {
        None
    }
}

/// Decide whether to take up an offer of the host, and in which version.
///
/// The window-management offer is always taken up in version one; of any other
/// the highest version that both sides know is used.
pub fn bind_global(interface: &str, version: u32) -> (binding: Option<(HostGlobal, u32)>)
    ensures
        binding == match global_named(interface@) {
            None => None,
            Some(HostGlobal::WmBase) => Some((HostGlobal::WmBase, 1u32)),
            Some(global) => Some(
                (
                    global,
                    if version <= highest_version(global) {
                        version
                    } else {
                        highest_version(global)
                    },
                ),
            ),
        },
{
    let global = if text_equal(interface, "wl_compositor") {
        HostGlobal::Compositor
    } else if text_equal(interface, "xdg_wm_base") {
        HostGlobal::WmBase
    } else if text_equal(interface, "wl_seat") {
        HostGlobal::Seat
    } else if text_equal(interface, "wl_output") {
        HostGlobal::Output
    } else if text_equal(interface, "wp_viewporter") {
        HostGlobal::Viewporter
    } else if text_equal(interface, "wp_fractional_scale_manager_v1") {
        HostGlobal::FractionalScale
    } else if text_equal(interface, "wp_cursor_shape_manager_v1") {
        HostGlobal::CursorShape
    } else if text_equal(interface, "zwp_pointer_gestures_v1") {
        HostGlobal::PointerGestures
    } else if text_equal(interface, "zwp_text_input_manager_v3") {
        HostGlobal::TextInput
    } else {
        return None;
    };
    let highest: u32 = match global {
        HostGlobal::Compositor => 4,
        HostGlobal::WmBase => 1,
        HostGlobal::Seat => 9,
        HostGlobal::Output => 2,
        HostGlobal::Viewporter => 1,
        HostGlobal::FractionalScale => 1,
        HostGlobal::CursorShape => 2,
        HostGlobal::PointerGestures => 3,
        HostGlobal::TextInput => 1,
    };
    let used: u32 = match global {
        HostGlobal::WmBase => 1,
        _ => if version <= highest {
            version
        } else {
            highest
        },
    };
    Some((global, used))
}

/// Check that the host offers what a window needs.
pub fn check_globals(has_compositor: bool, has_wm_base: bool) -> (result: Result<(), NestedError>)
    ensures
        result == if !has_compositor {
            Err::<(), NestedError>(NestedError::MissingGlobal("wl_compositor"))
        } else if !has_wm_base {
            Err::<(), NestedError>(NestedError::MissingGlobal("xdg_wm_base"))
        } else {
            Ok::<(), NestedError>(())
        },
{
    if !has_compositor {
        return Err(NestedError::MissingGlobal("wl_compositor"));
    }
    if !has_wm_base {
        return Err(NestedError::MissingGlobal("xdg_wm_base"));
    }
    Ok(())
}

/// What a change of the seat's capabilities calls for.
#[derive(Debug, Clone, Copy, PartialEq, Eq, Structural)]
pub struct SeatStep {
    pub bind_pointer: bool,
    pub release_pointer: bool,
    pub bind_keyboard: bool,
    pub release_keyboard: bool,
}

/// The seat has a pointer.
pub const SEAT_POINTER: u32 = 1;

/// The seat has a keyboard.
pub const SEAT_KEYBOARD: u32 = 2;

/// Decide what a change of the seat's capabilities calls for: devices that came
/// are taken up, devices that went are let go.
pub fn seat_step(capabilities: u32, has_pointer: bool, has_keyboard: bool) -> (step: SeatStep)
    ensures
        step == (SeatStep {
            bind_pointer: capabilities & SEAT_POINTER != 0 && !has_pointer,
            release_pointer: capabilities & SEAT_POINTER == 0 && has_pointer,
            bind_keyboard: capabilities & SEAT_KEYBOARD != 0 && !has_keyboard,
            release_keyboard: capabilities & SEAT_KEYBOARD == 0 && has_keyboard,
        }),
{
    let want_pointer = capabilities & SEAT_POINTER != 0;
    let want_keyboard = capabilities & SEAT_KEYBOARD != 0;
    SeatStep {
        bind_pointer: want_pointer && !has_pointer,
        release_pointer: !want_pointer && has_pointer,
        bind_keyboard: want_keyboard && !has_keyboard,
        release_keyboard: !want_keyboard && has_keyboard,
    }
}

/// Which gesture objects to create.
#[derive(Debug, Clone, Copy, PartialEq, Eq, Structural)]
pub struct GestureStep {
    pub swipe: bool,
    pub pinch: bool,
    pub hold: bool,
}

/// Decide which gesture objects to create: once there are a pointer and a
/// manager, and none has been created, as many kinds as the manager knows.
pub fn gesture_step(has_pointer: bool, manager_version: Option<u32>, has_swipe: bool) -> (step:
    GestureStep)
    ensures
        step == match manager_version {
            Some(version) if has_pointer && !has_swipe => GestureStep {
                swipe: true,
                pinch: version >= 2,
                hold: version >= 3,
            },
            _ => GestureStep { swipe: false, pinch: false, hold: false },
        },
{
    match manager_version {
        Some(version) => if has_pointer && !has_swipe {
            GestureStep { swipe: true, pinch: version >= 2, hold: version >= 3 }
        } else {
            GestureStep { swipe: false, pinch: false, hold: false }
        },
        None => GestureStep { swipe: false, pinch: false, hold: false },
    }
}

/// A request to the host's text input.
#[derive(Debug)]
pub enum TextInputRequest {
    Enable,
    Disable,
    SurroundingText { text: String, cursor: i32, anchor: i32 },
    ChangeCause(u32),
    ContentType { hint: u32, purpose: u32 },
    CursorRectangle { x: i32, y: i32, width: i32, height: i32 },
    Commit,
}

/// A request to the host's text input, with its text as characters.
pub enum TextInputRequestView {
    Enable,
    Disable,
    SurroundingText { text: Seq<char>, cursor: i32, anchor: i32 },
    ChangeCause(u32),
    ContentType { hint: u32, purpose: u32 },
    CursorRectangle { x: i32, y: i32, width: i32, height: i32 },
    Commit,
}

impl View for TextInputRequest {
    type V = TextInputRequestView;

    open spec fn view(&self) -> TextInputRequestView {
        match *self {
            TextInputRequest::Enable => TextInputRequestView::Enable,
            TextInputRequest::Disable => TextInputRequestView::Disable,
            TextInputRequest::SurroundingText {
                text,
                cursor,
                anchor,
            } => TextInputRequestView::SurroundingText { text: text@, cursor, anchor },
            TextInputRequest::ChangeCause(cause) => TextInputRequestView::ChangeCause(cause),
            TextInputRequest::ContentType { hint, purpose } => TextInputRequestView::ContentType {
                hint,
                purpose,
            },
            TextInputRequest::CursorRectangle {
                x,
                y,
                width,
                height,
            } => TextInputRequestView::CursorRectangle { x, y, width, height },
            TextInputRequest::Commit => TextInputRequestView::Commit,
        }
    }
}

/// The requests of a list.
pub open spec fn request_views(list: Seq<TextInputRequest>) -> Seq<TextInputRequestView> {
    list.map_values(|r: TextInputRequest| r@)
}

/// The requests that make the host's text input follow a text field. Text with a
/// zero character cannot be sent and is left out.
pub open spec fn text_input_requests(state: TextInputState) -> Seq<TextInputRequestView> {
    if !state.enabled {
        seq![TextInputRequestView::Disable, TextInputRequestView::Commit]
    } else {
        let surrounding = match text_of(state.surrounding_text) {
            Some(text) if !text.contains('\0') => seq![
                TextInputRequestView::SurroundingText {
                    text,
                    cursor: state.cursor,
                    anchor: state.anchor,
                },
            ],
            _ => Seq::empty(),
        };
        let rectangle = match state.cursor_rect {
            Some((x, y, width, height)) => seq![
                TextInputRequestView::CursorRectangle { x, y, width, height },
            ],
            None => Seq::empty(),
        };
        seq![TextInputRequestView::Enable] + surrounding + seq![
            TextInputRequestView::ChangeCause(state.change_cause),
            TextInputRequestView::ContentType {
                hint: state.content_hint,
                purpose: state.content_purpose,
            },
        ] + rectangle + seq![TextInputRequestView::Commit]
    }
}

/// A pointer motion that the host reported. Positions and distances are in the
/// protocol's 24.8 fixed point. The host tells nothing of how the device itself
/// moved, so that the unaccelerated distances are the same.
#[derive(Debug, Clone, Copy, PartialEq, Eq, Structural)]
pub struct HostMotion {
    pub x: i32,
    pub y: i32,
    pub dx: i64,
    pub dy: i64,
    pub dx_unaccel: i64,
    pub dy_unaccel: i64,
}

/// The motion from one reported position to the next. The first position moves
/// nothing.
pub open spec fn motion_from(last: Option<(i32, i32)>, x: i32, y: i32) -> HostMotion {
    match last {
        Some((px, py)) => HostMotion {
            x,
            y,
            dx: (x - px) as i64,
            dy: (y - py) as i64,
            dx_unaccel: (x - px) as i64,
            dy_unaccel: (y - py) as i64,
        },
        None => HostMotion { x, y, dx: 0, dy: 0, dx_unaccel: 0, dy_unaccel: 0 },
    }
}

/// Turn a reported position into a motion, and remember it for the next one.
pub fn host_pointer_motion(last: &mut Option<(i32, i32)>, x: i32, y: i32) -> (motion: HostMotion)
    ensures
        motion == motion_from(*old(last), x, y),
        *final(last) == Some((x, y)),
{
    let (dx, dy): (i64, i64) = match *last {
        Some((px, py)) => (x as i64 - px as i64, y as i64 - py as i64),
        None => (0, 0),
    };
    *last = Some((x, y));
    HostMotion { x, y, dx, dy, dx_unaccel: dx, dy_unaccel: dy }
}

/// Reported distances add up to the way from the first position to the last.
pub proof fn motions_add_up(start: (i32, i32), middle: (i32, i32), end: (i32, i32))
    ensures
        motion_from(Some(start), middle.0, middle.1).dx + motion_from(
            Some(middle),
            end.0,
            end.1,
        ).dx == end.0 - start.0,
        motion_from(Some(start), middle.0, middle.1).dy + motion_from(
            Some(middle),
            end.0,
            end.1,
        ).dy == end.1 - start.1,
{
}

/// The axis that a protocol number stands for: zero is vertical, one is
/// horizontal.
pub fn pointer_axis_slot(frame: &mut PointerAxisFrame, axis: u32) -> (slot: Option<
    &mut PointerAxis,
>)
    ensures
        axis == 0 ==> slot is Some && *slot->0 == old(frame).vertical && *final(frame) == (
        PointerAxisFrame { vertical: *final(slot->0), ..*old(frame) }),
        axis == 1 ==> slot is Some && *slot->0 == old(frame).horizontal && *final(frame) == (
        PointerAxisFrame { horizontal: *final(slot->0), ..*old(frame) }),
        axis > 1 ==> slot is None && *final(frame) == *old(frame),
{
    if axis == 0 {
        Some(&mut frame.vertical)
    } else if axis == 1 {
        Some(&mut frame.horizontal)
    } else {
        None
    }
}

/// What the host's pointer and keyboard did.
#[derive(Debug, Clone, Copy, PartialEq, Eq, Structural)]
pub enum HostInput {
    PointerMotion(HostMotion),
    PointerLeave,
    PointerButton { button: u32, state: ButtonState },
    PointerAxis(PointerAxisFrame),
    Key { code: u32, state: ButtonState },
}

/// The sum of an optional number and another.
pub open spec fn plus(value: Option<i32>, more: i32) -> int {
    match value {
        Some(value) => value + more,
        None => more as int,
    }
}

/// The sum of an optional fixed-point distance and another.
pub open spec fn plus_fixed(value: Option<i64>, more: i32) -> int {
    match value {
        Some(value) => value + more,
        None => more as int,
    }
}

/// The axis that a protocol number stands for.
pub open spec fn axis_of(frame: PointerAxisFrame, axis: u32) -> PointerAxis {
    if axis == 0 {
        frame.vertical
    } else {
        frame.horizontal
    }
}

/// The frame with the axis that a protocol number stands for replaced; numbers
/// that stand for none change nothing.
pub open spec fn with_axis(frame: PointerAxisFrame, axis: u32, slot: PointerAxis) -> PointerAxisFrame {
    if axis == 0 {
        PointerAxisFrame { vertical: slot, ..frame }
    } else if axis == 1 {
        PointerAxisFrame { horizontal: slot, ..frame }
    } else {
        frame
    }
}

/// The frame after a distance on an axis. A zero distance only tells the time.
pub open spec fn after_axis(frame: PointerAxisFrame, time: u32, axis: u32, value: i32) -> PointerAxisFrame {
    let timed = PointerAxisFrame { time, ..frame };
    if value == 0 {
        timed
    } else {
        with_axis(
            timed,
            axis,
            PointerAxis {
                value: Some(plus_fixed(axis_of(frame, axis).value, value) as i64),
                ..axis_of(frame, axis)
            },
        )
    }
}

impl PointerAxisFrame {
    /// Add a distance to an axis.
    pub fn add_distance(&mut self, time: u32, axis: u32, value: i32)
        requires
            axis <= 1 ==> i64::MIN <= plus_fixed(axis_of(*old(self), axis).value, value)
                <= i64::MAX,
        ensures
            *final(self) == after_axis(*old(self), time, axis, value),
    {
        self.time = time;
        if value != 0 {
            if let Some(slot) = pointer_axis_slot(self, axis) {
                let sum: i64 = match slot.value {
                    Some(sum) => sum + value as i64,
                    None => value as i64,
                };
                slot.value = Some(sum);
            }
        }
    }

    /// Record what the motion comes from.
    pub fn set_source(&mut self, source: u32)
        ensures
            *final(self) == (PointerAxisFrame {
                source: if source == 0 {
                    Some(PointerAxisSource::Wheel)
                } else if source == 1 {
                    Some(PointerAxisSource::Finger)
                } else if source == 2 {
                    Some(PointerAxisSource::Continuous)
                } else if source == 3 {
                    Some(PointerAxisSource::WheelTilt)
                } else {
                    None
                },
                ..*old(self)
            }),
    {
        self.source = if source == 0 {
            Some(PointerAxisSource::Wheel)
        } else if source == 1 {
            Some(PointerAxisSource::Finger)
        } else if source == 2 {
            Some(PointerAxisSource::Continuous)
        } else if source == 3 {
            Some(PointerAxisSource::WheelTilt)
        } else {
            None
        };
    }

    /// Record that an axis stopped.
    pub fn set_stop(&mut self, time: u32, axis: u32)
        ensures
            *final(self) == with_axis(
                PointerAxisFrame { time, ..*old(self) },
                axis,
                PointerAxis { stop: true, ..axis_of(*old(self), axis) },
            ),
    {
        self.time = time;
        if let Some(slot) = pointer_axis_slot(self, axis) {
            slot.stop = true;
        }
    }

    /// Add whole wheel steps to an axis.
    pub fn add_discrete(&mut self, axis: u32, discrete: i32)
        requires
            axis <= 1 ==> i32::MIN <= plus(axis_of(*old(self), axis).discrete, discrete)
                <= i32::MAX,
        ensures
            *final(self) == with_axis(
                *old(self),
                axis,
                PointerAxis {
                    discrete: Some(plus(axis_of(*old(self), axis).discrete, discrete) as i32),
                    ..axis_of(*old(self), axis)
                },
            ),
    {
        if let Some(slot) = pointer_axis_slot(self, axis) {
            let sum: i32 = match slot.discrete {
                Some(sum) => sum + discrete,
                None => discrete,
            };
            slot.discrete = Some(sum);
        }
    }

    /// Add fractions of a wheel step, in 120ths, to an axis.
    pub fn add_value120(&mut self, axis: u32, value120: i32)
        requires
            axis <= 1 ==> i32::MIN <= plus(axis_of(*old(self), axis).value120, value120)
                <= i32::MAX,
        ensures
            *final(self) == with_axis(
                *old(self),
                axis,
                PointerAxis {
                    value120: Some(plus(axis_of(*old(self), axis).value120, value120) as i32),
                    ..axis_of(*old(self), axis)
                },
            ),
    {
        if let Some(slot) = pointer_axis_slot(self, axis) {
            let sum: i32 = match slot.value120 {
                Some(sum) => sum + value120,
                None => value120,
            };
            slot.value120 = Some(sum);
        }
    }

    /// Record which way an axis moves relative to the fingers.
    pub fn set_direction(&mut self, axis: u32, direction: u32)
        ensures
            *final(self) == with_axis(
                *old(self),
                axis,
                PointerAxis {
                    relative_direction: if direction == 0 {
                        Some(PointerAxisRelativeDirection::Identical)
                    } else if direction == 1 {
                        Some(PointerAxisRelativeDirection::Inverted)
                    } else {
                        None
                    },
                    ..axis_of(*old(self), axis)
                },
            ),
    {
        if let Some(slot) = pointer_axis_slot(self, axis) {
            slot.relative_direction = if direction == 0 {
                Some(PointerAxisRelativeDirection::Identical)
            } else if direction == 1 {
                Some(PointerAxisRelativeDirection::Inverted)
            } else {
                None
            };
        }
    }
}

/// An offer is taken up in no higher version than the host has or than is known here, and
/// in the highest such version.
pub proof fn versions_suit_both_sides(
    interface: &str,
    version: u32,
    binding: Option<(HostGlobal, u32)>,
)
    requires
        version >= 1,
        call_ensures(bind_global, (interface, version), binding),
    ensures
        binding matches Some((global, used)) ==> {
            let known = if global == HostGlobal::Compositor {
                4int
            } else if global == HostGlobal::Seat {
                9
            } else if global == HostGlobal::Output || global == HostGlobal::CursorShape {
                2
            } else if global == HostGlobal::PointerGestures {
                3
            } else {
                1
            };
            &&& used <= version && used <= known
            &&& used == version || used == known
        },
        interface@ == "wl_compositor"@ ==> binding is Some && (binding->0).0
            == HostGlobal::Compositor,
{
}

/// Every interface name that is used stands for its own offer.
pub proof fn offers_are_known_by_name(
    interface: &str,
    version: u32,
    binding: Option<(HostGlobal, u32)>,
)
    requires
        call_ensures(bind_global, (interface, version), binding),
        binding is Some,
    ensures
        ({
            let global = (binding->0).0;
            &&& global == HostGlobal::Compositor ==> interface@ == "wl_compositor"@
            &&& global == HostGlobal::WmBase ==> interface@ == "xdg_wm_base"@
            &&& global == HostGlobal::Seat ==> interface@ == "wl_seat"@
            &&& global == HostGlobal::Output ==> interface@ == "wl_output"@
            &&& global == HostGlobal::Viewporter ==> interface@ == "wp_viewporter"@
            &&& global == HostGlobal::FractionalScale ==> interface@
                == "wp_fractional_scale_manager_v1"@
            &&& global == HostGlobal::CursorShape ==> interface@ == "wp_cursor_shape_manager_v1"@
            &&& global == HostGlobal::PointerGestures ==> interface@ == "zwp_pointer_gestures_v1"@
            &&& global == HostGlobal::TextInput ==> interface@ == "zwp_text_input_manager_v3"@
        }),
{
}

/// A window needs both a compositor and window management.
pub proof fn windows_need_both(
    has_compositor: bool,
    has_wm_base: bool,
    result: Result<(), NestedError>,
)
    requires
        call_ensures(check_globals, (has_compositor, has_wm_base), result),
    ensures
        result is Ok <==> has_compositor && has_wm_base,
        result is Err ==> result->Err_0 is MissingGlobal,
{
}

/// After a step the seat's devices that are held are exactly those it offers.
pub proof fn held_devices_are_offered(
    capabilities: u32,
    has_pointer: bool,
    has_keyboard: bool,
    step: SeatStep,
)
    requires
        call_ensures(seat_step, (capabilities, has_pointer, has_keyboard), step),
    ensures
        ((has_pointer && !step.release_pointer) || step.bind_pointer) <==> capabilities & 1u32
            != 0,
        ((has_keyboard && !step.release_keyboard) || step.bind_keyboard) <==> capabilities & 2u32
            != 0,
        step.bind_pointer ==> !has_pointer,
        step.release_pointer ==> has_pointer,
        step.bind_keyboard ==> !has_keyboard,
        step.release_keyboard ==> has_keyboard,
{
}

/// Gestures are asked for once, with a pointer, and only those that the manager knows.
pub proof fn gestures_are_asked_for_once(
    has_pointer: bool,
    version: Option<u32>,
    has_swipe: bool,
    step: GestureStep,
)
    requires
        call_ensures(gesture_step, (has_pointer, version, has_swipe), step),
    ensures
        step.swipe <==> has_pointer && version is Some && !has_swipe,
        step.pinch <==> step.swipe && version->0 >= 2,
        step.hold <==> step.swipe && version->0 >= 3,
{
}

/// Two positions after each other are the distance between them apart; the first moves
/// nothing. The unaccelerated distances are the same.
pub proof fn distances_lie_between_positions(
    first: &mut Option<(i32, i32)>,
    second: &mut Option<(i32, i32)>,
    a: (i32, i32),
    b: (i32, i32),
    entered: HostMotion,
    moved: HostMotion,
)
    requires
        *first is None,
        call_ensures(host_pointer_motion, (first, a.0, a.1), entered),
        *second == *final(first),
        call_ensures(host_pointer_motion, (second, b.0, b.1), moved),
    ensures
        entered.x == a.0 && entered.y == a.1 && entered.dx == 0 && entered.dy == 0,
        moved.x == b.0 && moved.y == b.1,
        moved.dx == b.0 - a.0 && moved.dy == b.1 - a.1,
        moved.dx_unaccel == moved.dx && moved.dy_unaccel == moved.dy,
{
}

/// Scroll distances of an axis add up, and leave the other axis alone.
pub proof fn scroll_distances_add_up(
    first: &mut PointerAxisFrame,
    second: &mut PointerAxisFrame,
    time: u32,
    later: u32,
    axis: u32,
    more: i32,
    most: i32,
)
    requires
        axis <= 1,
        more != 0 && most != 0,
        first.vertical.value is None && first.horizontal.value is None,
        call_ensures(PointerAxisFrame::add_distance, (first, time, axis, more), ()),
        *second == *final(first),
        call_ensures(PointerAxisFrame::add_distance, (second, later, axis, most), ()),
    ensures
        final(second).time == later,
        axis == 0 ==> final(second).vertical.value is Some && final(second).vertical.value->0
            == more + most && final(second).horizontal == old(first).horizontal,
        axis == 1 ==> final(second).horizontal.value is Some && final(second).horizontal.value->0
            == more + most && final(second).vertical == old(first).vertical,
{
}

/// Wheel steps of an axis add up, whole ones and 120ths each on their own, and leave the
/// other axis alone.
pub proof fn wheel_steps_add_up(
    steps: &mut PointerAxisFrame,
    parts: &mut PointerAxisFrame,
    axis: u32,
    more: i32,
)
    requires
        axis <= 1,
        i32::MIN <= plus(axis_of(*steps, axis).discrete, more) <= i32::MAX,
        i32::MIN <= plus(axis_of(*parts, axis).value120, more) <= i32::MAX,
        call_ensures(PointerAxisFrame::add_discrete, (steps, axis, more), ()),
        call_ensures(PointerAxisFrame::add_value120, (parts, axis, more), ()),
    ensures
        axis == 0 ==> {
            &&& final(steps).vertical.discrete is Some
            &&& final(steps).vertical.discrete->0
                == more + (if old(steps).vertical.discrete is Some {
                old(steps).vertical.discrete->0 as int
            } else {
                0
            })
            &&& final(steps).vertical.value120 == old(steps).vertical.value120
            &&& final(steps).horizontal == old(steps).horizontal
            &&& final(parts).vertical.value120 is Some
            &&& final(parts).vertical.value120->0
                == more + (if old(parts).vertical.value120 is Some {
                old(parts).vertical.value120->0 as int
            } else {
                0
            })
            &&& final(parts).vertical.discrete == old(parts).vertical.discrete
            &&& final(parts).horizontal == old(parts).horizontal
        },
        axis == 1 ==> {
            &&& final(steps).horizontal.discrete is Some
            &&& final(steps).horizontal.discrete->0 == more + (if old(steps).horizontal.discrete
                is Some {
                old(steps).horizontal.discrete->0 as int
            } else {
                0
            })
            &&& final(steps).vertical == old(steps).vertical
            &&& final(parts).horizontal.value120 is Some
            &&& final(parts).horizontal.value120->0 == more + (if old(parts).horizontal.value120
                is Some {
                old(parts).horizontal.value120->0 as int
            } else {
                0
            })
            &&& final(parts).vertical == old(parts).vertical
        },
{
}

/// A stop, a source and a direction are recorded as told.
pub proof fn scrolling_is_described_as_told(
    stopped: &mut PointerAxisFrame,
    sourced: &mut PointerAxisFrame,
    directed: &mut PointerAxisFrame,
    time: u32,
    axis: u32,
    number: u32,
)
    requires
        axis <= 1,
        call_ensures(PointerAxisFrame::set_stop, (stopped, time, axis), ()),
        call_ensures(PointerAxisFrame::set_source, (sourced, number), ()),
        call_ensures(PointerAxisFrame::set_direction, (directed, axis, number), ()),
    ensures
        final(stopped).time == time,
        axis == 0 ==> final(stopped).vertical.stop && final(stopped).horizontal
            == old(stopped).horizontal,
        axis == 1 ==> final(stopped).horizontal.stop && final(stopped).vertical
            == old(stopped).vertical,
        number == 0 ==> final(sourced).source == Some(PointerAxisSource::Wheel),
        number == 1 ==> final(sourced).source == Some(PointerAxisSource::Finger),
        number == 2 ==> final(sourced).source == Some(PointerAxisSource::Continuous),
        number == 3 ==> final(sourced).source == Some(PointerAxisSource::WheelTilt),
        final(sourced).vertical == old(sourced).vertical && final(sourced).horizontal
            == old(sourced).horizontal,
        axis == 0 && number == 0 ==> final(directed).vertical.relative_direction == Some(
            PointerAxisRelativeDirection::Identical,
        ),
        axis == 0 && number == 1 ==> final(directed).vertical.relative_direction == Some(
            PointerAxisRelativeDirection::Inverted,
        ),
        axis == 1 && number == 0 ==> final(directed).horizontal.relative_direction == Some(
            PointerAxisRelativeDirection::Identical,
        ),
        axis == 1 && number == 1 ==> final(directed).horizontal.relative_direction == Some(
            PointerAxisRelativeDirection::Inverted,
        ),
{
}

} // verus!
