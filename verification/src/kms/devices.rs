//! Input devices: what they are, how they are set up, and what they report.

use vstd::prelude::*;
use crate::text::{insert_text, texts, texts_increase};

verus! {

/// What an input device can do.
#[derive(Debug, Clone, Copy, PartialEq, Eq, Structural)]
pub struct DeviceCapabilities {
    pub pointer: bool,
    pub tablet_tool: bool,
    /// How many fingers can tap at once.
    pub tap_fingers: u32,
    pub disable_while_typing: bool,
    pub two_finger_scroll: bool,
    pub edge_scroll: bool,
    pub natural_scroll: bool,
    pub acceleration: bool,
}

/// The kinds of pointer devices that are set up.
#[derive(Debug, Clone, Copy, PartialEq, Eq, Structural)]
pub enum PointerClass {
    Touchpad,
    Mouse,
}

/// How a touchpad scrolls.
#[derive(Debug, Clone, Copy, PartialEq, Eq, Structural)]
pub enum TouchpadScrollMethod {
    TwoFinger,
    Edge,
}

/// The configured behaviour of touchpads. Speeds are kept by the bits of their
/// floating-point numbers.
#[derive(Debug, Clone, Copy, PartialEq, Eq, Structural)]
pub struct TouchpadConfig {
    pub natural_scroll: bool,
    pub tap_to_click: bool,
    pub tap_and_drag: bool,
    pub drag_lock: bool,
    pub disable_while_typing: bool,
    pub pointer_speed_bits: u32,
    pub scroll_speed_bits: u32,
    pub scroll_method: TouchpadScrollMethod,
}

/// The configured behaviour of mice. Speeds are kept by the bits of their
/// floating-point numbers.
#[derive(Debug, Clone, Copy, PartialEq, Eq, Structural)]
pub struct MouseConfig {
    pub natural_scroll: bool,
    pub pointer_speed_bits: u32,
    pub scroll_speed_bits: u32,
}

/// One setting of a device.
#[derive(Debug, Clone, Copy, PartialEq, Eq, Structural)]
pub enum DeviceSetting {
    NaturalScroll(bool),
    TapToClick(bool),
    TapAndDrag(bool),
    DragLock(bool),
    DisableWhileTyping(bool),
    /// The pointer speed, to be held within its range.
    PointerSpeed(u32),
    ScrollMethod(TouchpadScrollMethod),
}

/// Whether a device is a touchpad: a pointer that taps, watches for typing, or
/// scrolls by fingers.
pub open spec fn touchpad(device: DeviceCapabilities) -> bool {
    device.pointer && (device.tap_fingers > 0 || device.disable_while_typing
        || device.two_finger_scroll || device.edge_scroll)
}

/// Whether a device is a touchpad.
pub fn is_touchpad(device: &DeviceCapabilities) -> (answer: bool)
    ensures
        answer == touchpad(*device),
{
    device.pointer && (device.tap_fingers > 0 || device.disable_while_typing
        || device.two_finger_scroll || device.edge_scroll)
}

/// Whether a device is a plain mouse: a pointer that is neither a touchpad nor a
/// tablet tool.
pub fn is_mouse(device: &DeviceCapabilities) -> (answer: bool)
    ensures
        answer == (device.pointer && !device.tablet_tool && !touchpad(*device)),
{
    device.pointer && !device.tablet_tool && !is_touchpad(device)
}

/// What a device is set up as, if as anything.
pub fn classify(device: &DeviceCapabilities) -> (class: Option<PointerClass>)
    ensures
        class == if touchpad(*device) {
            Some(PointerClass::Touchpad)
        } else if device.pointer && !device.tablet_tool {
            Some(PointerClass::Mouse)
        } else {
            None
        },
{
    if is_touchpad(device) {
        Some(PointerClass::Touchpad)
    } else if is_mouse(device) {
        Some(PointerClass::Mouse)
    } else {
        None
    }
}

/// The settings of a mouse.
pub open spec fn mouse_settings(
    device: DeviceCapabilities,
    config: MouseConfig,
) -> Seq<DeviceSetting> {
    scroll_part(device, config.natural_scroll) + speed_part(device, config.pointer_speed_bits)
}

/// The settings of a mouse: what it can do is set as configured.
pub fn mouse_profile(device: &DeviceCapabilities, config: &MouseConfig) -> (list: Vec<
    DeviceSetting,
>)
    ensures
        list@ == mouse_settings(*device, *config),
{
    let mut list: Vec<DeviceSetting> = Vec::new();
    if device.natural_scroll {
        list.push(DeviceSetting::NaturalScroll(config.natural_scroll));
    }
    if device.acceleration {
        list.push(DeviceSetting::PointerSpeed(config.pointer_speed_bits));
    }
    assert(list@ =~= mouse_settings(*device, *config));
    list
}

/// How a touchpad is made to scroll: as asked if it can, otherwise with two
/// fingers, otherwise at the edge.
pub open spec fn scroll_choice(
    device: DeviceCapabilities,
    asked: TouchpadScrollMethod,
) -> Option<TouchpadScrollMethod> {
    let can = match asked {
        TouchpadScrollMethod::TwoFinger => device.two_finger_scroll,
        TouchpadScrollMethod::Edge => device.edge_scroll,
    };
    if can {
        Some(asked)
    } else if device.two_finger_scroll {
        Some(TouchpadScrollMethod::TwoFinger)
    } else if device.edge_scroll {
        Some(TouchpadScrollMethod::Edge)
    } else {
        None
    }
}

/// How a touchpad is made to scroll.
pub fn choose_scroll_method(
    device: &DeviceCapabilities,
    asked: TouchpadScrollMethod,
) -> (method: Option<TouchpadScrollMethod>)
    ensures
        method == scroll_choice(*device, asked),
{
    let can = match asked {
        TouchpadScrollMethod::TwoFinger => device.two_finger_scroll,
        TouchpadScrollMethod::Edge => device.edge_scroll,
    };
    if can {
        Some(asked)
    } else if device.two_finger_scroll {
        Some(TouchpadScrollMethod::TwoFinger)
    } else if device.edge_scroll {
        Some(TouchpadScrollMethod::Edge)
    } else {
        None
    }
}

/// The setting for natural scrolling, if the device has it.
pub open spec fn scroll_part(device: DeviceCapabilities, natural: bool) -> Seq<DeviceSetting> {
    if device.natural_scroll {
        seq![DeviceSetting::NaturalScroll(natural)]
    } else {
        Seq::empty()
    }
}

/// The settings for tapping, if the device has it.
pub open spec fn tap_part(
    device: DeviceCapabilities,
    config: TouchpadConfig,
) -> Seq<DeviceSetting> {
    if device.tap_fingers > 0 {
        seq![
            DeviceSetting::TapToClick(config.tap_to_click),
            DeviceSetting::TapAndDrag(config.tap_and_drag),
            DeviceSetting::DragLock(config.drag_lock),
        ]
    } else {
        Seq::empty()
    }
}

/// The setting for typing, if the device has it.
pub open spec fn typing_part(device: DeviceCapabilities, disable: bool) -> Seq<DeviceSetting> {
    if device.disable_while_typing {
        seq![DeviceSetting::DisableWhileTyping(disable)]
    } else {
        Seq::empty()
    }
}

/// The setting for the pointer speed, if the device has it.
pub open spec fn speed_part(device: DeviceCapabilities, bits: u32) -> Seq<DeviceSetting> {
    if device.acceleration {
        seq![DeviceSetting::PointerSpeed(bits)]
    } else {
        Seq::empty()
    }
}

/// The setting for the way of scrolling, if the device has any.
pub open spec fn method_part(
    device: DeviceCapabilities,
    asked: TouchpadScrollMethod,
) -> Seq<DeviceSetting> {
    match scroll_choice(device, asked) {
        Some(method) => seq![DeviceSetting::ScrollMethod(method)],
        None => Seq::empty(),
    }
}

/// The settings of a touchpad.
pub open spec fn touchpad_settings(
    device: DeviceCapabilities,
    config: TouchpadConfig,
) -> Seq<DeviceSetting> {
    scroll_part(device, config.natural_scroll) + tap_part(device, config) + typing_part(
        device,
        config.disable_while_typing,
    ) + speed_part(device, config.pointer_speed_bits) + method_part(device, config.scroll_method)
}

/// The settings of a touchpad: what it can do is set as configured.
pub fn touchpad_profile(device: &DeviceCapabilities, config: &TouchpadConfig) -> (list: Vec<
    DeviceSetting,
>)
    ensures
        list@ == touchpad_settings(*device, *config),
{
    let mut list: Vec<DeviceSetting> = Vec::new();
    if device.natural_scroll {
        list.push(DeviceSetting::NaturalScroll(config.natural_scroll));
    }
    let ghost scroll = scroll_part(*device, config.natural_scroll);
    assert(list@ =~= scroll);
    add_tap_settings(&mut list, device, config);
    let ghost tapped = scroll + tap_part(*device, *config);
    if device.disable_while_typing {
        list.push(DeviceSetting::DisableWhileTyping(config.disable_while_typing));
    }
    let ghost typed = tapped + typing_part(*device, config.disable_while_typing);
    assert(list@ =~= typed);
    if device.acceleration {
        list.push(DeviceSetting::PointerSpeed(config.pointer_speed_bits));
    }
    let ghost sped = typed + speed_part(*device, config.pointer_speed_bits);
    assert(list@ =~= sped);
    if let Some(method) = choose_scroll_method(device, config.scroll_method) {
        list.push(DeviceSetting::ScrollMethod(method));
    }
    assert(list@ =~= sped + method_part(*device, config.scroll_method));
    list
}

fn add_tap_settings(
    list: &mut Vec<DeviceSetting>,
    device: &DeviceCapabilities,
    config: &TouchpadConfig,
)
    ensures
        final(list)@ == old(list)@ + tap_part(*device, *config),
{
    if device.tap_fingers > 0 {
        list.push(DeviceSetting::TapToClick(config.tap_to_click));
        list.push(DeviceSetting::TapAndDrag(config.tap_and_drag));
        list.push(DeviceSetting::DragLock(config.drag_lock));
    }
    assert(list@ =~= old(list)@ + tap_part(*device, *config));
}

/// What the attached touchpads can do between them.
#[derive(Debug, Clone, Copy, PartialEq, Eq, Structural)]
pub struct TouchpadCapabilities {
    pub natural_scroll: bool,
    pub tap_to_click: bool,
    pub tap_and_drag: bool,
    pub drag_lock: bool,
    pub disable_while_typing: bool,
    pub pointer_speed: bool,
    pub two_finger_scroll: bool,
    pub edge_scroll: bool,
}

/// What the attached mice can do between them.
#[derive(Debug, Clone, Copy, PartialEq, Eq, Structural)]
pub struct MouseCapabilities {
    pub natural_scroll: bool,
    pub pointer_speed: bool,
}

/// Whether some device of a list passes a test.
pub open spec fn any_device(
    devices: Seq<(String, DeviceCapabilities)>,
    test: spec_fn(DeviceCapabilities) -> bool,
) -> bool {
    exists|i: int| 0 <= i < devices.len() && test((#[trigger] devices[i]).1)
}

/// What the touchpads of a list can do between them.
pub open spec fn touchpads_can(devices: Seq<(String, DeviceCapabilities)>) -> TouchpadCapabilities {
    let tap = any_device(devices, |d: DeviceCapabilities| d.tap_fingers > 0);
    TouchpadCapabilities {
        natural_scroll: any_device(devices, |d: DeviceCapabilities| d.natural_scroll),
        tap_to_click: tap,
        tap_and_drag: tap,
        drag_lock: tap,
        disable_while_typing: any_device(devices, |d: DeviceCapabilities| d.disable_while_typing),
        pointer_speed: any_device(devices, |d: DeviceCapabilities| d.acceleration),
        two_finger_scroll: any_device(devices, |d: DeviceCapabilities| d.two_finger_scroll),
        edge_scroll: any_device(devices, |d: DeviceCapabilities| d.edge_scroll),
    }
}

/// What the mice of a list can do between them.
pub open spec fn mice_can(devices: Seq<(String, DeviceCapabilities)>) -> MouseCapabilities {
    MouseCapabilities {
        natural_scroll: any_device(devices, |d: DeviceCapabilities| d.natural_scroll),
        pointer_speed: any_device(devices, |d: DeviceCapabilities| d.acceleration),
    }
}

/// Whether `names` lists the names of the devices, each once, in order.
pub open spec fn names_of(devices: Seq<(String, DeviceCapabilities)>, names: Seq<String>) -> bool {
    &&& texts_increase(texts(names))
    &&& forall|t: Seq<char>| #[trigger]
        texts(names).contains(t) <==> exists|i: int|
            0 <= i < devices.len() && (#[trigger] devices[i]).0@ == t
}

/// Whether some device passes a test, one more device considered.
proof fn lemma_any_device(
    devices: Seq<(String, DeviceCapabilities)>,
    count: int,
    test: spec_fn(DeviceCapabilities) -> bool,
)
    requires
        0 <= count < devices.len(),
    ensures
        any_device(devices.take(count + 1), test) == (any_device(devices.take(count), test) || test(
            devices[count].1,
        )),
{
    let now = devices.take(count + 1);
    let earlier = devices.take(count);
    if any_device(now, test) {
        let i = choose|i: int| 0 <= i < now.len() && test((#[trigger] now[i]).1);
        if i < count {
            assert(test(earlier[i].1));
        }
    }
    if any_device(earlier, test) {
        let i = choose|i: int| 0 <= i < earlier.len() && test((#[trigger] earlier[i]).1);
        assert(test(now[i].1));
    }
    if test(devices[count].1) {
        assert(test(now[count].1));
    }
}

/// List the names of devices, each once, in order.
pub fn device_names(devices: &[(String, DeviceCapabilities)]) -> (names: Vec<String>)
    ensures
        names_of(devices@, names@),
{
    let mut names: Vec<String> = Vec::new();
    let mut index: usize = 0;
    while index < devices.len()
        invariant
            index <= devices.len(),
            names_of(devices@.take(index as int), names@),
        decreases devices.len() - index,
    {
        let ghost before = names@;
        insert_text(&mut names, devices[index].0.as_str());
        proof {
            let now = devices@.take(index + 1);
            let earlier = devices@.take(index as int);
            assert forall|t: Seq<char>| #[trigger] texts(names@).contains(t) <==> exists|i: int|
                0 <= i < now.len() && (#[trigger] now[i]).0@ == t by {
                if texts(before).contains(t) {
                    let i = choose|i: int| 0 <= i < earlier.len()
                        && (#[trigger] earlier[i]).0@ == t;
                    assert(now[i].0@ == t);
                }
                if t == devices@[index as int].0@ {
                    assert(now[index as int].0@ == t);
                }
                if exists|i: int| 0 <= i < now.len() && (#[trigger] now[i]).0@ == t {
                    let i = choose|i: int| 0 <= i < now.len() && (#[trigger] now[i]).0@ == t;
                    if i < index {
                        assert(earlier[i].0@ == t);
                    }
                }
            }
        }
        index += 1;
    }
    assert(devices@.take(devices.len() as int) =~= devices@);
    names
}

/// What the touchpads of a list can do between them.
pub fn touchpad_capabilities(devices: &[(String, DeviceCapabilities)]) -> (can: TouchpadCapabilities)
    ensures
        can == touchpads_can(devices@),
{
    let mut can = TouchpadCapabilities {
        natural_scroll: false,
        tap_to_click: false,
        tap_and_drag: false,
        drag_lock: false,
        disable_while_typing: false,
        pointer_speed: false,
        two_finger_scroll: false,
        edge_scroll: false,
    };
    let mut index: usize = 0;
    while index < devices.len()
        invariant
            index <= devices.len(),
            can == touchpads_can(devices@.take(index as int)),
        decreases devices.len() - index,
    {
        let device: DeviceCapabilities = devices[index].1;
        proof {
            let d = devices@;
            let n = index as int;
            lemma_any_device(d, n, |d: DeviceCapabilities| d.tap_fingers > 0);
            lemma_any_device(d, n, |d: DeviceCapabilities| d.natural_scroll);
            lemma_any_device(d, n, |d: DeviceCapabilities| d.disable_while_typing);
            lemma_any_device(d, n, |d: DeviceCapabilities| d.acceleration);
            lemma_any_device(d, n, |d: DeviceCapabilities| d.two_finger_scroll);
            lemma_any_device(d, n, |d: DeviceCapabilities| d.edge_scroll);
        }
        let tap = device.tap_fingers > 0;
        can.natural_scroll = can.natural_scroll || device.natural_scroll;
        can.tap_to_click = can.tap_to_click || tap;
        can.tap_and_drag = can.tap_and_drag || tap;
        can.drag_lock = can.drag_lock || tap;
        can.disable_while_typing = can.disable_while_typing || device.disable_while_typing;
        can.pointer_speed = can.pointer_speed || device.acceleration;
        can.two_finger_scroll = can.two_finger_scroll || device.two_finger_scroll;
        can.edge_scroll = can.edge_scroll || device.edge_scroll;
        index += 1;
    }
    assert(devices@.take(devices.len() as int) =~= devices@);
    can
}

/// What the mice of a list can do between them.
pub fn mouse_capabilities(devices: &[(String, DeviceCapabilities)]) -> (can: MouseCapabilities)
    ensures
        can == mice_can(devices@),
{
    let mut can = MouseCapabilities { natural_scroll: false, pointer_speed: false };
    let mut index: usize = 0;
    while index < devices.len()
        invariant
            index <= devices.len(),
            can == mice_can(devices@.take(index as int)),
        decreases devices.len() - index,
    {
        let device: DeviceCapabilities = devices[index].1;
        proof {
            let d = devices@;
            let n = index as int;
            lemma_any_device(d, n, |d: DeviceCapabilities| d.natural_scroll);
            lemma_any_device(d, n, |d: DeviceCapabilities| d.acceleration);
        }
        can.natural_scroll = can.natural_scroll || device.natural_scroll;
        can.pointer_speed = can.pointer_speed || device.acceleration;
        index += 1;
    }
    assert(devices@.take(devices.len() as int) =~= devices@);
    can
}

/// A scaled wheel motion: whole steps for clients that count steps, and the
/// motion in 120ths of a step.
#[derive(Debug, Clone, Copy, PartialEq, Eq, Structural)]
pub struct WheelSteps {
    pub discrete: Option<i32>,
    pub value120: i32,
}

/// The quotient of a number by 120, rounded towards zero.
pub open spec fn whole_steps(value: int) -> int {
    if value >= 0 {
        value / 120
    } else {
        -((-value) / 120)
    }
}

/// The steps of a wheel motion of `value120`, which scaling has made
/// `scaled120`.
///
/// Only whole steps are reported, because a fine wheel moves by fractions and
/// each of them is no step. A full step that was slowed below one still counts
/// as one, so that a slowed wheel does not feel dead. A motion that scaling has
/// made zero is not reported at all.
pub fn wheel_steps(value120: i32, scaled120: i32) -> (steps: Option<WheelSteps>)
    ensures
        steps == if scaled120 == 0 {
            None
        } else {
            Some(
                WheelSteps {
                    discrete: if whole_steps(scaled120 as int) != 0 {
                        Some(whole_steps(scaled120 as int) as i32)
                    } else if value120 >= 120 || value120 <= -120 {
                        Some(
                            if scaled120 > 0 {
                                1
                            } else {
                                -1i32
                            },
                        )
                    } else {
                        None
                    },
                    value120: scaled120,
                },
            )
        },
{
    if scaled120 == 0 {
        return None;
    }
    let magnitude: u32 = if scaled120 > 0 {
        scaled120 as u32
    } else if scaled120 == i32::MIN {
        0x8000_0000
    } else {
        (-scaled120) as u32
    };
    let whole: i32 = if scaled120 > 0 {
        (magnitude / 120) as i32
    } else {
        -((magnitude / 120) as i32)
    };
    let discrete: Option<i32> = if whole != 0 {
        Some(whole)
    } else if value120 >= 120 || value120 <= -120 {
        if scaled120 > 0 {
            Some(1)
        } else {
            Some(-1)
        }
    } else {
        None
    };
    Some(WheelSteps { discrete, value120: scaled120 })
}

/// The tools of a drawing tablet.
#[derive(Debug, Clone, Copy, PartialEq, Eq, Structural)]
pub enum TabletTool {
    Pen,
    Eraser,
    Brush,
    Pencil,
    Airbrush,
    Mouse,
    Lens,
    Other,
}

/// The protocol's number for a tool. Unknown tools count as pens.
pub open spec fn tool_kind(tool: TabletTool) -> u32 {
    match tool {
        TabletTool::Pen => 0x140u32,
        TabletTool::Eraser => 0x141,
        TabletTool::Brush => 0x142,
        TabletTool::Pencil => 0x143,
        TabletTool::Airbrush => 0x144,
        TabletTool::Mouse => 0x146,
        TabletTool::Lens => 0x147,
        TabletTool::Other => 0x140,
    }
}

/// The protocol's number for a tool.
pub fn tablet_tool_kind(tool: TabletTool) -> (kind: u32)
    ensures
        kind == tool_kind(tool),
{
    match tool {
        TabletTool::Pen => 0x140,
        TabletTool::Eraser => 0x141,
        TabletTool::Brush => 0x142,
        TabletTool::Pencil => 0x143,
        TabletTool::Airbrush => 0x144,
        TabletTool::Mouse => 0x146,
        TabletTool::Lens => 0x147,
        TabletTool::Other => 0x140,
    }
}

/// What tells one tool from another: its serial number, or its hardware number
/// and kind where it has none.
pub open spec fn tool_key(serial: u64, hardware_id: u64, kind: u32) -> u64 {
    if serial != 0 {
        serial
    } else {
        (hardware_id << 16u64) ^ (kind as u64)
    }
}

/// What tells one tool from another.
pub fn tablet_tool_key(serial: u64, hardware_id: u64, kind: u32) -> (key: u64)
    ensures
        key == tool_key(serial, hardware_id, kind),
{
    if serial != 0 {
        serial
    } else {
        (hardware_id << 16u64) ^ (kind as u64)
    }
}

/// Tools without a serial number are told apart by their hardware number and
/// kind, as long as the kind fits below the hardware number.
pub proof fn unserialed_tools_are_told_apart(
    left_id: u64,
    left_kind: u32,
    right_id: u64,
    right_kind: u32,
)
    requires
        left_kind < 0x1_0000,
        right_kind < 0x1_0000,
        left_id < 0x1_0000_0000_0000,
        right_id < 0x1_0000_0000_0000,
        tool_key(0, left_id, left_kind) == tool_key(0, right_id, right_kind),
    ensures
        left_id == right_id,
        left_kind == right_kind,
{
    let a = left_kind as u64;
    let b = right_kind as u64;
    assert(left_id == right_id && a == b) by (bit_vector)
        requires
            a < 0x1_0000,
            b < 0x1_0000,
            left_id < 0x1_0000_0000_0000,
            right_id < 0x1_0000_0000_0000,
            (left_id << 16u64) ^ a == (right_id << 16u64) ^ b,
    ;
}

/// What a tool can report besides its position.
#[derive(Debug, Clone, Copy, PartialEq, Eq, Structural)]
pub struct ToolAxes {
    pub tilt: bool,
    pub pressure: bool,
    pub distance: bool,
    pub rotation: bool,
    pub slider: bool,
    pub wheel: bool,
}

/// The weight of a flag in a capability mask.
pub open spec fn weight(present: bool, value: int) -> int {
    if present {
        value
    } else {
        0
    }
}

/// The capability mask of a tool: bits 1 to 6 for tilt, pressure, distance,
/// rotation, slider and wheel.
pub open spec fn tool_mask(axes: ToolAxes) -> int {
    weight(axes.tilt, 2) + weight(axes.pressure, 4) + weight(axes.distance, 8) + weight(
        axes.rotation,
        16,
    ) + weight(axes.slider, 32) + weight(axes.wheel, 64)
}

/// The capability mask of a tool.
pub fn tool_capabilities(axes: &ToolAxes) -> (mask: u32)
    ensures
        mask == tool_mask(*axes),
{
    let tilt: u32 = if axes.tilt {
        2
    } else {
        0
    };
    let pressure: u32 = if axes.pressure {
        4
    } else {
        0
    };
    let distance: u32 = if axes.distance {
        8
    } else {
        0
    };
    let rotation: u32 = if axes.rotation {
        16
    } else {
        0
    };
    let slider: u32 = if axes.slider {
        32
    } else {
        0
    };
    let wheel: u32 = if axes.wheel {
        64
    } else {
        0
    };
    tilt + pressure + distance + rotation + slider + wheel
}

/// The fingers of a gesture: a count that makes no sense counts as none.
pub fn gesture_fingers(count: i32) -> (fingers: u32)
    ensures
        fingers == if count > 0 {
            count as u32
        } else {
            0
        },
{
    if count > 0 {
        count as u32
    } else {
        0
    }
}

/// A pointer that taps, watches for typing or scrolls by fingers is set up as a touchpad; of
/// the other pointers those that are no tablet tools as mice; nothing else is set up.
pub proof fn pointers_are_told_apart(
    device: DeviceCapabilities,
    class: Option<PointerClass>,
    pad: bool,
    mouse: bool,
)
    requires
        call_ensures(classify, (&device,), class),
        call_ensures(is_touchpad, (&device,), pad),
        call_ensures(is_mouse, (&device,), mouse),
    ensures
        pad <==> device.pointer && (device.tap_fingers > 0 || device.disable_while_typing
            || device.two_finger_scroll || device.edge_scroll),
        mouse <==> device.pointer && !device.tablet_tool && device.tap_fingers == 0
            && !device.disable_while_typing && !device.two_finger_scroll && !device.edge_scroll,
        class == Some(PointerClass::Touchpad) <==> pad,
        class == Some(PointerClass::Mouse) <==> mouse,
        class is None <==> !pad && !mouse,
{
}

/// A mouse gets each configured setting that it has, and no other.
pub proof fn mice_are_set_as_configured(
    device: DeviceCapabilities,
    config: MouseConfig,
    list: Vec<DeviceSetting>,
    setting: DeviceSetting,
)
    requires
        call_ensures(mouse_profile, (&device, &config), list),
    ensures
        list@.contains(setting) <==> {
            ||| device.natural_scroll && setting == DeviceSetting::NaturalScroll(
                config.natural_scroll,
            )
            ||| device.acceleration && setting == DeviceSetting::PointerSpeed(
                config.pointer_speed_bits,
            )
        },
{
    let scroll = scroll_part(device, config.natural_scroll);
    let speed = speed_part(device, config.pointer_speed_bits);
    lemma_contains_either(scroll, speed, setting);
    lemma_one_setting(DeviceSetting::NaturalScroll(config.natural_scroll), setting);
    lemma_one_setting(
        DeviceSetting::PointerSpeed(config.pointer_speed_bits),
        setting,
    );
}

/// A touchpad gets each configured setting that it has, and no other.
pub proof fn touchpads_are_set_as_configured(
    device: DeviceCapabilities,
    config: TouchpadConfig,
    list: Vec<DeviceSetting>,
    setting: DeviceSetting,
)
    requires
        call_ensures(touchpad_profile, (&device, &config), list),
    ensures
        list@.contains(setting) <==> match setting {
            DeviceSetting::NaturalScroll(on) => device.natural_scroll && on
                == config.natural_scroll,
            DeviceSetting::TapToClick(on) => device.tap_fingers > 0 && on == config.tap_to_click,
            DeviceSetting::TapAndDrag(on) => device.tap_fingers > 0 && on == config.tap_and_drag,
            DeviceSetting::DragLock(on) => device.tap_fingers > 0 && on == config.drag_lock,
            DeviceSetting::DisableWhileTyping(on) => device.disable_while_typing && on
                == config.disable_while_typing,
            DeviceSetting::PointerSpeed(bits) => device.acceleration && bits
                == config.pointer_speed_bits,
            DeviceSetting::ScrollMethod(TouchpadScrollMethod::TwoFinger) => device.two_finger_scroll
                && (config.scroll_method == TouchpadScrollMethod::TwoFinger
                || !device.edge_scroll),
            DeviceSetting::ScrollMethod(TouchpadScrollMethod::Edge) => device.edge_scroll && (
            config.scroll_method == TouchpadScrollMethod::Edge || !device.two_finger_scroll),
        },
{
    lemma_touchpad_parts(device, config, setting);
    lemma_part_contents(device, config, setting);
}

/// A touchpad's settings are those of its parts.
proof fn lemma_touchpad_parts(
    device: DeviceCapabilities,
    config: TouchpadConfig,
    setting: DeviceSetting,
)
    ensures
        touchpad_settings(device, config).contains(setting) <==> {
            ||| scroll_part(device, config.natural_scroll).contains(setting)
            ||| tap_part(device, config).contains(setting)
            ||| typing_part(device, config.disable_while_typing).contains(setting)
            ||| speed_part(device, config.pointer_speed_bits).contains(setting)
            ||| method_part(device, config.scroll_method).contains(setting)
        },
{
    let scroll = scroll_part(device, config.natural_scroll);
    let tap = tap_part(device, config);
    let typing = typing_part(device, config.disable_while_typing);
    let speed = speed_part(device, config.pointer_speed_bits);
    let method = method_part(device, config.scroll_method);
    lemma_contains_either(scroll + tap + typing + speed, method, setting);
    lemma_contains_either(scroll + tap + typing, speed, setting);
    lemma_contains_either(scroll + tap, typing, setting);
    lemma_contains_either(scroll, tap, setting);
}

/// What each part of a touchpad's settings holds.
proof fn lemma_part_contents(
    device: DeviceCapabilities,
    config: TouchpadConfig,
    setting: DeviceSetting,
)
    ensures
        scroll_part(device, config.natural_scroll).contains(setting) <==> device.natural_scroll
            && setting == DeviceSetting::NaturalScroll(config.natural_scroll),
        tap_part(device, config).contains(setting) <==> device.tap_fingers > 0 && (setting
            == DeviceSetting::TapToClick(config.tap_to_click) || setting
            == DeviceSetting::TapAndDrag(config.tap_and_drag) || setting
            == DeviceSetting::DragLock(config.drag_lock)),
        typing_part(device, config.disable_while_typing).contains(setting)
            <==> device.disable_while_typing && setting == DeviceSetting::DisableWhileTyping(
            config.disable_while_typing,
        ),
        speed_part(device, config.pointer_speed_bits).contains(setting) <==> device.acceleration
            && setting == DeviceSetting::PointerSpeed(config.pointer_speed_bits),
        method_part(device, config.scroll_method).contains(setting) <==> scroll_choice(
            device,
            config.scroll_method,
        ) is Some && setting == DeviceSetting::ScrollMethod(
            scroll_choice(device, config.scroll_method)->0,
        ),
{
    lemma_one_setting(DeviceSetting::NaturalScroll(config.natural_scroll), setting);
    lemma_one_setting(DeviceSetting::DisableWhileTyping(config.disable_while_typing), setting);
    lemma_one_setting(DeviceSetting::PointerSpeed(config.pointer_speed_bits), setting);
    lemma_one_setting(
        DeviceSetting::ScrollMethod(scroll_choice(device, config.scroll_method)->0),
        setting,
    );
    let tap = tap_part(device, config);
    if device.tap_fingers > 0 {
        assert(tap[0] == DeviceSetting::TapToClick(config.tap_to_click));
        assert(tap[1] == DeviceSetting::TapAndDrag(config.tap_and_drag));
        assert(tap[2] == DeviceSetting::DragLock(config.drag_lock));
    }
}

/// A setting is in two lists joined if it is in one of them.
proof fn lemma_contains_either(
    left: Seq<DeviceSetting>,
    right: Seq<DeviceSetting>,
    setting: DeviceSetting,
)
    ensures
        (left + right).contains(setting) <==> left.contains(setting) || right.contains(setting),
{
    let all = left + right;
    if left.contains(setting) {
        let i = left.index_of(setting);
        assert(all[i] == setting);
    }
    if right.contains(setting) {
        let i = right.index_of(setting);
        assert(all[left.len() + i] == setting);
    }
    if all.contains(setting) {
        let i = all.index_of(setting);
        if i < left.len() {
            assert(left[i] == setting);
        } else {
            assert(right[i - left.len()] == setting);
        }
    }
}

/// A list of at most one setting holds that one.
proof fn lemma_one_setting(only: DeviceSetting, setting: DeviceSetting)
    ensures
        seq![only].contains(setting) <==> setting == only,
        !Seq::<DeviceSetting>::empty().contains(setting),
{
    assert(seq![only][0] == only);
}

/// Touchpads together can what one of them can.
pub proof fn touchpads_can_what_one_can(
    devices: &[(String, DeviceCapabilities)],
    can: TouchpadCapabilities,
    mice: MouseCapabilities,
    index: int,
)
    requires
        call_ensures(touchpad_capabilities, (devices,), can),
        call_ensures(mouse_capabilities, (devices,), mice),
        0 <= index < devices@.len(),
    ensures
        ({
            let device = devices@[index].1;
            &&& device.natural_scroll ==> can.natural_scroll && mice.natural_scroll
            &&& device.tap_fingers > 0 ==> can.tap_to_click && can.tap_and_drag && can.drag_lock
            &&& device.disable_while_typing ==> can.disable_while_typing
            &&& device.acceleration ==> can.pointer_speed && mice.pointer_speed
            &&& device.two_finger_scroll ==> can.two_finger_scroll
            &&& device.edge_scroll ==> can.edge_scroll
        }),
{
    let device = devices@[index].1;
    let natural = |d: DeviceCapabilities| d.natural_scroll;
    let speed = |d: DeviceCapabilities| d.acceleration;
    assert(device.natural_scroll ==> natural(device));
    assert(device.acceleration ==> speed(device));
}

/// What touchpads can together, one of them can.
pub proof fn touchpads_can_nothing_more(
    devices: &[(String, DeviceCapabilities)],
    can: TouchpadCapabilities,
    mice: MouseCapabilities,
)
    requires
        call_ensures(touchpad_capabilities, (devices,), can),
        call_ensures(mouse_capabilities, (devices,), mice),
    ensures
        can.natural_scroll || mice.natural_scroll ==> exists|i: int|
            0 <= i < devices@.len() && (#[trigger] devices@[i]).1.natural_scroll,
        can.tap_to_click || can.tap_and_drag || can.drag_lock ==> exists|i: int|
            0 <= i < devices@.len() && (#[trigger] devices@[i]).1.tap_fingers > 0,
        can.disable_while_typing ==> exists|i: int|
            0 <= i < devices@.len() && (#[trigger] devices@[i]).1.disable_while_typing,
        can.pointer_speed || mice.pointer_speed ==> exists|i: int|
            0 <= i < devices@.len() && (#[trigger] devices@[i]).1.acceleration,
        can.two_finger_scroll ==> exists|i: int|
            0 <= i < devices@.len() && (#[trigger] devices@[i]).1.two_finger_scroll,
        can.edge_scroll ==> exists|i: int|
            0 <= i < devices@.len() && (#[trigger] devices@[i]).1.edge_scroll,
{
}

/// The names are those of the devices, and none comes twice.
pub proof fn device_names_come_once(
    devices: &[(String, DeviceCapabilities)],
    names: Vec<String>,
    index: int,
    i: int,
    j: int,
)
    requires
        call_ensures(device_names, (devices,), names),
        0 <= index < devices@.len(),
        0 <= i < j < names@.len(),
    ensures
        exists|k: int| 0 <= k < names@.len() && (#[trigger] names@[k])@ == devices@[index].0@,
        exists|k: int| 0 <= k < devices@.len() && (#[trigger] devices@[k]).0@ == names@[i]@,
        names@[i]@ != names@[j]@,
{
    let all = texts(names@);
    let name = devices@[index].0@;
    assert(all.contains(name));
    let k = all.index_of(name);
    assert(names@[k]@ == name);
    assert(all[i] == names@[i]@);
    assert(all[j] == names@[j]@);
    assert(all.contains(all[i]));
    crate::text::text_order_is_total(all[i], all[j]);
}

/// Whole wheel steps are the whole 120ths of the scaled motion, rounded towards zero; a
/// full step never vanishes, and its direction is kept.
pub proof fn wheels_report_whole_steps(
    value120: i32,
    scaled120: i32,
    steps: Option<WheelSteps>,
)
    requires
        call_ensures(wheel_steps, (value120, scaled120), steps),
    ensures
        steps is None <==> scaled120 == 0,
        steps matches Some(told) ==> {
            &&& told.value120 == scaled120
            &&& scaled120 >= 120 ==> told.discrete is Some && 120 * told.discrete->0 <= scaled120
                < 120 * (told.discrete->0 + 1)
            &&& scaled120 <= -120 ==> told.discrete is Some && 120 * (told.discrete->0 - 1)
                < scaled120 <= 120 * told.discrete->0
            &&& -120 < scaled120 < 120 && (value120 >= 120 || value120 <= -120) ==> told.discrete
                == Some(
                if scaled120 > 0 {
                    1i32
                } else {
                    -1i32
                },
            )
            &&& -120 < scaled120 < 120 && -120 < value120 < 120 ==> told.discrete is None
        },
{
}

/// Every kind of tool has its own number, in the order of the protocol; unknown ones count
/// as pens.
pub proof fn tools_have_their_own_number(tool: TabletTool, kind: u32, other: TabletTool, number: u32)
    requires
        call_ensures(tablet_tool_kind, (tool,), kind),
        call_ensures(tablet_tool_kind, (other,), number),
    ensures
        tool == TabletTool::Pen ==> kind == 0x140,
        tool == TabletTool::Eraser ==> kind == 0x141,
        tool == TabletTool::Brush ==> kind == 0x142,
        tool == TabletTool::Pencil ==> kind == 0x143,
        tool == TabletTool::Airbrush ==> kind == 0x144,
        tool == TabletTool::Mouse ==> kind == 0x146,
        tool == TabletTool::Lens ==> kind == 0x147,
        tool == TabletTool::Other ==> kind == 0x140,
        kind == number <==> tool == other || (tool == TabletTool::Pen && other == TabletTool::Other)
            || (tool == TabletTool::Other && other == TabletTool::Pen),
{
}

/// Tools with different serial numbers are different; without serial numbers they differ
/// by hardware number and kind.
pub proof fn tools_are_told_apart(
    serial: u64,
    hardware_id: u64,
    kind: u32,
    key: u64,
    other_serial: u64,
    other_id: u64,
    other_kind: u32,
    other_key: u64,
)
    requires
        call_ensures(tablet_tool_key, (serial, hardware_id, kind), key),
        call_ensures(tablet_tool_key, (other_serial, other_id, other_kind), other_key),
        key == other_key,
        serial == 0 <==> other_serial == 0,
        kind < 0x1_0000 && other_kind < 0x1_0000,
        hardware_id < 0x1_0000_0000_0000 && other_id < 0x1_0000_0000_0000,
    ensures
        serial == other_serial,
        serial == 0 ==> hardware_id == other_id && kind == other_kind,
{
    if serial == 0 {
        unserialed_tools_are_told_apart(hardware_id, kind, other_id, other_kind);
    }
}

/// A tool's mask has the bit of each axis that it reports, and no other.
pub proof fn masks_tell_the_axes(axes: ToolAxes, mask: u32)
    requires
        call_ensures(tool_capabilities, (&axes,), mask),
    ensures
        mask & 2 != 0 <==> axes.tilt,
        mask & 4 != 0 <==> axes.pressure,
        mask & 8 != 0 <==> axes.distance,
        mask & 16 != 0 <==> axes.rotation,
        mask & 32 != 0 <==> axes.slider,
        mask & 64 != 0 <==> axes.wheel,
        mask & 1 == 0 && mask < 128,
{
    let tilt = axes.tilt;
    let pressure = axes.pressure;
    let distance = axes.distance;
    let rotation = axes.rotation;
    let slider = axes.slider;
    let wheel = axes.wheel;
    assert((mask & 2 != 0 <==> tilt) && (mask & 4 != 0 <==> pressure) && (mask & 8 != 0
        <==> distance) && (mask & 16 != 0 <==> rotation) && (mask & 32 != 0 <==> slider) && (mask
        & 64 != 0 <==> wheel) && mask & 1 == 0) by (bit_vector)
        requires
            mask == (if tilt { 2u32 } else { 0u32 }) + (if pressure { 4u32 } else { 0u32 }) + (
            if distance { 8u32 } else { 0u32 }) + (if rotation { 16u32 } else { 0u32 }) + (
            if slider { 32u32 } else { 0u32 }) + (if wheel { 64u32 } else { 0u32 }),
    ;
}

/// A gesture has as many fingers as reported, or none where that makes no sense.
pub proof fn fingers_are_counted(count: i32, fingers: u32)
    requires
        call_ensures(gesture_fingers, (count,), fingers),
    ensures
        count >= 0 ==> fingers == count,
        count < 0 ==> fingers == 0,
{
}

} // verus!
