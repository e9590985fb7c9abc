//! The state of the window in the host compositor.

use vstd::prelude::*;
use crate::geometry::Size;
use crate::input::{no_text, ButtonState, PointerAxisFrame, TextInputEvent, TextInputState};
use crate::kms::info::{describes_only, only_output, OutputInfo};
use crate::kms::output::Scale;
use crate::nested::{
    after_axis, axis_of, host_pointer_motion, motion_from, plus_fixed, request_views,
    text_input_requests, HostInput, TextInputRequest,
};
use crate::text::text_has_nul;

verus! {

/// A touchpad gesture that the host reported. Distances, the scale and the
/// rotation are in the protocol's 24.8 fixed point.
#[derive(Debug, Clone, Copy, PartialEq, Eq, Structural)]
pub enum HostGesture {
    SwipeBegin { time: u32, fingers: u32 },
    SwipeUpdate { time: u32, dx: i32, dy: i32 },
    SwipeEnd { time: u32, cancelled: bool },
    PinchBegin { time: u32, fingers: u32 },
    PinchUpdate { time: u32, dx: i32, dy: i32, scale: i32, rotation: i32 },
    PinchEnd { time: u32, cancelled: bool },
    HoldBegin { time: u32, fingers: u32 },
    HoldEnd { time: u32, cancelled: bool },
}

/// The window in the host compositor, apart from the connection itself.
#[derive(Debug)]
pub struct NestedHost {
    /// The host has told the window its first size.
    pub configured: bool,
    pub width: i32,
    pub height: i32,
    pub pending_width: i32,
    pub pending_height: i32,
    pub resized: bool,
    pub should_close: bool,
    /// The host's outputs and their scales.
    pub outputs: Vec<(u64, i32)>,
    /// The output that the window entered last.
    pub current_output: Option<u64>,
    pub scale: i32,
    /// The preferred scale in 120ths, where fractional scaling is in use.
    pub preferred_scale_120: u32,
    pub fractional_active: bool,
    pub scale_changed: bool,
    pub has_pointer: bool,
    pub has_cursor_shape_device: bool,
    /// The latest pointer serial; zero before the first.
    pub pointer_serial: u32,
    pub pointer_position: Option<(i32, i32)>,
    pub axis: PointerAxisFrame,
    pub input_events: Vec<HostInput>,
    pub gesture_events: Vec<HostGesture>,
    pub has_text_input: bool,
    pub text_input_entered: bool,
    pub text_input_state: TextInputState,
    pub text_input_events: Vec<TextInputEvent>,
}

/// The scale that an output is known to have.
pub open spec fn known_scale(outputs: Seq<(u64, i32)>, output: u64) -> Option<i32>
    decreases outputs.len(),
{
    if outputs.len() == 0 {
        None
    } else if outputs[0].0 == output {
        Some(outputs[0].1)
    } else {
        known_scale(outputs.drop_first(), output)
    }
}

/// The known scales after an output told its scale.
pub open spec fn with_scale(outputs: Seq<(u64, i32)>, output: u64, scale: i32) -> Seq<(u64, i32)>
    decreases outputs.len(),
{
    if outputs.len() == 0 {
        seq![(output, scale)]
    } else if outputs[0].0 == output {
        outputs.update(0, (output, scale))
    } else {
        seq![outputs[0]] + with_scale(outputs.drop_first(), output, scale)
    }
}

/// The place of an output in a list: no earlier entry is for it.
fn find_output(outputs: &Vec<(u64, i32)>, output: u64) -> (found: Option<usize>)
    ensures
        match found {
            Some(index) => index < outputs.len() && known_scale(outputs@, output) == Some(
                outputs@[index as int].1,
            ) && forall|scale: i32|
                #[trigger] with_scale(outputs@, output, scale) == outputs@.update(
                    index as int,
                    (output, scale),
                ),
            None => known_scale(outputs@, output) is None && forall|scale: i32|
                #[trigger] with_scale(outputs@, output, scale) == outputs@.push((output, scale)),
        },
{
    let mut index: usize = 0;
    assert(outputs@.skip(0) =~= outputs@);
    assert forall|scale: i32| #[trigger]
        with_scale(outputs@, output, scale) == outputs@.take(0) + with_scale(
            outputs@.skip(0),
            output,
            scale,
        ) by {
        assert(outputs@.take(0) + with_scale(outputs@, output, scale) =~= with_scale(
            outputs@,
            output,
            scale,
        ));
    }
    while index < outputs.len()
        invariant
            index <= outputs.len(),
            known_scale(outputs@, output) == known_scale(outputs@.skip(index as int), output),
            forall|scale: i32| #[trigger]
                with_scale(outputs@, output, scale) == outputs@.take(index as int) + with_scale(
                    outputs@.skip(index as int),
                    output,
                    scale,
                ),
        decreases outputs.len() - index,
    {
        let ghost rest = outputs@.skip(index as int);
        if outputs[index].0 == output {
            proof {
                assert forall|scale: i32| #[trigger]
                    with_scale(outputs@, output, scale) == outputs@.update(
                        index as int,
                        (output, scale),
                    ) by {
                    assert(outputs@.take(index as int) + rest.update(0, (output, scale))
                        =~= outputs@.update(index as int, (output, scale)));
                }
            }
            return Some(index);
        }
        proof {
            assert(rest.drop_first() =~= outputs@.skip(index as int + 1));
            assert forall|scale: i32| #[trigger]
                with_scale(outputs@, output, scale) == outputs@.take(index as int + 1)
                    + with_scale(outputs@.skip(index as int + 1), output, scale) by {
                assert(outputs@.take(index as int) + (seq![rest[0]] + with_scale(
                    rest.drop_first(),
                    output,
                    scale,
                )) =~= outputs@.take(index as int + 1) + with_scale(
                    rest.drop_first(),
                    output,
                    scale,
                ));
            }
        }
        index += 1;
    }
    proof {
        assert forall|scale: i32| #[trigger]
            with_scale(outputs@, output, scale) == outputs@.push((output, scale)) by {
            assert(outputs@.take(index as int) + seq![(output, scale)] =~= outputs@.push(
                (output, scale),
            ));
        }
    }
    None
}

/// The larger of a scale and one.
pub open spec fn at_least_one(value: i32) -> i32 {
    if value < 1 {
        1
    } else {
        value
    }
}

fn clamp_one(value: i32) -> (clamped: i32)
    ensures
        clamped == at_least_one(value),
{
    if value < 1 {
        1
    } else {
        value
    }
}

/// What to tell the host about the size of the next buffer.
#[derive(Debug, Clone, Copy, PartialEq, Eq)]
pub struct BufferScale {
    pub scale: i32,
    /// The size on screen, where the scale alone does not say it.
    pub destination: Option<(i32, i32)>,
}

impl NestedHost {
    /// A window of the given size that the host has not seen yet.
    pub fn new(width: i32, height: i32) -> (window: NestedHost)
        ensures
            !window.configured && window.width == width && window.height == height,
            window.pending_width == 0 && window.pending_height == 0,
            !window.resized && !window.should_close && !window.scale_changed,
            window.outputs@.len() == 0 && window.current_output is None,
            window.scale == 1 && window.preferred_scale_120 == 120 && !window.fractional_active,
            !window.has_pointer && !window.has_cursor_shape_device && !window.has_text_input,
            window.pointer_serial == 0 && window.pointer_position is None,
            window.axis == PointerAxisFrame::still(),
            window.input_events@.len() == 0 && window.gesture_events@.len() == 0,
            window.text_input_events@.len() == 0,
            !window.text_input_entered && window.text_input_state@ == no_text(),
    {
        NestedHost {
            configured: false,
            width,
            height,
            pending_width: 0,
            pending_height: 0,
            resized: false,
            should_close: false,
            outputs: Vec::new(),
            current_output: None,
            scale: 1,
            preferred_scale_120: 120,
            fractional_active: false,
            scale_changed: false,
            has_pointer: false,
            has_cursor_shape_device: false,
            pointer_serial: 0,
            pointer_position: None,
            axis: PointerAxisFrame::none(),
            input_events: Vec::new(),
            gesture_events: Vec::new(),
            has_text_input: false,
            text_input_entered: false,
            text_input_state: TextInputState::none(),
            text_input_events: Vec::new(),
        }
    }

    /// The host asks for a size. Sizes that are no sizes, and the present one,
    /// are ignored.
    pub fn on_toplevel_configure(&mut self, width: i32, height: i32)
        ensures
            *final(self) == if width > 0 && height > 0 && (width != old(self).width || height
                != old(self).height) {
                NestedHost {
                    pending_width: width,
                    pending_height: height,
                    resized: true,
                    ..*old(self)
                }
            } else {
                *old(self)
            },
    {
        if width > 0 && height > 0 && (width != self.width || height != self.height) {
            self.pending_width = width;
            self.pending_height = height;
            self.resized = true;
        }
    }

    /// Take the first size that the host asked for, before anything is drawn.
    pub fn adopt_first_size(&mut self)
        ensures
            *final(self) == if old(self).resized {
                NestedHost {
                    width: old(self).pending_width,
                    height: old(self).pending_height,
                    resized: false,
                    ..*old(self)
                }
            } else {
                *old(self)
            },
    {
        if self.resized {
            self.width = self.pending_width;
            self.height = self.pending_height;
            self.resized = false;
        }
    }

    /// The size of the window after pending changes.
    pub open spec fn next_size(self) -> (i32, i32) {
        if self.resized {
            (self.pending_width, self.pending_height)
        } else {
            (self.width, self.height)
        }
    }

    /// The new size, when the size or the scale changed since the last call.
    pub fn take_resize(&mut self) -> (size: Option<Size>)
        ensures
            size == if old(self).resized || old(self).scale_changed {
                Some(Size { w: old(self).next_size().0, h: old(self).next_size().1 })
            } else {
                None
            },
            *final(self) == (NestedHost {
                width: old(self).next_size().0,
                height: old(self).next_size().1,
                resized: false,
                scale_changed: false,
                ..*old(self)
            }),
    {
        if self.resized || self.scale_changed {
            if self.resized {
                self.width = self.pending_width;
                self.height = self.pending_height;
            }
            self.resized = false;
            self.scale_changed = false;
            Some(Size { w: self.width, h: self.height })
        } else {
            None
        }
    }

    /// Use fractional scaling, starting from the whole scale.
    pub fn enable_fractional(&mut self)
        requires
            at_least_one(old(self).scale) * 120 <= u32::MAX,
        ensures
            *final(self) == (NestedHost {
                fractional_active: true,
                preferred_scale_120: (at_least_one(old(self).scale) * 120) as u32,
                ..*old(self)
            }),
    {
        self.fractional_active = true;
        self.preferred_scale_120 = clamp_one(self.scale) as u32 * 120;
    }

    /// The host has another output.
    pub fn output_added(&mut self, output: u64)
        ensures
            final(self).outputs@ == old(self).outputs@.push((output, 1i32)),
            *final(self) == (NestedHost { outputs: final(self).outputs, ..*old(self) }),
    {
        self.outputs.push((output, 1));
    }

    /// An output told its scale. The window takes it over when it is on that
    /// output, or on none yet.
    pub fn on_output_scale(&mut self, output: u64, factor: i32)
        ensures
            final(self).outputs@ == with_scale(old(self).outputs@, output, at_least_one(factor)),
            *final(self) == if (old(self).current_output is None || old(self).current_output
                == Some(output)) && at_least_one(factor) != old(self).scale {
                NestedHost {
                    outputs: final(self).outputs,
                    scale: at_least_one(factor),
                    scale_changed: old(self).scale_changed || !old(self).fractional_active,
                    ..*old(self)
                }
            } else {
                NestedHost { outputs: final(self).outputs, ..*old(self) }
            },
    {
        let factor: i32 = clamp_one(factor);
        match find_output(&self.outputs, output) {
            Some(index) => {
                self.outputs[index] = (output, factor);
            },
            None => {
                self.outputs.push((output, factor));
            },
        }
        let ours = match self.current_output {
            Some(current) => current == output,
            None => true,
        };
        if ours && factor != self.scale {
            self.scale = factor;
            if !self.fractional_active {
                self.scale_changed = true;
            }
        }
    }

    /// The host prefers a fractional scale, in 120ths.
    pub fn on_preferred_scale(&mut self, scale_120: u32)
        ensures
            *final(self) == {
                let scale_120 = if scale_120 < 1 {
                    1
                } else {
                    scale_120
                };
                if scale_120 != old(self).preferred_scale_120 {
                    NestedHost { preferred_scale_120: scale_120, scale_changed: true, ..*old(self) }
                } else {
                    *old(self)
                }
            },
    {
        let scale_120: u32 = if scale_120 < 1 {
            1
        } else {
            scale_120
        };
        if scale_120 != self.preferred_scale_120 {
            self.preferred_scale_120 = scale_120;
            self.scale_changed = true;
        }
    }

    /// The window entered an output, and takes over its scale where that is
    /// known.
    pub fn on_surface_enter(&mut self, output: u64)
        ensures
            *final(self) == match known_scale(old(self).outputs@, output) {
                Some(scale) if scale != old(self).scale => NestedHost {
                    current_output: Some(output),
                    scale,
                    scale_changed: true,
                    ..*old(self)
                },
                _ => NestedHost { current_output: Some(output), ..*old(self) },
            },
    {
        self.current_output = Some(output);
        if let Some(index) = find_output(&self.outputs, output) {
            let scale: i32 = self.outputs[index].1;
            if scale != self.scale {
                self.scale = scale;
                self.scale_changed = true;
            }
        }
    }

    /// The scale at which to draw, in 120ths.
    pub fn scale_120(&self) -> (scale: u64)
        ensures
            scale == if self.fractional_active {
                if self.preferred_scale_120 < 1 {
                    1
                } else {
                    self.preferred_scale_120 as int
                }
            } else {
                at_least_one(self.scale) * 120
            },
    {
        if self.fractional_active {
            if self.preferred_scale_120 < 1 {
                1
            } else {
                self.preferred_scale_120 as u64
            }
        } else {
            clamp_one(self.scale) as u64 * 120
        }
    }

    /// The size of the window, at least one by one.
    pub fn size_u32(&self) -> (size: (u32, u32))
        ensures
            size == (at_least_one(self.width) as u32, at_least_one(self.height) as u32),
    {
        (clamp_one(self.width) as u32, clamp_one(self.height) as u32)
    }

    /// Describe the window as the one output it is, given its size in pixels and
    /// its scale.
    pub fn output_infos(&self, physical_size: (u32, u32), scale: Scale) -> (infos: Vec<OutputInfo>)
        ensures
            infos.len() == 1,
            describes_only(infos@[0], "nested"@, physical_size, scale),
    {
        only_output("nested", physical_size, scale)
    }

    /// What to tell the host about the next buffer. With fractional scaling the
    /// buffer scale is one and the size on screen is given.
    pub fn set_buffer_scale(&self) -> (update: BufferScale)
        ensures
            update == if self.fractional_active {
                BufferScale {
                    scale: 1,
                    destination: Some((at_least_one(self.width), at_least_one(self.height))),
                }
            } else {
                BufferScale { scale: at_least_one(self.scale), destination: None }
            },
    {
        if self.fractional_active {
            BufferScale {
                scale: 1,
                destination: Some((clamp_one(self.width), clamp_one(self.height))),
            }
        } else {
            BufferScale { scale: clamp_one(self.scale), destination: None }
        }
    }

    /// The outcome of waiting for the host: how many descriptors are ready,
    /// whether the host's own is among them, and whether reading from it failed
    /// (asked only then). Returns whether to go on.
    pub fn waited(&mut self, ready: i32, host_ready: bool, read_failed: bool) -> (go_on: bool)
        ensures
            *final(self) == (NestedHost {
                should_close: old(self).should_close || ready < 0 || (ready > 0 && host_ready
                    && read_failed),
                ..*old(self)
            }),
            go_on == !final(self).should_close,
    {
        if ready < 0 || (ready > 0 && host_ready && read_failed) {
            self.should_close = true;
        }
        !self.should_close
    }

    /// The pointer entered the window. A position is no motion, so distances
    /// start afresh.
    pub fn on_pointer_enter(&mut self, serial: u32, x: i32, y: i32)
        ensures
            final(self).input_events@ == old(self).input_events@.push(
                HostInput::PointerMotion(motion_from(None, x, y)),
            ),
            *final(self) == (NestedHost {
                pointer_serial: serial,
                pointer_position: Some((x, y)),
                input_events: final(self).input_events,
                ..*old(self)
            }),
    {
        self.pointer_serial = serial;
        let mut last: Option<(i32, i32)> = None;
        let motion = host_pointer_motion(&mut last, x, y);
        self.pointer_position = last;
        self.input_events.push(HostInput::PointerMotion(motion));
    }

    /// The pointer left the window.
    pub fn on_pointer_leave(&mut self)
        ensures
            final(self).input_events@ == old(self).input_events@.push(HostInput::PointerLeave),
            *final(self) == (NestedHost {
                pointer_position: None,
                input_events: final(self).input_events,
                ..*old(self)
            }),
    {
        self.pointer_position = None;
        self.input_events.push(HostInput::PointerLeave);
    }

    /// The pointer moved.
    pub fn on_pointer_motion(&mut self, x: i32, y: i32)
        ensures
            final(self).input_events@ == old(self).input_events@.push(
                HostInput::PointerMotion(motion_from(old(self).pointer_position, x, y)),
            ),
            *final(self) == (NestedHost {
                pointer_position: Some((x, y)),
                input_events: final(self).input_events,
                ..*old(self)
            }),
    {
        let mut last = self.pointer_position;
        let motion = host_pointer_motion(&mut last, x, y);
        self.pointer_position = last;
        self.input_events.push(HostInput::PointerMotion(motion));
    }

    /// A pointer button changed.
    pub fn on_pointer_button(&mut self, serial: u32, button: u32, state: u32)
        ensures
            final(self).input_events@ == old(self).input_events@.push(
                HostInput::PointerButton {
                    button,
                    state: if state == 0 {
                        ButtonState::Released
                    } else {
                        ButtonState::Pressed
                    },
                },
            ),
            *final(self) == (NestedHost {
                pointer_serial: serial,
                input_events: final(self).input_events,
                ..*old(self)
            }),
    {
        self.pointer_serial = serial;
        self.input_events.push(
            HostInput::PointerButton { button, state: ButtonState::from_wayland(state) },
        );
    }

    /// A key changed.
    pub fn on_keyboard_key(&mut self, code: u32, state: u32)
        ensures
            final(self).input_events@ == old(self).input_events@.push(
                HostInput::Key {
                    code,
                    state: if state == 0 {
                        ButtonState::Released
                    } else {
                        ButtonState::Pressed
                    },
                },
            ),
            *final(self) == (NestedHost { input_events: final(self).input_events, ..*old(self) }),
    {
        self.input_events.push(HostInput::Key { code, state: ButtonState::from_wayland(state) });
    }

    /// The input events after the scroll motion so far is reported.
    pub open spec fn flushed(events: Seq<HostInput>, frame: PointerAxisFrame) -> Seq<HostInput> {
        if frame.moved() {
            events.push(HostInput::PointerAxis(frame))
        } else {
            events
        }
    }

    /// The host ended a group of pointer events: report the scroll motion in
    /// it, if there is one.
    pub fn flush_pointer_axis(&mut self)
        ensures
            final(self).input_events@ == NestedHost::flushed(
                old(self).input_events@,
                old(self).axis,
            ),
            *final(self) == (NestedHost {
                axis: PointerAxisFrame::still(),
                input_events: final(self).input_events,
                ..*old(self)
            }),
    {
        let frame = self.axis;
        self.axis = PointerAxisFrame::none();
        if frame.has_data() {
            self.input_events.push(HostInput::PointerAxis(frame));
        }
    }

    /// The host scrolled. Pointers before version five do not group their
    /// events, so each scroll is reported at once.
    pub fn on_pointer_axis(&mut self, pointer_version: u32, time: u32, axis: u32, value: i32)
        requires
            axis <= 1 ==> i64::MIN <= plus_fixed(axis_of(old(self).axis, axis).value, value)
                <= i64::MAX,
        ensures
            pointer_version >= 5 ==> *final(self) == (NestedHost {
                axis: after_axis(old(self).axis, time, axis, value),
                ..*old(self)
            }),
            pointer_version < 5 ==> final(self).input_events@ == NestedHost::flushed(
                old(self).input_events@,
                after_axis(old(self).axis, time, axis, value),
            ) && *final(self) == (NestedHost {
                axis: PointerAxisFrame::still(),
                input_events: final(self).input_events,
                ..*old(self)
            }),
    {
        self.axis.add_distance(time, axis, value);
        if pointer_version < 5 {
            self.flush_pointer_axis();
        }
    }

    /// The host took its pointer away.
    pub fn pointer_lost(&mut self)
        ensures
            final(self).input_events@ == old(self).input_events@.push(HostInput::PointerLeave),
            *final(self) == (NestedHost {
                has_pointer: false,
                has_cursor_shape_device: false,
                axis: PointerAxisFrame::still(),
                input_events: final(self).input_events,
                ..*old(self)
            }),
    {
        self.has_pointer = false;
        self.has_cursor_shape_device = false;
        self.axis = PointerAxisFrame::none();
        self.input_events.push(HostInput::PointerLeave);
    }

    /// The host reported a gesture.
    pub fn on_gesture(&mut self, gesture: HostGesture)
        ensures
            final(self).gesture_events@ == old(self).gesture_events@.push(gesture),
            *final(self) == (NestedHost {
                gesture_events: final(self).gesture_events,
                ..*old(self)
            }),
    {
        self.gesture_events.push(gesture);
    }

    /// The input since the last call.
    pub fn take_input(&mut self) -> (events: Vec<HostInput>)
        ensures
            events@ == old(self).input_events@,
            final(self).input_events@.len() == 0,
            *final(self) == (NestedHost { input_events: final(self).input_events, ..*old(self) }),
    {
        let mut events: Vec<HostInput> = Vec::new();
        std::mem::swap(&mut events, &mut self.input_events);
        events
    }

    /// The gestures since the last call.
    pub fn take_pointer_gestures(&mut self) -> (events: Vec<HostGesture>)
        ensures
            events@ == old(self).gesture_events@,
            final(self).gesture_events@.len() == 0,
            *final(self) == (NestedHost {
                gesture_events: final(self).gesture_events,
                ..*old(self)
            }),
    {
        let mut events: Vec<HostGesture> = Vec::new();
        std::mem::swap(&mut events, &mut self.gesture_events);
        events
    }

    /// The input-method edits since the last call.
    pub fn take_text_input(&mut self) -> (events: Vec<TextInputEvent>)
        ensures
            events@ == old(self).text_input_events@,
            final(self).text_input_events@.len() == 0,
            *final(self) == (NestedHost {
                text_input_events: final(self).text_input_events,
                ..*old(self)
            }),
    {
        let mut events: Vec<TextInputEvent> = Vec::new();
        std::mem::swap(&mut events, &mut self.text_input_events);
        events
    }

    /// The host's input method made an edit.
    pub fn on_text_input(&mut self, event: TextInputEvent)
        ensures
            final(self).text_input_events@ == old(self).text_input_events@.push(event),
            *final(self) == (NestedHost {
                text_input_events: final(self).text_input_events,
                ..*old(self)
            }),
    {
        self.text_input_events.push(event);
    }

    /// The requests that make the host's text input follow the focused text
    /// field; none while the host's focus is elsewhere.
    pub fn text_input_update(&self) -> (requests: Vec<TextInputRequest>)
        ensures
            request_views(requests@) == if self.has_text_input && self.text_input_entered {
                text_input_requests(self.text_input_state)
            } else {
                Seq::empty()
            },
    {
        let mut requests: Vec<TextInputRequest> = Vec::new();
        if !self.has_text_input || !self.text_input_entered {
            assert(request_views(requests@) =~= Seq::empty());
            return requests;
        }
        let state = &self.text_input_state;
        if state.enabled {
            requests.push(TextInputRequest::Enable);
            if let Some(text) = &state.surrounding_text {
                if !text_has_nul(text.as_str()) {
                    requests.push(
                        TextInputRequest::SurroundingText {
                            text: text.clone(),
                            cursor: state.cursor,
                            anchor: state.anchor,
                        },
                    );
                }
            }
            requests.push(TextInputRequest::ChangeCause(state.change_cause));
            requests.push(
                TextInputRequest::ContentType {
                    hint: state.content_hint,
                    purpose: state.content_purpose,
                },
            );
            if let Some((x, y, width, height)) = state.cursor_rect {
                requests.push(TextInputRequest::CursorRectangle { x, y, width, height });
            }
        } else {
            requests.push(TextInputRequest::Disable);
        }
        requests.push(TextInputRequest::Commit);
        assert(request_views(requests@) =~= text_input_requests(self.text_input_state));
        requests
    }

    /// The focused text field changed. The state is kept for when the host's
    /// focus comes back.
    pub fn set_text_input_state(&mut self, state: TextInputState) -> (requests: Vec<
        TextInputRequest,
    >)
        ensures
            *final(self) == (NestedHost { text_input_state: state, ..*old(self) }),
            request_views(requests@) == if old(self).has_text_input
                && old(self).text_input_entered {
                text_input_requests(state)
            } else {
                Seq::empty()
            },
    {
        self.text_input_state = state;
        self.text_input_update()
    }

    /// The host's text input entered the window, which tells it the state kept.
    pub fn on_text_input_enter(&mut self) -> (requests: Vec<TextInputRequest>)
        ensures
            *final(self) == (NestedHost { text_input_entered: true, ..*old(self) }),
            request_views(requests@) == if old(self).has_text_input {
                text_input_requests(old(self).text_input_state)
            } else {
                Seq::empty()
            },
    {
        self.text_input_entered = true;
        self.text_input_update()
    }

    /// The serial and the shape to show the host's cursor with, if that can be
    /// asked for.
    pub fn set_cursor_shape(&self, shape: u32) -> (request: Option<(u32, u32)>)
        ensures
            request == if self.has_cursor_shape_device && self.pointer_serial != 0 {
                Some(
                    (
                        self.pointer_serial,
                        if shape < 1 {
                            1
                        } else {
                            shape
                        },
                    ),
                )
            } else {
                None
            },
    {
        if !self.has_cursor_shape_device || self.pointer_serial == 0 {
            return None;
        }
        let shape: u32 = if shape < 1 {
            1
        } else {
            shape
        };
        Some((self.pointer_serial, shape))
    }

    /// The serial to hide the host's cursor with, if that can be asked for.
    pub fn hide_cursor(&self) -> (serial: Option<u32>)
        ensures
            serial == if self.has_pointer && self.pointer_serial != 0 {
                Some(self.pointer_serial)
            } else {
                None
            },
    {
        if self.has_pointer && self.pointer_serial != 0 {
            Some(self.pointer_serial)
        } else {
            None
        }
    }
}

/// A scale that an output told is the one the window takes over on entering it.
pub proof fn told_scale_is_known(outputs: Seq<(u64, i32)>, output: u64, scale: i32, other: u64)
    ensures
        known_scale(with_scale(outputs, output, scale), output) == Some(scale),
        other != output ==> known_scale(with_scale(outputs, output, scale), other) == known_scale(
            outputs,
            other,
        ),
    decreases outputs.len(),
{
    reveal_with_fuel(known_scale, 2);
    if outputs.len() == 0 {
        assert(seq![(output, scale)].drop_first() =~= Seq::<(u64, i32)>::empty());
    } else if outputs[0].0 == output {
        let new = with_scale(outputs, output, scale);
        assert(new.drop_first() =~= outputs.drop_first());
    } else {
        told_scale_is_known(outputs.drop_first(), output, scale, other);
        let new = with_scale(outputs, output, scale);
        assert(new.drop_first() =~= with_scale(outputs.drop_first(), output, scale));
    }
}

/// A size that the host asks for is the one that is taken, once.
pub proof fn asked_sizes_are_taken_once(
    asked: &mut NestedHost,
    taken: &mut NestedHost,
    again: &mut NestedHost,
    width: i32,
    height: i32,
    first: Option<Size>,
    second: Option<Size>,
)
    requires
        width > 0 && height > 0,
        width != asked.width || height != asked.height,
        call_ensures(NestedHost::on_toplevel_configure, (asked, width, height), ()),
        *taken == *final(asked),
        call_ensures(NestedHost::take_resize, (taken,), first),
        *again == *final(taken),
        call_ensures(NestedHost::take_resize, (again,), second),
    ensures
        first is Some && first->0.w == width && first->0.h == height,
        second is None,
        final(taken).width == width && final(taken).height == height,
{
}

/// Sizes that are no sizes, and the present size, change nothing; without a change there
/// is no new size.
pub proof fn senseless_sizes_change_nothing(
    asked: &mut NestedHost,
    width: i32,
    height: i32,
    taken: &mut NestedHost,
    size: Option<Size>,
)
    requires
        width <= 0 || height <= 0 || (width == asked.width && height == asked.height),
        call_ensures(NestedHost::on_toplevel_configure, (asked, width, height), ()),
        call_ensures(NestedHost::take_resize, (taken,), size),
    ensures
        *final(asked) == *old(asked),
        !old(taken).resized && !old(taken).scale_changed ==> size is None,
        old(taken).scale_changed && !old(taken).resized
            ==> size is Some && size->0.w == old(taken).width
            && size->0.h == old(taken).height,
{
}

/// The first size that the host asked for becomes the window's before anything is drawn.
pub proof fn first_sizes_are_adopted(
    asked: &mut NestedHost,
    adopted: &mut NestedHost,
    width: i32,
    height: i32,
)
    requires
        width > 0 && height > 0,
        width != asked.width || height != asked.height,
        call_ensures(NestedHost::on_toplevel_configure, (asked, width, height), ()),
        *adopted == *final(asked),
        call_ensures(NestedHost::adopt_first_size, (adopted,), ()),
    ensures
        final(adopted).width == width && final(adopted).height == height,
        !final(adopted).resized,
{
}

/// A scale that an output told is the one that the window draws at once it is on that
/// output, whichever comes first.
pub proof fn windows_take_over_the_scale(
    told: &mut NestedHost,
    entered: &mut NestedHost,
    output: u64,
    factor: i32,
    scale: u64,
)
    requires
        factor >= 1,
        call_ensures(NestedHost::on_output_scale, (told, output, factor), ()),
        *entered == *final(told),
        call_ensures(NestedHost::on_surface_enter, (entered, output), ()),
        call_ensures(NestedHost::scale_120, (&*final(entered),), scale),
    ensures
        final(entered).scale == factor,
        final(entered).current_output == Some(output),
        !old(told).fractional_active ==> scale == 120 * factor,
        old(told).current_output is None || old(told).current_output == Some(output)
            ==> final(told).scale
            == factor,
        old(told).current_output is Some && old(told).current_output != Some(output)
            ==> final(told).scale
            == old(told).scale,
{
    told_scale_is_known(told.outputs@, output, factor, output);
}

/// With fractional scaling the window draws at the scale that the host prefers, and tells
/// the host its size on screen.
pub proof fn preferred_scales_are_drawn_at(
    host: &mut NestedHost,
    scale_120: u32,
    scale: u64,
    update: BufferScale,
)
    requires
        scale_120 >= 1,
        host.fractional_active,
        host.width >= 1 && host.height >= 1,
        call_ensures(NestedHost::on_preferred_scale, (host, scale_120), ()),
        call_ensures(NestedHost::scale_120, (&*final(host),), scale),
        call_ensures(NestedHost::set_buffer_scale, (&*final(host),), update),
    ensures
        scale == scale_120,
        scale_120 != old(host).preferred_scale_120 ==> final(host).scale_changed,
        update.scale == 1 && update.destination == Some((old(host).width, old(host).height)),
{
}

/// Without fractional scaling the buffer's scale is the window's, and says the size; turned
/// on, fractional scaling starts from the same scale.
pub proof fn whole_scales_are_kept(
    host: &mut NestedHost,
    update: BufferScale,
    before: u64,
    after: u64,
)
    requires
        !host.fractional_active,
        1 <= host.scale && host.scale * 120 <= u32::MAX,
        call_ensures(NestedHost::set_buffer_scale, (&*host,), update),
        call_ensures(NestedHost::scale_120, (&*host,), before),
        call_ensures(NestedHost::enable_fractional, (host,), ()),
        call_ensures(NestedHost::scale_120, (&*final(host),), after),
    ensures
        update.scale == old(host).scale && update.destination is None,
        before == 120 * old(host).scale,
        after == before,
        final(host).fractional_active,
{
}

/// A window is at least one pixel wide and high, and otherwise as large as it is.
pub proof fn windows_are_never_empty(host: NestedHost, size: (u32, u32))
    requires
        call_ensures(NestedHost::size_u32, (&host,), size),
    ensures
        size.0 >= 1 && size.1 >= 1,
        host.width >= 1 ==> size.0 == host.width,
        host.height >= 1 ==> size.1 == host.height,
{
}

/// A lost host ends the window, and nothing brings it back.
pub proof fn lost_hosts_end_the_window(
    host: &mut NestedHost,
    ready: i32,
    host_ready: bool,
    read_failed: bool,
    go_on: bool,
)
    requires
        call_ensures(NestedHost::waited, (host, ready, host_ready, read_failed), go_on),
    ensures
        old(host).should_close || ready < 0 ==> !go_on,
        ready > 0 && host_ready && read_failed ==> !go_on,
        !old(host).should_close && ready >= 0 && (!host_ready || !read_failed) ==> go_on,
        !old(host).should_close && ready == 0 ==> go_on,
        go_on <==> !final(host).should_close,
{
}

/// Input comes out as it went in, in order, once: a motion tells the way from the last
/// position, a button its number and whether it is down.
pub proof fn input_comes_out_as_it_went_in(
    entered: &mut NestedHost,
    moved: &mut NestedHost,
    pressed: &mut NestedHost,
    taken: &mut NestedHost,
    serials: (u32, u32),
    a: (i32, i32),
    b: (i32, i32),
    button: u32,
    state: u32,
    events: Vec<HostInput>,
)
    requires
        entered.input_events@.len() == 0,
        call_ensures(NestedHost::on_pointer_enter, (entered, serials.0, a.0, a.1), ()),
        *moved == *final(entered),
        call_ensures(NestedHost::on_pointer_motion, (moved, b.0, b.1), ()),
        *pressed == *final(moved),
        call_ensures(NestedHost::on_pointer_button, (pressed, serials.1, button, state), ()),
        *taken == *final(pressed),
        call_ensures(NestedHost::take_input, (taken,), events),
    ensures
        events@.len() == 3,
        events@[0] matches HostInput::PointerMotion(motion) && motion.x == a.0 && motion.y == a.1
            && motion.dx == 0 && motion.dy == 0,
        events@[1] matches HostInput::PointerMotion(motion) && motion.x == b.0 && motion.y == b.1
            && motion.dx == b.0 - a.0 && motion.dy == b.1 - a.1,
        events@[2] matches HostInput::PointerButton { button: number, state: held } && number
            == button && (held == ButtonState::Released <==> state == 0),
        final(taken).input_events@.len() == 0,
        final(pressed).pointer_serial == serials.1,
{
}

/// A key is told by its code and whether it is down; leaving is told, and the next position
/// starts afresh.
pub proof fn keys_and_leaving_are_told(
    typed: &mut NestedHost,
    code: u32,
    state: u32,
    left: &mut NestedHost,
    lost: &mut NestedHost,
)
    requires
        call_ensures(NestedHost::on_keyboard_key, (typed, code, state), ()),
        call_ensures(NestedHost::on_pointer_leave, (left,), ()),
        call_ensures(NestedHost::pointer_lost, (lost,), ()),
    ensures
        final(typed).input_events@.len() == old(typed).input_events@.len() + 1,
        final(typed).input_events@.last() matches HostInput::Key { code: number, state: held }
            && number == code && (held == ButtonState::Released <==> state == 0),
        final(left).input_events@.last() == HostInput::PointerLeave,
        final(left).pointer_position is None,
        final(lost).input_events@.last() == HostInput::PointerLeave,
        !final(lost).has_pointer && !final(lost).has_cursor_shape_device,
{
}

/// Scrolling of an older pointer is reported at once, that of a newer one when its group
/// ends; either way with its time and distance, and once.
pub proof fn scrolling_is_reported_once(
    old_kind: &mut NestedHost,
    new_kind: &mut NestedHost,
    ended: &mut NestedHost,
    time: u32,
    value: i32,
    old_version: u32,
    new_version: u32,
)
    requires
        value != 0,
        old_version < 5 && new_version >= 5,
        old_kind.axis == PointerAxisFrame::still(),
        new_kind.axis == PointerAxisFrame::still(),
        call_ensures(NestedHost::on_pointer_axis, (old_kind, old_version, time, 0u32, value), ()),
        call_ensures(NestedHost::on_pointer_axis, (new_kind, new_version, time, 0u32, value), ()),
        *ended == *final(new_kind),
        call_ensures(NestedHost::flush_pointer_axis, (ended,), ()),
    ensures
        final(old_kind).input_events@.len() == old(old_kind).input_events@.len() + 1,
        final(old_kind).input_events@.last() matches HostInput::PointerAxis(frame) && frame.time
            == time && frame.vertical.value == Some(value as i64) && frame.horizontal.value is None,
        final(new_kind).input_events@ == old(new_kind).input_events@,
        final(ended).input_events@.len() == old(new_kind).input_events@.len() + 1,
        final(ended).input_events@.last() matches HostInput::PointerAxis(frame) && frame.time
            == time && frame.vertical.value == Some(value as i64) && frame.horizontal.value is None,
        final(ended).axis == PointerAxisFrame::still(),
{
}

/// Gestures and edits come out as they went in, in order, once.
pub proof fn gestures_and_edits_come_out(
    made: &mut NestedHost,
    taken: &mut NestedHost,
    gesture: HostGesture,
    gestures: Vec<HostGesture>,
    edited: &mut NestedHost,
    read: &mut NestedHost,
    edit: TextInputEvent,
    edits: Vec<TextInputEvent>,
)
    requires
        call_ensures(NestedHost::on_gesture, (made, gesture), ()),
        *taken == *final(made),
        call_ensures(NestedHost::take_pointer_gestures, (taken,), gestures),
        call_ensures(NestedHost::on_text_input, (edited, edit), ()),
        *read == *final(edited),
        call_ensures(NestedHost::take_text_input, (read,), edits),
    ensures
        gestures@.len() == old(made).gesture_events@.len() + 1 && gestures@.last() == gesture,
        final(taken).gesture_events@.len() == 0,
        edits@.len() == old(edited).text_input_events@.len() + 1 && edits@.last() == edit,
        final(read).text_input_events@.len() == 0,
{
}

/// The host is told of a text field in use with its text, cause, kind and place, from the
/// first request that turns it on to the last that makes it count; of one that is not in
/// use, that it is off. Text with a zero character is not told.
pub proof fn hosts_are_told_of_the_text_field(host: NestedHost, requests: Vec<TextInputRequest>)
    requires
        host.has_text_input && host.text_input_entered,
        call_ensures(NestedHost::text_input_update, (&host,), requests),
    ensures
        requests@.len() >= 2,
        requests@.last() is Commit,
        requests@[0] is Enable <==> host.text_input_state.enabled,
        requests@[0] is Disable <==> !host.text_input_state.enabled,
        host.text_input_state.enabled ==> {
            let state = host.text_input_state;
            &&& exists|i: int|
                0 <= i < requests@.len() && (#[trigger] requests@[i])
                    == TextInputRequest::ChangeCause(
                    state.change_cause,
                )
            &&& exists|i: int|
                0 <= i < requests@.len() && (#[trigger] requests@[i])
                    == TextInputRequest::ContentType {
                    hint: state.content_hint,
                    purpose: state.content_purpose,
                }
            &&& state.surrounding_text matches Some(text) ==> !text@.contains('\0') ==> exists|
                i: int,
            |
                0 <= i < requests@.len() && ((#[trigger] requests@[i])
                    matches TextInputRequest::SurroundingText { text: told, cursor, anchor }
                    && told@ == text@ && cursor == state.cursor && anchor == state.anchor)
            &&& state.cursor_rect matches Some(area) ==> exists|i: int|
                0 <= i < requests@.len() && (#[trigger] requests@[i])
                    == TextInputRequest::CursorRectangle {
                    x: area.0,
                    y: area.1,
                    width: area.2,
                    height: area.3,
                }
        },
{
    let views = text_input_requests(host.text_input_state);
    let state = host.text_input_state;
    let n = requests@.len() as int;
    assert(request_views(requests@).len() == n);
    assert(request_views(requests@)[n - 1] == requests@[n - 1]@);
    assert(request_views(requests@)[0] == requests@[0]@);
    if state.enabled {
        let at = if state.surrounding_text is Some && !state.surrounding_text->0@.contains('\0') {
            2int
        } else {
            1
        };
        assert(request_views(requests@)[at] == requests@[at]@);
        assert(request_views(requests@)[at + 1] == requests@[at + 1]@);
        assert(requests@[at] == TextInputRequest::ChangeCause(state.change_cause));
        assert(requests@[at + 1] == TextInputRequest::ContentType {
            hint: state.content_hint,
            purpose: state.content_purpose,
        });
        if at == 2 {
            assert(request_views(requests@)[1] == requests@[1]@);
            assert(requests@[1] is SurroundingText);
        }
        if state.cursor_rect is Some {
            let area = state.cursor_rect->0;
            assert(request_views(requests@)[at + 2] == requests@[at + 2]@);
            assert(requests@[at + 2] == TextInputRequest::CursorRectangle {
                x: area.0,
                y: area.1,
                width: area.2,
                height: area.3,
            });
        }
    }
}

/// While the host's focus is elsewhere it is told nothing, and the state is kept: what was
/// set is told when the focus comes.
pub proof fn kept_states_are_told_on_entering(
    away: &mut NestedHost,
    entered: &mut NestedHost,
    state: TextInputState,
    none: Vec<TextInputRequest>,
    requests: Vec<TextInputRequest>,
)
    requires
        away.has_text_input && !away.text_input_entered,
        call_ensures(NestedHost::set_text_input_state, (away, state), none),
        *entered == *final(away),
        call_ensures(NestedHost::on_text_input_enter, (entered,), requests),
    ensures
        none@.len() == 0,
        requests@.len() >= 2,
        requests@[0] is Enable <==> state.enabled,
        requests@.last() is Commit,
        final(entered).text_input_state == state,
{
    let n = requests@.len() as int;
    assert(request_views(none@).len() == none@.len());
    assert(request_views(requests@).len() == n);
    assert(request_views(requests@)[n - 1] == requests@[n - 1]@);
    assert(request_views(requests@)[0] == requests@[0]@);
}

/// The host's cursor is shown and hidden with the latest serial, once there is one and the
/// host can be asked.
pub proof fn cursors_need_a_serial(
    host: NestedHost,
    shape: u32,
    request: Option<(u32, u32)>,
    serial: Option<u32>,
)
    requires
        call_ensures(NestedHost::set_cursor_shape, (&host, shape), request),
        call_ensures(NestedHost::hide_cursor, (&host,), serial),
    ensures
        request is Some <==> host.has_cursor_shape_device && host.pointer_serial != 0,
        serial is Some <==> host.has_pointer && host.pointer_serial != 0,
        request matches Some(asked) ==> asked.0 == host.pointer_serial && asked.1 >= 1
            && (shape >= 1
            ==> asked.1 == shape),
        serial matches Some(number) ==> number == host.pointer_serial,
{
}

} // verus!
