//! Input as the compositor sees it, whatever it comes from.

use vstd::prelude::*;

verus! {

/// Whether a button or key is down.
#[derive(Debug, Clone, Copy, PartialEq, Eq, Structural)]
pub enum ButtonState {
    Released,
    Pressed,
}

impl ButtonState {
    /// The state that a protocol number stands for: zero is released.
    pub fn from_wayland(state: u32) -> (button: ButtonState)
        ensures
            button == if state == 0 {
                ButtonState::Released
            } else {
                ButtonState::Pressed
            },
    {
        if state == 0 {
            ButtonState::Released
        } else {
            ButtonState::Pressed
        }
    }
}

/// What a scroll motion comes from.
#[derive(Debug, Clone, Copy, PartialEq, Eq, Structural)]
pub enum PointerAxisSource {
    Wheel,
    Finger,
    Continuous,
    WheelTilt,
}

/// Whether content moves with the fingers or against them.
#[derive(Debug, Clone, Copy, PartialEq, Eq, Structural)]
pub enum PointerAxisRelativeDirection {
    Identical,
    Inverted,
}

/// One axis of a scroll motion. Values are in the protocol's 24.8 fixed point.
#[derive(Debug, Clone, Copy, PartialEq, Eq, Structural)]
pub struct PointerAxis {
    pub value: Option<i64>,
    pub discrete: Option<i32>,
    pub value120: Option<i32>,
    pub stop: bool,
    pub relative_direction: Option<PointerAxisRelativeDirection>,
}

/// A scroll motion.
#[derive(Debug, Clone, Copy, PartialEq, Eq, Structural)]
pub struct PointerAxisFrame {
    pub time: u32,
    pub source: Option<PointerAxisSource>,
    pub horizontal: PointerAxis,
    pub vertical: PointerAxis,
}

impl PointerAxis {
    /// An axis that did not move.
    pub open spec fn still() -> PointerAxis {
        PointerAxis {
            value: None,
            discrete: None,
            value120: None,
            stop: false,
            relative_direction: None,
        }
    }

    /// An axis that did not move.
    pub fn none() -> (axis: PointerAxis)
        ensures
            axis == PointerAxis::still(),
    {
        PointerAxis {
            value: None,
            discrete: None,
            value120: None,
            stop: false,
            relative_direction: None,
        }
    }

    /// Whether the axis moved or stopped.
    pub open spec fn moved(self) -> bool {
        self.value is Some || self.discrete is Some || self.value120 is Some || self.stop
    }

    /// Whether the axis moved or stopped.
    pub fn has_data(&self) -> (data: bool)
        ensures
            data == self.moved(),
    {
        self.value.is_some() || self.discrete.is_some() || self.value120.is_some() || self.stop
    }
}

impl PointerAxisFrame {
    /// A frame in which nothing moved.
    pub open spec fn still() -> PointerAxisFrame {
        PointerAxisFrame {
            time: 0,
            source: None,
            horizontal: PointerAxis::still(),
            vertical: PointerAxis::still(),
        }
    }

    /// A frame in which nothing moved.
    pub fn none() -> (frame: PointerAxisFrame)
        ensures
            frame == PointerAxisFrame::still(),
    {
        PointerAxisFrame {
            time: 0,
            source: None,
            horizontal: PointerAxis::none(),
            vertical: PointerAxis::none(),
        }
    }

    /// Whether an axis moved or stopped.
    pub open spec fn moved(self) -> bool {
        self.horizontal.moved() || self.vertical.moved()
    }

    /// Whether an axis moved or stopped.
    pub fn has_data(&self) -> (data: bool)
        ensures
            data == self.moved(),
    {
        self.horizontal.has_data() || self.vertical.has_data()
    }
}

/// The state of a text field that an input method works on.
#[derive(Debug)]
pub struct TextInputState {
    pub enabled: bool,
    pub surrounding_text: Option<String>,
    pub cursor: i32,
    pub anchor: i32,
    pub change_cause: u32,
    pub content_hint: u32,
    pub content_purpose: u32,
    pub cursor_rect: Option<(i32, i32, i32, i32)>,
}

/// An optional string by its characters.
pub open spec fn text_of(text: Option<String>) -> Option<Seq<char>> {
    match text {
        Some(text) => Some(text@),
        None => None,
    }
}

/// A copy of an optional string.
pub fn copy_text(text: &Option<String>) -> (copy: Option<String>)
    ensures
        text_of(copy) == text_of(*text),
{
    match text {
        Some(text) => Some(text.clone()),
        None => None,
    }
}

/// The state of a text field, with its text as characters.
pub struct TextStateView {
    pub enabled: bool,
    pub surrounding_text: Option<Seq<char>>,
    pub cursor: i32,
    pub anchor: i32,
    pub change_cause: u32,
    pub content_hint: u32,
    pub content_purpose: u32,
    pub cursor_rect: Option<(i32, i32, i32, i32)>,
}

/// The state of no text field.
pub open spec fn no_text() -> TextStateView {
    TextStateView {
        enabled: false,
        surrounding_text: None,
        cursor: 0,
        anchor: 0,
        change_cause: 0,
        content_hint: 0,
        content_purpose: 0,
        cursor_rect: None,
    }
}

impl View for TextInputState {
    type V = TextStateView;

    open spec fn view(&self) -> TextStateView {
        TextStateView {
            enabled: self.enabled,
            surrounding_text: text_of(self.surrounding_text),
            cursor: self.cursor,
            anchor: self.anchor,
            change_cause: self.change_cause,
            content_hint: self.content_hint,
            content_purpose: self.content_purpose,
            cursor_rect: self.cursor_rect,
        }
    }
}

impl TextInputState {
    /// The state of no text field.
    pub fn none() -> (state: TextInputState)
        ensures
            state@ == no_text(),
    {
        TextInputState {
            enabled: false,
            surrounding_text: None,
            cursor: 0,
            anchor: 0,
            change_cause: 0,
            content_hint: 0,
            content_purpose: 0,
            cursor_rect: None,
        }
    }

    /// A copy of the state.
    pub fn copy(&self) -> (copy: TextInputState)
        ensures
            copy@ == self@,
    {
        TextInputState {
            enabled: self.enabled,
            surrounding_text: copy_text(&self.surrounding_text),
            cursor: self.cursor,
            anchor: self.anchor,
            change_cause: self.change_cause,
            content_hint: self.content_hint,
            content_purpose: self.content_purpose,
            cursor_rect: self.cursor_rect,
        }
    }
}

/// An edit that an input method makes.
#[derive(Debug)]
pub enum TextInputEvent {
    Preedit { text: Option<String>, cursor_begin: i32, cursor_end: i32 },
    Commit(Option<String>),
    DeleteSurrounding { before_length: u32, after_length: u32 },
    Done,
}

/// An edit that an input method makes, with its text as characters.
pub enum TextEditView {
    Preedit { text: Option<Seq<char>>, cursor_begin: i32, cursor_end: i32 },
    Commit(Option<Seq<char>>),
    DeleteSurrounding { before_length: u32, after_length: u32 },
    Done,
}

impl View for TextInputEvent {
    type V = TextEditView;

    open spec fn view(&self) -> TextEditView {
        match *self {
            TextInputEvent::Preedit { text, cursor_begin, cursor_end } => TextEditView::Preedit {
                text: text_of(text),
                cursor_begin,
                cursor_end,
            },
            TextInputEvent::Commit(text) => TextEditView::Commit(text_of(text)),
            TextInputEvent::DeleteSurrounding {
                before_length,
                after_length,
            } => TextEditView::DeleteSurrounding { before_length, after_length },
            TextInputEvent::Done => TextEditView::Done,
        }
    }
}

/// Whether two optional texts are both absent or hold the same characters.
pub open spec fn same_text(left: Option<String>, right: Option<String>) -> bool {
    match (left, right) {
        (None, None) => true,
        (Some(left), Some(right)) => left@ == right@,
        _ => false,
    }
}

/// Whether two states of a text field say the same in every respect.
pub open spec fn same_state(left: TextInputState, right: TextInputState) -> bool {
    &&& left.enabled == right.enabled
    &&& same_text(left.surrounding_text, right.surrounding_text)
    &&& left.cursor == right.cursor
    &&& left.anchor == right.anchor
    &&& left.change_cause == right.change_cause
    &&& left.content_hint == right.content_hint
    &&& left.content_purpose == right.content_purpose
    &&& left.cursor_rect == right.cursor_rect
}

/// Whether a state says nothing.
pub open spec fn says_nothing(state: TextInputState) -> bool {
    &&& !state.enabled
    &&& state.surrounding_text is None
    &&& state.cursor == 0 && state.anchor == 0
    &&& state.change_cause == 0
    &&& state.content_hint == 0 && state.content_purpose == 0
    &&& state.cursor_rect is None
}

/// A copy of a state says the same in every respect.
pub proof fn copies_say_the_same(state: TextInputState, copy: TextInputState)
    requires
        call_ensures(TextInputState::copy, (&state,), copy),
    ensures
        same_state(state, copy),
{
}

/// A new state says nothing.
pub proof fn new_states_say_nothing(state: TextInputState)
    requires
        call_ensures(TextInputState::none, (), state),
    ensures
        says_nothing(state),
{
}

/// States that look the same say the same.
pub proof fn equal_views_say_the_same(left: TextInputState, right: TextInputState)
    ensures
        left@ == right@ <==> same_state(left, right),
        left@ == no_text() <==> says_nothing(left),
{
}

/// Scrolling is reported where some axis has a distance, whole steps, parts of steps or a
/// stop; a button is released by zero and pressed by anything else.
pub proof fn any_scrolling_is_reported(
    frame: PointerAxisFrame,
    data: bool,
    number: u32,
    state: ButtonState,
)
    requires
        call_ensures(PointerAxisFrame::has_data, (&frame,), data),
        call_ensures(ButtonState::from_wayland, (number,), state),
    ensures
        data <==> {
            ||| frame.vertical.value is Some || frame.horizontal.value is Some
            ||| frame.vertical.discrete is Some || frame.horizontal.discrete is Some
            ||| frame.vertical.value120 is Some || frame.horizontal.value120 is Some
            ||| frame.vertical.stop || frame.horizontal.stop
        },
        state == ButtonState::Released <==> number == 0,
{
}

} // verus!
