//! Text fields of clients, and the edits that input methods make in them.

use vstd::prelude::*;
use crate::geometry::Point;
use crate::input::{
    no_text, same_state, same_text, says_nothing, text_of, TextEditView, TextInputEvent,
    TextInputState,
    TextStateView,
};
use crate::text::text_has_nul;

verus! {

/// A client's text-field object.
#[derive(Debug)]
pub struct TextInput {
    pub resource: u64,
    pub client: u64,
    pub seat: u64,
    /// The focused surface, while the client has the focus.
    pub current_surface: Option<u64>,
    /// What the client has said since its last commit.
    pub pending: TextInputState,
    pub current: TextInputState,
    /// How many commits the client has made.
    pub commit_serial: u32,
}

/// A client's text-field object, with texts as characters.
pub struct TextInputView {
    pub resource: u64,
    pub client: u64,
    pub seat: u64,
    pub current_surface: Option<u64>,
    pub pending: TextStateView,
    pub current: TextStateView,
    pub commit_serial: u32,
}

impl View for TextInput {
    type V = TextInputView;

    open spec fn view(&self) -> TextInputView {
        TextInputView {
            resource: self.resource,
            client: self.client,
            seat: self.seat,
            current_surface: self.current_surface,
            pending: self.pending@,
            current: self.current@,
            commit_serial: self.commit_serial,
        }
    }
}

/// The text-field objects of a seat.
#[derive(Debug)]
pub struct TextInputs {
    pub inputs: Vec<TextInput>,
}

/// Where the text cursor is: on which surface, and where on it.
#[derive(Debug, Clone, Copy, PartialEq, Eq)]
pub struct TextInputCursorAnchor {
    pub surface: u64,
    /// The text cursor on the surface. Without one the surface as a whole
    /// counts.
    pub rect: Option<(i32, i32, i32, i32)>,
}

/// What a client is told of a focus change.
#[derive(Debug, Clone, Copy, PartialEq, Eq, Structural)]
pub enum FocusEvent {
    Leave { resource: u64, surface: u64 },
    Enter { resource: u64, surface: u64 },
}

/// A surface with the client that it belongs to.
#[derive(Debug, Clone, Copy, PartialEq, Eq, Structural)]
pub struct Focus {
    pub surface: u64,
    pub client: u64,
}

/// Count a commit. The count wraps around.
pub fn count_text_input_commit(serial: &mut u32)
    ensures
        *final(serial) == if *old(serial) == u32::MAX {
            0
        } else {
            (*old(serial) + 1) as u32
        },
{
    *serial = serial.wrapping_add(1);
}

/// Take what a client has said as the new state. The cause of the change is said
/// once; everything else stays said.
pub fn apply_pending_text_input_state(pending: &mut TextInputState) -> (current: TextInputState)
    ensures
        current@ == old(pending)@,
        final(pending)@ == (TextStateView { change_cause: 0, ..old(pending)@ }),
{
    let current = pending.copy();
    pending.change_cause = 0;
    current
}

/// The text-field objects, with texts as characters.
pub open spec fn input_views(list: Seq<TextInput>) -> Seq<TextInputView> {
    list.map_values(|input: TextInput| input@)
}

impl TextInputView {
    /// The object without focus.
    pub open spec fn left(self) -> TextInputView {
        TextInputView {
            current_surface: None,
            pending: no_text(),
            current: no_text(),
            ..self
        }
    }

    /// The object with the focus on a surface.
    pub open spec fn entered(self, surface: u64) -> TextInputView {
        TextInputView {
            current_surface: Some(surface),
            pending: no_text(),
            current: no_text(),
            ..self
        }
    }

    /// Whether a focus change of a seat, from or to a surface, concerns the
    /// object.
    pub open spec fn concerned(self, seat: u64, focus: Option<Focus>) -> bool {
        &&& self.seat == seat
        &&& focus matches Some(focus)
        &&& focus.client == self.client
    }

    /// The object once the old focus has been left.
    pub open spec fn after_leave(self, seat: u64, old_focus: Option<Focus>) -> TextInputView {
        if self.concerned(seat, old_focus) {
            self.left()
        } else {
            self
        }
    }

    /// The object once the new focus has been entered.
    pub open spec fn after_enter(self, seat: u64, new_focus: Option<Focus>) -> TextInputView {
        if self.concerned(seat, new_focus) {
            self.entered(new_focus->0.surface)
        } else {
            self
        }
    }

    /// Whether edits go to the object.
    pub open spec fn gets_edits(self, focus: Focus) -> bool {
        &&& self.client == focus.client
        &&& self.current_surface == Some(focus.surface)
        &&& self.current.enabled
    }
}

/// Whether another object of the same seat is in use.
pub open spec fn sibling_enabled(list: Seq<TextInputView>, index: int) -> bool {
    exists|i: int|
        0 <= i < list.len() && (#[trigger] list[i]).resource != list[index].resource
            && list[i].seat == list[index].seat && list[i].current.enabled
}

/// What a commit makes of the object at `index`.
pub open spec fn committed(list: Seq<TextInputView>, index: int) -> TextInputView {
    let input = list[index];
    let counted = TextInputView {
        commit_serial: if input.commit_serial == u32::MAX {
            0
        } else {
            (input.commit_serial + 1) as u32
        },
        ..input
    };
    if input.current_surface is None {
        counted
    } else if input.pending.enabled && sibling_enabled(list, index) {
        TextInputView { pending: no_text(), ..counted }
    } else {
        TextInputView {
            pending: TextStateView { change_cause: 0, ..input.pending },
            current: input.pending,
            ..counted
        }
    }
}

/// Whether a commit of the object at `index` takes effect.
pub open spec fn commit_counts(list: Seq<TextInputView>, index: int) -> bool {
    list[index].current_surface is Some && !(list[index].pending.enabled && sibling_enabled(
        list,
        index,
    ))
}

/// Every object is known by its own resource.
pub open spec fn own_resources(list: Seq<TextInputView>) -> bool {
    forall|i: int, j: int|
        #![trigger list[i], list[j]]
        0 <= i < j < list.len() ==> list[i].resource != list[j].resource
}

/// At most one object of each seat is in use, and none without the focus.
pub open spec fn one_in_use(list: Seq<TextInputView>) -> bool {
    &&& forall|i: int, j: int|
        #![trigger list[i], list[j]]
        0 <= i < j < list.len() && list[i].seat == list[j].seat ==> !(list[i].current.enabled
            && list[j].current.enabled)
    &&& forall|i: int|
        0 <= i < list.len() && (#[trigger] list[i]).current.enabled ==> list[i].current_surface
            is Some
}

/// The events of leaving the old focus, in order.
pub open spec fn leave_events(
    list: Seq<TextInputView>,
    seat: u64,
    old_focus: Option<Focus>,
) -> Seq<FocusEvent>
    decreases list.len(),
{
    if list.len() == 0 {
        Seq::empty()
    } else {
        let earlier = leave_events(list.drop_last(), seat, old_focus);
        if list.last().concerned(seat, old_focus) {
            earlier.push(
                FocusEvent::Leave { resource: list.last().resource, surface: old_focus->0.surface },
            )
        } else {
            earlier
        }
    }
}

/// The events of entering the new focus, in order.
pub open spec fn enter_events(
    list: Seq<TextInputView>,
    seat: u64,
    new_focus: Option<Focus>,
) -> Seq<FocusEvent>
    decreases list.len(),
{
    if list.len() == 0 {
        Seq::empty()
    } else {
        let earlier = enter_events(list.drop_last(), seat, new_focus);
        if list.last().concerned(seat, new_focus) {
            earlier.push(
                FocusEvent::Enter { resource: list.last().resource, surface: new_focus->0.surface },
            )
        } else {
            earlier
        }
    }
}

/// The objects once the old focus has been left.
pub open spec fn all_left(list: Seq<TextInputView>, seat: u64, old_focus: Option<Focus>) -> Seq<
    TextInputView,
> {
    Seq::new(list.len(), |i: int| list[i].after_leave(seat, old_focus))
}

/// The objects once the new focus has been entered.
pub open spec fn all_entered(list: Seq<TextInputView>, seat: u64, new_focus: Option<Focus>) -> Seq<
    TextInputView,
> {
    Seq::new(list.len(), |i: int| list[i].after_enter(seat, new_focus))
}

/// Whether leaving the old focus takes a text field out of use.
pub open spec fn leave_ends_use(
    list: Seq<TextInputView>,
    seat: u64,
    old_focus: Option<Focus>,
) -> bool {
    exists|i: int|
        0 <= i < list.len() && (#[trigger] list[i]).concerned(seat, old_focus)
            && list[i].current.enabled
}

/// What a client is sent for an edit.
#[derive(Debug)]
pub enum TextInputMessage {
    Preedit { text: Option<String>, cursor_begin: i32, cursor_end: i32 },
    Commit(Option<String>),
    DeleteSurrounding { before_length: u32, after_length: u32 },
    /// The end of the edits, with the number of commits that they are based on.
    Done(u32),
}

/// What a client is sent for an edit, with texts as characters.
pub enum TextMessageView {
    Preedit { text: Option<Seq<char>>, cursor_begin: i32, cursor_end: i32 },
    Commit(Option<Seq<char>>),
    DeleteSurrounding { before_length: u32, after_length: u32 },
    Done(u32),
}

impl View for TextInputMessage {
    type V = TextMessageView;

    open spec fn view(&self) -> TextMessageView {
        match *self {
            TextInputMessage::Preedit {
                text,
                cursor_begin,
                cursor_end,
            } => TextMessageView::Preedit { text: text_of(text), cursor_begin, cursor_end },
            TextInputMessage::Commit(text) => TextMessageView::Commit(text_of(text)),
            TextInputMessage::DeleteSurrounding {
                before_length,
                after_length,
            } => TextMessageView::DeleteSurrounding { before_length, after_length },
            TextInputMessage::Done(serial) => TextMessageView::Done(serial),
        }
    }
}

/// Text that can be sent: text with a zero character cannot.
pub open spec fn sendable(text: Option<Seq<char>>) -> Option<Seq<char>> {
    match text {
        Some(text) if !text.contains('\0') => Some(text),
        _ => None,
    }
}

/// What a client is sent for an edit, given its number of commits.
pub open spec fn message_for(edit: TextEditView, serial: u32) -> TextMessageView {
    match edit {
        TextEditView::Preedit { text, cursor_begin, cursor_end } => TextMessageView::Preedit {
            text: sendable(text),
            cursor_begin,
            cursor_end,
        },
        TextEditView::Commit(text) => TextMessageView::Commit(sendable(text)),
        TextEditView::DeleteSurrounding {
            before_length,
            after_length,
        } => TextMessageView::DeleteSurrounding { before_length, after_length },
        TextEditView::Done => TextMessageView::Done(serial),
    }
}

fn sendable_text(text: &Option<String>) -> (sent: Option<String>)
    ensures
        text_of(sent) == sendable(text_of(*text)),
{
    match text {
        Some(text) => if text_has_nul(text.as_str()) {
            None
        } else {
            Some(text.clone())
        },
        None => None,
    }
}

fn message(edit: &TextInputEvent, serial: u32) -> (message: TextInputMessage)
    ensures
        message@ == message_for(edit@, serial),
{
    match edit {
        TextInputEvent::Preedit { text, cursor_begin, cursor_end } => TextInputMessage::Preedit {
            text: sendable_text(text),
            cursor_begin: *cursor_begin,
            cursor_end: *cursor_end,
        },
        TextInputEvent::Commit(text) => TextInputMessage::Commit(sendable_text(text)),
        TextInputEvent::DeleteSurrounding {
            before_length,
            after_length,
        } => TextInputMessage::DeleteSurrounding {
            before_length: *before_length,
            after_length: *after_length,
        },
        TextInputEvent::Done => TextInputMessage::Done(serial),
    }
}

/// What goes to which object for an edit, in order.
pub open spec fn deliveries(list: Seq<TextInputView>, focus: Focus, edit: TextEditView) -> Seq<
    (u64, TextMessageView),
>
    decreases list.len(),
{
    if list.len() == 0 {
        Seq::empty()
    } else {
        let earlier = deliveries(list.drop_last(), focus, edit);
        if list.last().gets_edits(focus) {
            earlier.push((list.last().resource, message_for(edit, list.last().commit_serial)))
        } else {
            earlier
        }
    }
}

/// Messages with their receivers, with texts as characters.
pub open spec fn delivery_views(list: Seq<(u64, TextInputMessage)>) -> Seq<(u64, TextMessageView)> {
    list.map_values(|d: (u64, TextInputMessage)| (d.0, d.1@))
}

impl TextInput {
    /// A client with the focus says that a text field is in use. Everything
    /// else it said is forgotten.
    pub fn enable(&mut self)
        ensures
            final(self)@ == if old(self).current_surface is Some {
                TextInputView {
                    pending: TextStateView { enabled: true, ..no_text() },
                    ..old(self)@
                }
            } else {
                old(self)@
            },
    {
        if self.current_surface.is_none() {
            return;
        }
        let mut pending = TextInputState::none();
        pending.enabled = true;
        self.pending = pending;
    }

    /// A client with the focus says that no text field is in use.
    pub fn disable(&mut self)
        ensures
            final(self)@ == if old(self).current_surface is Some {
                TextInputView { pending: no_text(), ..old(self)@ }
            } else {
                old(self)@
            },
    {
        if self.current_surface.is_none() {
            return;
        }
        self.pending = TextInputState::none();
    }

    /// A client with the focus tells the text around the text cursor.
    pub fn set_surrounding_text(&mut self, text: &str, cursor: i32, anchor: i32)
        ensures
            final(self)@ == if old(self).current_surface is Some {
                TextInputView {
                    pending: TextStateView {
                        surrounding_text: Some(text@),
                        cursor,
                        anchor,
                        ..old(self).pending@
                    },
                    ..old(self)@
                }
            } else {
                old(self)@
            },
    {
        if self.current_surface.is_none() {
            return;
        }
        self.pending.surrounding_text = Some(text.to_owned());
        self.pending.cursor = cursor;
        self.pending.anchor = anchor;
    }

    /// A client with the focus tells why the text changed.
    pub fn set_text_change_cause(&mut self, cause: u32)
        ensures
            final(self)@ == if old(self).current_surface is Some {
                TextInputView {
                    pending: TextStateView { change_cause: cause, ..old(self).pending@ },
                    ..old(self)@
                }
            } else {
                old(self)@
            },
    {
        if self.current_surface.is_some() {
            self.pending.change_cause = cause;
        }
    }

    /// A client with the focus tells what kind of text it is.
    pub fn set_content_type(&mut self, hint: u32, purpose: u32)
        ensures
            final(self)@ == if old(self).current_surface is Some {
                TextInputView {
                    pending: TextStateView {
                        content_hint: hint,
                        content_purpose: purpose,
                        ..old(self).pending@
                    },
                    ..old(self)@
                }
            } else {
                old(self)@
            },
    {
        if self.current_surface.is_some() {
            self.pending.content_hint = hint;
            self.pending.content_purpose = purpose;
        }
    }

    /// A client with the focus tells where the text cursor is.
    pub fn set_cursor_rectangle(&mut self, x: i32, y: i32, width: i32, height: i32)
        ensures
            final(self)@ == if old(self).current_surface is Some {
                TextInputView {
                    pending: TextStateView {
                        cursor_rect: Some((x, y, width, height)),
                        ..old(self).pending@
                    },
                    ..old(self)@
                }
            } else {
                old(self)@
            },
    {
        if self.current_surface.is_some() {
            self.pending.cursor_rect = Some((x, y, width, height));
        }
    }

    /// Where the text cursor is, while a text field is in use.
    pub fn cursor_anchor(&self) -> (anchor: Option<TextInputCursorAnchor>)
        ensures
            anchor == match self.current_surface {
                Some(surface) if self.current.enabled => Some(
                    TextInputCursorAnchor { surface, rect: self.current.cursor_rect },
                ),
                _ => None,
            },
    {
        match self.current_surface {
            Some(surface) => if self.current.enabled {
                Some(TextInputCursorAnchor { surface, rect: self.current.cursor_rect })
            } else {
                None
            },
            None => None,
        }
    }

    /// Moving the text cursor by the surface's place does not overflow.
    pub open spec fn cursor_fits(self, origin: Option<Point>) -> bool {
        self.current.cursor_rect matches Some((x, y, _, _)) ==> (origin matches Some(o) ==> (
        i32::MIN <= x + o.x <= i32::MAX && i32::MIN <= y + o.y <= i32::MAX))
    }

    /// A state with its text cursor on the desktop, given where the surface is.
    pub open spec fn on_desktop(state: TextStateView, origin: Option<Point>) -> TextStateView {
        match (state.cursor_rect, origin) {
            (Some((x, y, width, height)), Some(o)) => TextStateView {
                cursor_rect: Some(((x + o.x) as i32, (y + o.y) as i32, width, height)),
                ..state
            },
            _ => state,
        }
    }

    /// The state with its text cursor on the desktop, given where the surface
    /// is.
    pub fn state_on_desktop(&self, origin: Option<Point>) -> (state: TextInputState)
        requires
            self.cursor_fits(origin),
        ensures
            state@ == TextInput::on_desktop(self.current@, origin),
    {
        let mut state = self.current.copy();
        if let Some((x, y, width, height)) = state.cursor_rect {
            if let Some(o) = origin {
                state.cursor_rect = Some((x + o.x, y + o.y, width, height));
            }
        }
        state
    }
}

impl TextInputs {
    /// No text-field objects.
    pub fn new() -> (inputs: TextInputs)
        ensures
            inputs.inputs@.len() == 0,
            inputs.wf(),
            inputs.one_in_use(),
    {
        TextInputs { inputs: Vec::new() }
    }

    /// The text-field objects, with texts as characters.
    pub open spec fn views(self) -> Seq<TextInputView> {
        input_views(self.inputs@)
    }

    /// Every object has its own resource.
    pub open spec fn wf(self) -> bool {
        own_resources(self.views())
    }

    /// At most one text field of each seat is in use.
    pub open spec fn one_in_use(self) -> bool {
        one_in_use(self.views())
    }

    /// A client asks for a text-field object of a seat. If the client has the
    /// seat's focus, the answer is the surface that it enters.
    pub fn create(&mut self, resource: u64, client: u64, seat: u64, focus: Option<Focus>) -> (entered:
        Option<u64>)
        requires
            forall|i: int|
                0 <= i < old(self).views().len() ==> (#[trigger] old(self).views()[i]).resource
                    != resource,
        ensures
            entered == match focus {
                Some(focus) if focus.client == client => Some(focus.surface),
                _ => None,
            },
            final(self).views() == old(self).views().push(
                TextInputView {
                    resource,
                    client,
                    seat,
                    current_surface: entered,
                    pending: no_text(),
                    current: no_text(),
                    commit_serial: 0,
                },
            ),
            old(self).wf() ==> final(self).wf(),
            old(self).one_in_use() ==> final(self).one_in_use(),
    {
        let current_surface = match focus {
            Some(focus) => if focus.client == client {
                Some(focus.surface)
            } else {
                None
            },
            None => None,
        };
        let ghost before = self.views();
        self.inputs.push(
            TextInput {
                resource,
                client,
                seat,
                current_surface,
                pending: TextInputState::none(),
                current: TextInputState::none(),
                commit_serial: 0,
            },
        );
        proof {
            let made = TextInputView {
                resource,
                client,
                seat,
                current_surface,
                pending: no_text(),
                current: no_text(),
                commit_serial: 0,
            };
            assert(self.views() =~= before.push(made));
        }
        current_surface
    }

    fn position(&self, resource: u64) -> (found: Option<usize>)
        ensures
            match found {
                Some(index) => index < self.inputs@.len() && self.inputs@[index as int].resource
                    == resource,
                None => forall|i: int|
                    0 <= i < self.inputs@.len() ==> (#[trigger] self.inputs@[i]).resource
                        != resource,
            },
    {
        let mut index: usize = 0;
        while index < self.inputs.len()
            invariant
                index <= self.inputs.len(),
                forall|i: int|
                    0 <= i < index ==> (#[trigger] self.inputs@[i]).resource != resource,
            decreases self.inputs.len() - index,
        {
            if self.inputs[index].resource == resource {
                return Some(index);
            }
            index += 1;
        }
        None
    }

    /// A text-field object was destroyed. The answer says whether it was in use,
    /// so that the input method must be told.
    pub fn destroy(&mut self, resource: u64) -> (was_in_use: bool)
        requires
            old(self).wf(),
        ensures
            final(self).wf(),
            old(self).one_in_use() ==> final(self).one_in_use(),
            was_in_use == exists|i: int|
                0 <= i < old(self).views().len() && (#[trigger] old(self).views()[i]).resource
                    == resource && old(self).views()[i].current.enabled,
            final(self).views() == old(self).views().filter(
                |input: TextInputView| input.resource != resource,
            ),
    {
        let ghost before = self.views();
        match self.position(resource) {
            Some(index) => {
                proof {
                    assert(before[index as int].resource == resource);
                    assert forall|i: int| 0 <= i < before.len() && i != index implies (
                    #[trigger] before[i]).resource != resource by {
                        if i < index {
                            assert(before[i].resource != before[index as int].resource);
                        } else {
                            assert(before[index as int].resource != before[i].resource);
                        }
                    }
                    lemma_filter_one(before, resource, index as int);
                }
                let gone = self.inputs.remove(index);
                proof {
                    assert(self.views() =~= before.remove(index as int));
                    lemma_remove_keeps_wf(before, index as int);
                    if gone.current.enabled {
                        assert(before[index as int].current.enabled);
                    }
                }
                gone.current.enabled
            },
            None => {
                proof {
                    assert forall|i: int| 0 <= i < before.len() implies (
                    #[trigger] before[i]).resource != resource by {
                        assert(self.inputs@[i].resource != resource);
                    }
                    lemma_filter_none(before, resource);
                }
                false
            },
        }
    }

    /// A text-field object is used with another seat from now on.
    pub fn reseat(&mut self, resource: u64, seat: u64)
        requires
            old(self).wf(),
        ensures
            final(self).wf(),
            final(self).views().len() == old(self).views().len(),
            forall|i: int|
                0 <= i < final(self).views().len()
                    ==> #[trigger] final(self).views()[i] == if old(self).views()[i].resource
                        == resource {
                    TextInputView { seat, ..old(self).views()[i] }
                } else {
                    old(self).views()[i]
                },
    {
        let ghost before = self.views();
        match self.position(resource) {
            Some(index) => {
                self.inputs[index].seat = seat;
                proof {
                    assert(before[index as int].resource == resource);
                    assert forall|i: int| 0 <= i < before.len() implies #[trigger] self.views()[i]
                        == if before[i].resource == resource {
                        TextInputView { seat, ..before[i] }
                    } else {
                        before[i]
                    } by {
                        if i < index {
                            assert(before[i].resource != before[index as int].resource);
                        } else if i > index {
                            assert(before[index as int].resource != before[i].resource);
                        }
                    }
                }
            },
            None => {
                proof {
                    assert forall|i: int| 0 <= i < before.len() implies (
                    #[trigger] before[i]).resource != resource by {
                        assert(self.inputs@[i].resource != resource);
                    }
                }
            },
        }
        proof {
            assert forall|i: int, j: int|
                #![trigger self.views()[i], self.views()[j]]
                0 <= i < j < self.views().len() implies self.views()[i].resource
                != self.views()[j].resource by {
                assert(before[i].resource != before[j].resource);
            }
        }
    }

    /// A client commits what it has said about the text field at `index`. Every
    /// commit counts, but only one with the focus takes effect, and it cannot
    /// put a second text field of a seat into use. The answer says whether it
    /// took effect.
    pub fn commit(&mut self, index: usize) -> (effect: bool)
        requires
            old(self).wf(),
            index < old(self).inputs@.len(),
        ensures
            final(self).wf(),
            old(self).one_in_use() ==> final(self).one_in_use(),
            effect == commit_counts(old(self).views(), index as int),
            final(self).views() == old(self).views().update(
                index as int,
                committed(old(self).views(), index as int),
            ),
    {
        let ghost before = self.views();
        let sibling = self.another_enabled(index);
        let mut serial: u32 = self.inputs[index].commit_serial;
        count_text_input_commit(&mut serial);
        self.inputs[index].commit_serial = serial;
        let focused = self.inputs[index].current_surface.is_some();
        let effect = focused && !(self.inputs[index].pending.enabled && sibling);
        if focused {
            if effect {
                let mut pending = TextInputState::none();
                std::mem::swap(&mut pending, &mut self.inputs[index].pending);
                let current = apply_pending_text_input_state(&mut pending);
                self.inputs[index].pending = pending;
                self.inputs[index].current = current;
            } else {
                self.inputs[index].pending = TextInputState::none();
            }
        }
        proof {
            let new = committed(before, index as int);
            assert(self.views() =~= before.update(index as int, new));
            lemma_commit_keeps_wf(before, index as int);
        }
        effect
    }

    /// What a commit that took effect hands on of the text field at `index`: its
    /// state on the desktop and where the text cursor is, as long as its surface
    /// has the keyboard focus. `origin` is where that surface is.
    pub fn handed_on(&self, index: usize, focus: Option<u64>, origin: Option<Point>) -> (handed: Option<
        (TextInputState, Option<TextInputCursorAnchor>),
    >)
        requires
            index < self.inputs@.len(),
            self.inputs@[index as int].current_surface == focus
                ==> self.inputs@[index as int].cursor_fits(origin),
        ensures
            handed is Some <==> self.inputs@[index as int].current_surface == focus,
            handed matches Some((state, anchor)) ==> {
                let input = self.inputs@[index as int];
                &&& state@ == TextInput::on_desktop(input.current@, origin)
                &&& anchor == match input.current_surface {
                    Some(surface) if input.current.enabled => Some(
                        TextInputCursorAnchor { surface, rect: input.current.cursor_rect },
                    ),
                    _ => None,
                }
            },
    {
        let input = &self.inputs[index];
        let focused = match (input.current_surface, focus) {
            (Some(surface), Some(focus)) => surface == focus,
            (None, None) => true,
            _ => false,
        };
        if focused {
            Some((input.state_on_desktop(origin), input.cursor_anchor()))
        } else {
            None
        }
    }

    fn another_enabled(&self, index: usize) -> (found: bool)
        requires
            index < self.inputs@.len(),
        ensures
            found == sibling_enabled(self.views(), index as int),
    {
        let resource: u64 = self.inputs[index].resource;
        let seat: u64 = self.inputs[index].seat;
        let mut place: usize = 0;
        while place < self.inputs.len()
            invariant
                place <= self.inputs.len(),
                index < self.inputs@.len(),
                resource == self.views()[index as int].resource,
                seat == self.views()[index as int].seat,
                forall|i: int|
                    0 <= i < place ==> !((#[trigger] self.views()[i]).resource != resource
                        && self.views()[i].seat == seat && self.views()[i].current.enabled),
            decreases self.inputs.len() - place,
        {
            assert(self.views()[place as int] == self.inputs@[place as int]@);
            if self.inputs[place].resource != resource && self.inputs[place].seat == seat
                && self.inputs[place].current.enabled {
                return true;
            }
            place += 1;
        }
        false
    }

    /// The focus of a seat moved. Clients are told to leave before any is told
    /// to enter. The answer also says whether a text field went out of use.
    pub fn focus_changed(
        &mut self,
        seat: u64,
        old_focus: Option<Focus>,
        new_focus: Option<Focus>,
    ) -> (answer: (Vec<FocusEvent>, bool))
        requires
            old(self).wf(),
        ensures
            final(self).wf(),
            old(self).one_in_use() ==> final(self).one_in_use(),
            final(self).views() == all_entered(
                all_left(old(self).views(), seat, old_focus),
                seat,
                new_focus,
            ),
            answer.0@ == leave_events(old(self).views(), seat, old_focus) + enter_events(
                old(self).views(),
                seat,
                new_focus,
            ),
            answer.1 == leave_ends_use(old(self).views(), seat, old_focus),
    {
        let mut events: Vec<FocusEvent> = Vec::new();
        let mut ends_use = false;
        let mut index: usize = 0;
        let ghost before = self.views();
        let ghost left = all_left(before, seat, old_focus);
        while index < self.inputs.len()
            invariant
                index <= self.inputs.len(),
                before == old(self).views(),
                left == all_left(before, seat, old_focus),
                self.views().len() == before.len(),
                self.inputs@.len() == before.len(),
                forall|i: int|
                    0 <= i < before.len() ==> #[trigger] self.views()[i] == if i < index {
                        left[i]
                    } else {
                        before[i]
                    },
                events@ == leave_events(before.take(index as int), seat, old_focus),
                ends_use == exists|i: int|
                    0 <= i < index && (#[trigger] before[i]).concerned(seat, old_focus)
                        && before[i].current.enabled,
            decreases self.inputs.len() - index,
        {
            let ghost was = self.views();
            assert(was[index as int] == self.inputs@[index as int]@);
            assert(before.take(index as int + 1).drop_last() =~= before.take(index as int));
            if self.inputs[index].seat == seat {
                if let Some(focus) = old_focus {
                    if focus.client == self.inputs[index].client {
                        events.push(
                            FocusEvent::Leave {
                                resource: self.inputs[index].resource,
                                surface: focus.surface,
                            },
                        );
                        if self.inputs[index].current.enabled {
                            ends_use = true;
                            assert(before[index as int].concerned(seat, old_focus));
                        }
                        self.inputs[index].current_surface = None;
                        self.inputs[index].pending = TextInputState::none();
                        self.inputs[index].current = TextInputState::none();
                    }
                }
            }
            proof {
                assert(self.inputs@[index as int]@ == left[index as int]);
                assert forall|i: int| 0 <= i < before.len() implies #[trigger] self.views()[i]
                    == if i < index + 1 {
                    left[i]
                } else {
                    before[i]
                } by {
                    if i != index {
                        assert(self.views()[i] == was[i]);
                    }
                }
            }
            index += 1;
        }
        proof {
            assert(before.take(before.len() as int) =~= before);
            assert(self.views() =~= left);
        }
        let ghost leaves = events@;
        let ghost entered = all_entered(left, seat, new_focus);
        let mut place: usize = 0;
        proof {
            lemma_enter_events_same(before, left, seat, new_focus);
            assert(leaves + enter_events(left.take(0), seat, new_focus) =~= leaves);
        }
        while place < self.inputs.len()
            invariant
                place <= self.inputs.len(),
                entered == all_entered(left, seat, new_focus),
                self.views().len() == left.len(),
                self.inputs@.len() == left.len(),
                forall|i: int|
                    0 <= i < left.len() ==> #[trigger] self.views()[i] == if i < place {
                        entered[i]
                    } else {
                        left[i]
                    },
                events@ == leaves + enter_events(left.take(place as int), seat, new_focus),
            decreases self.inputs.len() - place,
        {
            let ghost was = self.views();
            assert(was[place as int] == self.inputs@[place as int]@);
            assert(left.take(place as int + 1).drop_last() =~= left.take(place as int));
            if self.inputs[place].seat == seat {
                if let Some(focus) = new_focus {
                    if focus.client == self.inputs[place].client {
                        events.push(
                            FocusEvent::Enter {
                                resource: self.inputs[place].resource,
                                surface: focus.surface,
                            },
                        );
                        self.inputs[place].pending = TextInputState::none();
                        self.inputs[place].current = TextInputState::none();
                        self.inputs[place].current_surface = Some(focus.surface);
                    }
                }
            }
            proof {
                assert(self.inputs@[place as int]@ == entered[place as int]);
                assert forall|i: int| 0 <= i < left.len() implies #[trigger] self.views()[i] == if i
                    < place + 1 {
                    entered[i]
                } else {
                    left[i]
                } by {
                    if i != place {
                        assert(self.views()[i] == was[i]);
                    }
                }
                let next = enter_events(left.take(place as int + 1), seat, new_focus);
                assert(events@ =~= leaves + next);
            }
            place += 1;
        }
        proof {
            assert(left.take(left.len() as int) =~= left);
            assert(self.views() =~= entered);
            lemma_focus_keeps_wf(before, seat, old_focus, new_focus);
        }
        (events, ends_use)
    }

    /// The text field in use for a seat's focus, if there is one: its place in
    /// the list.
    pub fn in_use(&self, seat: u64, focus: Option<u64>) -> (found: Option<usize>)
        ensures
            found matches Some(index) ==> index < self.inputs@.len() && serves(
                self.views()[index as int],
                seat,
                focus,
            ) && forall|i: int|
                0 <= i < index ==> !serves(#[trigger] self.views()[i], seat, focus),
            self.views().len() == self.inputs@.len(),
            found is None ==> forall|i: int|
                0 <= i < self.views().len() ==> !serves(#[trigger] self.views()[i], seat, focus),
    {
        match focus {
            None => None,
            Some(surface) => {
                let mut index: usize = 0;
                while index < self.inputs.len()
                    invariant
                        index <= self.inputs.len(),
                        focus == Some(surface),
                        forall|i: int|
                            0 <= i < index ==> !serves(#[trigger] self.views()[i], seat, focus),
                    decreases self.inputs.len() - index,
                {
                    assert(self.views()[index as int] == self.inputs@[index as int]@);
                    let here = match self.inputs[index].current_surface {
                        Some(current) => current == surface,
                        None => false,
                    };
                    if self.inputs[index].seat == seat && here
                        && self.inputs[index].current.enabled {
                        return Some(index);
                    }
                    index += 1;
                }
                None
            },
        }
    }

    /// Hand an edit to the text fields in use on the focused surface.
    pub fn forward(&self, focus: Option<Focus>, edit: &TextInputEvent) -> (sent: Vec<
        (u64, TextInputMessage),
    >)
        ensures
            delivery_views(sent@) == match focus {
                Some(focus) => deliveries(self.views(), focus, edit@),
                None => Seq::empty(),
            },
    {
        let mut sent: Vec<(u64, TextInputMessage)> = Vec::new();
        match focus {
            None => {
                assert(delivery_views(sent@) =~= Seq::empty());
            },
            Some(focus) => {
                let mut index: usize = 0;
                assert(delivery_views(sent@) =~= deliveries(self.views().take(0), focus, edit@));
                while index < self.inputs.len()
                    invariant
                        index <= self.inputs.len(),
                        delivery_views(sent@) == deliveries(
                            self.views().take(index as int),
                            focus,
                            edit@,
                        ),
                    decreases self.inputs.len() - index,
                {
                    proof {
                        assert(self.views().take(index as int + 1).drop_last()
                            =~= self.views().take(index as int));
                        assert(self.views().take(index as int + 1).last()
                            == self.inputs@[index as int]@);
                    }
                    let input = &self.inputs[index];
                    let here = match input.current_surface {
                        Some(current) => current == focus.surface,
                        None => false,
                    };
                    if input.client == focus.client && here && input.current.enabled {
                        let ghost before = sent@;
                        let delivery = (input.resource, message(edit, input.commit_serial));
                        sent.push(delivery);
                        assert(delivery_views(sent@) =~= delivery_views(before).push(
                            (delivery.0, delivery.1@),
                        ));
                    }
                    index += 1;
                }
                assert(self.views().take(self.views().len() as int) =~= self.views());
            },
        }
        sent
    }
}

/// Whether an object is the text field in use for a seat's focus.
pub open spec fn serves(input: TextInputView, seat: u64, focus: Option<u64>) -> bool {
    input.seat == seat && focus is Some && input.current_surface == focus && input.current.enabled
}

proof fn lemma_enter_events_same(
    before: Seq<TextInputView>,
    after: Seq<TextInputView>,
    seat: u64,
    focus: Option<Focus>,
)
    requires
        before.len() == after.len(),
        forall|i: int|
            #![trigger after[i]]
            0 <= i < before.len() ==> after[i].seat == before[i].seat && after[i].client
                == before[i].client && after[i].resource == before[i].resource,
    ensures
        enter_events(before, seat, focus) == enter_events(after, seat, focus),
    decreases before.len(),
{
    if before.len() > 0 {
        assert forall|i: int|
            #![trigger after.drop_last()[i]]
            0 <= i < before.len() - 1 implies after.drop_last()[i].seat
            == before.drop_last()[i].seat && after.drop_last()[i].client
            == before.drop_last()[i].client && after.drop_last()[i].resource
            == before.drop_last()[i].resource by {
            assert(after.drop_last()[i] == after[i]);
        }
        lemma_enter_events_same(before.drop_last(), after.drop_last(), seat, focus);
        assert(after.last() == after[before.len() - 1]);
    }
}

proof fn lemma_filter_none(list: Seq<TextInputView>, resource: u64)
    requires
        forall|i: int| 0 <= i < list.len() ==> (#[trigger] list[i]).resource != resource,
    ensures
        list.filter(|input: TextInputView| input.resource != resource) == list,
    decreases list.len(),
{
    reveal(Seq::filter);
    if list.len() > 0 {
        assert forall|i: int| 0 <= i < list.drop_last().len() implies (
        #[trigger] list.drop_last()[i]).resource != resource by {
            assert(list.drop_last()[i] == list[i]);
        }
        lemma_filter_none(list.drop_last(), resource);
        assert(list.drop_last().push(list.last()) =~= list);
    }
}

proof fn lemma_filter_one(list: Seq<TextInputView>, resource: u64, index: int)
    requires
        0 <= index < list.len(),
        list[index].resource == resource,
        forall|i: int|
            0 <= i < list.len() && i != index ==> (#[trigger] list[i]).resource != resource,
    ensures
        list.filter(|input: TextInputView| input.resource != resource) == list.remove(index),
    decreases list.len(),
{
    reveal(Seq::filter);
    let rest = list.drop_last();
    assert forall|i: int| 0 <= i < rest.len() && i != index implies (
    #[trigger] rest[i]).resource != resource by {
        assert(rest[i] == list[i]);
    }
    if index == list.len() - 1 {
        lemma_filter_none(rest, resource);
        assert(list.remove(index) =~= rest);
    } else {
        lemma_filter_one(rest, resource, index);
        assert(list.last() == list[list.len() - 1]);
        assert(rest.remove(index).push(list.last()) =~= list.remove(index));
    }
}

proof fn lemma_remove_keeps_wf(list: Seq<TextInputView>, index: int)
    requires
        own_resources(list),
        0 <= index < list.len(),
    ensures
        own_resources(list.remove(index)),
        one_in_use(list) ==> one_in_use(list.remove(index)),
{
    let rest = list.remove(index);
    assert forall|i: int, j: int|
        #![trigger rest[i], rest[j]]
        0 <= i < j < rest.len() implies rest[i].resource != rest[j].resource && (one_in_use(list)
        && rest[i].seat == rest[j].seat ==> !(rest[i].current.enabled
        && rest[j].current.enabled)) by {
        let a = if i < index {
            i
        } else {
            i + 1
        };
        let b = if j < index {
            j
        } else {
            j + 1
        };
        assert(rest[i] == list[a] && rest[j] == list[b]);
    }
    assert forall|i: int|
        one_in_use(list) && 0 <= i < rest.len() && (
        #[trigger] rest[i]).current.enabled implies rest[i].current_surface is Some by {
        let a = if i < index {
            i
        } else {
            i + 1
        };
        assert(rest[i] == list[a]);
    }
}

proof fn lemma_commit_keeps_wf(list: Seq<TextInputView>, index: int)
    requires
        own_resources(list),
        0 <= index < list.len(),
    ensures
        own_resources(list.update(index, committed(list, index))),
        one_in_use(list) ==> one_in_use(list.update(index, committed(list, index))),
{
    let after = list.update(index, committed(list, index));
    assert forall|i: int, j: int|
        #![trigger after[i], after[j]]
        0 <= i < j < after.len() implies after[i].resource != after[j].resource && (one_in_use(list)
        && after[i].seat == after[j].seat ==> !(after[i].current.enabled
        && after[j].current.enabled)) by {
        assert(list[i].resource != list[j].resource);
        assert(one_in_use(list) && list[i].seat == list[j].seat ==> !(list[i].current.enabled
            && list[j].current.enabled));
        if i == index && after[i].current.enabled && after[j].current.enabled && after[i].seat
            == after[j].seat {
            assert(sibling_enabled(list, index));
        }
        if j == index && after[i].current.enabled && after[j].current.enabled && after[i].seat
            == after[j].seat {
            assert(sibling_enabled(list, index));
        }
    }
    assert forall|i: int|
        one_in_use(list) && 0 <= i < after.len() && (
        #[trigger] after[i]).current.enabled implies after[i].current_surface is Some by {
        assert(list[i].current.enabled ==> list[i].current_surface is Some);
    }
}

proof fn lemma_focus_keeps_wf(
    list: Seq<TextInputView>,
    seat: u64,
    old_focus: Option<Focus>,
    new_focus: Option<Focus>,
)
    requires
        own_resources(list),
    ensures
        own_resources(all_entered(all_left(list, seat, old_focus), seat, new_focus)),
        one_in_use(list) ==> one_in_use(
            all_entered(all_left(list, seat, old_focus), seat, new_focus),
        ),
{
    let after = all_entered(all_left(list, seat, old_focus), seat, new_focus);
    assert forall|i: int, j: int|
        #![trigger after[i], after[j]]
        0 <= i < j < after.len() implies after[i].resource != after[j].resource && (one_in_use(list)
        && after[i].seat == after[j].seat ==> !(after[i].current.enabled
        && after[j].current.enabled)) by {
        assert(list[i].resource != list[j].resource);
        assert(one_in_use(list) && list[i].seat == list[j].seat ==> !(list[i].current.enabled
            && list[j].current.enabled));
    }
    assert forall|i: int|
        one_in_use(list) && 0 <= i < after.len() && (
        #[trigger] after[i]).current.enabled implies after[i].current_surface is Some by {
        assert(list[i].current.enabled ==> list[i].current_surface is Some);
    }
}

/// However a client commits, at most one text field of a seat is in use.
pub proof fn commits_keep_one_text_field_in_use(list: Seq<TextInputView>, index: int)
    requires
        own_resources(list),
        one_in_use(list),
        0 <= index < list.len(),
    ensures
        one_in_use(list.update(index, committed(list, index))),
{
    lemma_commit_keeps_wf(list, index);
}

/// Every commit is counted, whether or not it takes effect.
pub proof fn every_commit_counts(list: Seq<TextInputView>, index: int)
    requires
        0 <= index < list.len(),
    ensures
        committed(list, index).commit_serial == if list[index].commit_serial == u32::MAX {
            0
        } else {
            (list[index].commit_serial + 1) as u32
        },
{
}

/// A focus change leaves nothing of what was said before to the client that gets
/// the focus.
pub proof fn entering_forgets_the_past(input: TextInputView, seat: u64, focus: Focus)
    requires
        input.concerned(seat, Some(focus)),
    ensures
        input.after_enter(seat, Some(focus)).pending == no_text(),
        input.after_enter(seat, Some(focus)).current == no_text(),
        input.after_enter(seat, Some(focus)).current_surface == Some(focus.surface),
{
}

/// Whether a text can be sent: texts with a zero character cannot.
pub open spec fn can_be_sent(text: Option<String>) -> bool {
    text is Some ==> !text->0@.contains('\0')
}

/// Whether a message carries an edit as it was made. Text that cannot be sent is
/// left out; everything else arrives as given, and the end of the edits names the
/// number of commits.
pub open spec fn carries(edit: TextInputEvent, serial: u32, message: TextInputMessage) -> bool {
    match edit {
        TextInputEvent::Preedit { text, cursor_begin, cursor_end } => {
            &&& message matches TextInputMessage::Preedit {
                text: sent,
                cursor_begin: begin,
                cursor_end: end,
            }
            &&& begin == cursor_begin
            &&& end == cursor_end
            &&& if can_be_sent(text) {
                same_text(text, sent)
            } else {
                sent is None
            }
        },
        TextInputEvent::Commit(text) => {
            &&& message matches TextInputMessage::Commit(sent)
            &&& if can_be_sent(text) {
                same_text(text, sent)
            } else {
                sent is None
            }
        },
        TextInputEvent::DeleteSurrounding { before_length, after_length } => {
            &&& message matches TextInputMessage::DeleteSurrounding {
                before_length: before,
                after_length: after,
            }
            &&& before == before_length
            &&& after == after_length
        },
        TextInputEvent::Done => message matches TextInputMessage::Done(number) && number == serial,
    }
}

/// The text fields in use on a focused surface.
pub open spec fn edited_on(inputs: Seq<TextInput>, focus: Focus) -> Seq<TextInput> {
    inputs.filter(
        |input: TextInput|
            input.client == focus.client && input.current_surface == Some(focus.surface)
                && input.current.enabled,
    )
}

proof fn lemma_deliveries(
    inputs: Seq<TextInput>,
    focus: Focus,
    edit: TextInputEvent,
    sent: Seq<(u64, TextInputMessage)>,
)
    requires
        delivery_views(sent) == deliveries(input_views(inputs), focus, edit@),
    ensures
        sent.len() == edited_on(inputs, focus).len(),
        forall|i: int|
            0 <= i < sent.len() ==> (#[trigger] sent[i]).0 == edited_on(inputs, focus)[i].resource
                && carries(edit, edited_on(inputs, focus)[i].commit_serial, sent[i].1),
    decreases inputs.len(),
{
    reveal(Seq::filter);
    assert(delivery_views(sent).len() == sent.len());
    if inputs.len() > 0 {
        let rest = inputs.drop_last();
        assert(input_views(inputs).drop_last() =~= input_views(rest));
        assert(input_views(inputs).last() == inputs.last()@);
        if inputs.last()@.gets_edits(focus) {
            assert(sent.len() > 0);
            assert(delivery_views(sent).drop_last() =~= delivery_views(sent.drop_last()));
            let earlier = deliveries(input_views(rest), focus, edit@);
            assert(deliveries(input_views(inputs), focus, edit@).drop_last() =~= earlier);
            lemma_deliveries(rest, focus, edit, sent.drop_last());
            assert(delivery_views(sent).last() == (sent.last().0, sent.last().1@));
            assert forall|i: int| 0 <= i < sent.len() implies (#[trigger] sent[i]).0 == edited_on(
                inputs,
                focus,
            )[i].resource && carries(edit, edited_on(inputs, focus)[i].commit_serial, sent[i].1) by {
                if i < sent.len() - 1 {
                    assert(sent[i] == sent.drop_last()[i]);
                }
            }
        } else {
            lemma_deliveries(rest, focus, edit, sent);
        }
    }
}

/// An edit goes, as it was made, to each text field in use on the focused
/// surface, in order, and to nothing else. Without a focus it goes nowhere.
pub proof fn edits_arrive_as_made(
    inputs: TextInputs,
    focus: Option<Focus>,
    edit: TextInputEvent,
    sent: Vec<(u64, TextInputMessage)>,
)
    requires
        call_ensures(TextInputs::forward, (&inputs, focus, &edit), sent),
    ensures
        focus is None ==> sent@.len() == 0,
        focus matches Some(focus) ==> {
            let fields = edited_on(inputs.inputs@, focus);
            &&& sent@.len() == fields.len()
            &&& forall|i: int|
                0 <= i < sent@.len() ==> (#[trigger] sent@[i]).0 == fields[i].resource && carries(
                    edit,
                    fields[i].commit_serial,
                    sent@[i].1,
                )
        },
{
    assert(delivery_views(sent@).len() == sent@.len());
    if focus is Some {
        lemma_deliveries(inputs.inputs@, focus->0, edit, sent@);
    }
}

/// What a client with the focus says of its text field waits, exactly as said,
/// for the client's commit.
pub proof fn what_is_said_waits_for_the_commit(
    input: &mut TextInput,
    text: &str,
    cursor: i32,
    anchor: i32,
)
    requires
        input.current_surface is Some,
        call_ensures(TextInput::set_surrounding_text, (input, text, cursor, anchor), ()),
    ensures
        final(input).pending.surrounding_text is Some,
        final(input).pending.surrounding_text->0@ == text@,
        final(input).pending.cursor == cursor,
        final(input).pending.anchor == anchor,
        final(input).pending.enabled == old(input).pending.enabled,
        final(input).pending.change_cause == old(input).pending.change_cause,
        final(input).pending.content_hint == old(input).pending.content_hint,
        final(input).pending.content_purpose == old(input).pending.content_purpose,
        final(input).pending.cursor_rect == old(input).pending.cursor_rect,
        same_state(final(input).current, old(input).current),
        final(input).current_surface == old(input).current_surface,
        final(input).commit_serial == old(input).commit_serial,
{
}

/// The kind of text, the cause of a change and the place of the text cursor wait
/// for the commit too, exactly as said.
pub proof fn other_sayings_wait_too(
    typed: &mut TextInput,
    hint: u32,
    purpose: u32,
    caused: &mut TextInput,
    cause: u32,
    placed: &mut TextInput,
    rect: (i32, i32, i32, i32),
)
    requires
        typed.current_surface is Some && caused.current_surface is Some
            && placed.current_surface is Some,
        call_ensures(TextInput::set_content_type, (typed, hint, purpose), ()),
        call_ensures(TextInput::set_text_change_cause, (caused, cause), ()),
        call_ensures(
            TextInput::set_cursor_rectangle,
            (placed, rect.0, rect.1, rect.2, rect.3),
            (),
        ),
    ensures
        final(typed).pending.content_hint == hint,
        final(typed).pending.content_purpose == purpose,
        same_state(final(typed).current, old(typed).current),
        final(caused).pending.change_cause == cause,
        same_state(final(caused).current, old(caused).current),
        final(placed).pending.cursor_rect == Some(rect),
        same_state(final(placed).current, old(placed).current),
{
}

/// Putting a text field into or out of use waits for the commit and drops what
/// was said of it before.
pub proof fn use_of_a_text_field_waits_too(enabled: &mut TextInput, disabled: &mut TextInput)
    requires
        enabled.current_surface is Some && disabled.current_surface is Some,
        call_ensures(TextInput::enable, (enabled,), ()),
        call_ensures(TextInput::disable, (disabled,), ()),
    ensures
        final(enabled).pending.enabled,
        final(enabled).pending.surrounding_text is None,
        final(enabled).pending.cursor_rect is None,
        final(enabled).pending.content_hint == 0 && final(enabled).pending.content_purpose == 0,
        final(enabled).pending.cursor == 0 && final(enabled).pending.anchor == 0,
        final(enabled).pending.change_cause == 0,
        same_state(final(enabled).current, old(enabled).current),
        says_nothing(final(disabled).pending),
        same_state(final(disabled).current, old(disabled).current),
{
}

/// A client without the focus is not listened to.
pub proof fn without_focus_nothing_is_said(
    said: &mut TextInput,
    text: &str,
    cursor: i32,
    anchor: i32,
    enabled: &mut TextInput,
)
    requires
        said.current_surface is None && enabled.current_surface is None,
        call_ensures(TextInput::set_surrounding_text, (said, text, cursor, anchor), ()),
        call_ensures(TextInput::enable, (enabled,), ()),
    ensures
        same_state(final(said).pending, old(said).pending),
        same_state(final(said).current, old(said).current),
        same_state(final(enabled).pending, old(enabled).pending),
        same_state(final(enabled).current, old(enabled).current),
{
}

/// A commit with the focus makes what was said the text field's state, unless it
/// would put a second text field of the seat into use. Every commit is counted,
/// and none touches another object.
pub proof fn commits_take_up_what_was_said(
    inputs: &mut TextInputs,
    index: usize,
    effect: bool,
    other: int,
)
    requires
        call_ensures(TextInputs::commit, (inputs, index), effect),
        index < inputs.inputs@.len(),
        0 <= other < inputs.inputs@.len() && other != index,
    ensures
        final(inputs).inputs@.len() == old(inputs).inputs@.len(),
        effect ==> old(inputs).inputs@[index as int].current_surface is Some,
        effect ==> same_state(
            final(inputs).inputs@[index as int].current,
            old(inputs).inputs@[index as int].pending,
        ),
        effect ==> final(inputs).inputs@[index as int].pending.change_cause == 0,
        !effect ==> same_state(
            final(inputs).inputs@[index as int].current,
            old(inputs).inputs@[index as int].current,
        ),
        effect && old(inputs).inputs@[index as int].pending.enabled
            && old(inputs).inputs@[other].seat
            == old(inputs).inputs@[index as int].seat && old(inputs).inputs@[other].resource
            != old(inputs).inputs@[index as int].resource
                ==> !old(inputs).inputs@[other].current.enabled,
        old(inputs).inputs@[index as int].current_surface is Some
            && !old(inputs).inputs@[index as int].pending.enabled ==> effect,
        (final(inputs).inputs@[index as int].commit_serial
            - old(inputs).inputs@[index as int].commit_serial - 1) % 0x1_0000_0000 == 0,
        final(inputs).inputs@[other].commit_serial == old(inputs).inputs@[other].commit_serial,
        final(inputs).inputs@[other].current_surface == old(inputs).inputs@[other].current_surface,
        same_state(final(inputs).inputs@[other].current, old(inputs).inputs@[other].current),
        same_state(final(inputs).inputs@[other].pending, old(inputs).inputs@[other].pending),
{
    let before = inputs.views();
    let after = final(inputs).views();
    assert(after.len() == before.len());
    assert(before[index as int] == inputs.inputs@[index as int]@);
    assert(after[index as int] == final(inputs).inputs@[index as int]@);
    assert(before[other] == inputs.inputs@[other]@);
    assert(after[other] == final(inputs).inputs@[other]@);
}

/// When the focus moves, the objects of the client that gets it are on the newly
/// focused surface with nothing said; those of a client that only lost it are on
/// no surface, with nothing said; objects of other seats and clients are left
/// alone.
pub proof fn text_fields_follow_the_focus(
    inputs: &mut TextInputs,
    seat: u64,
    old_focus: Option<Focus>,
    new_focus: Option<Focus>,
    answer: (Vec<FocusEvent>, bool),
    index: int,
)
    requires
        call_ensures(TextInputs::focus_changed, (inputs, seat, old_focus, new_focus), answer),
        0 <= index < inputs.inputs@.len(),
    ensures
        final(inputs).inputs@.len() == old(inputs).inputs@.len(),
        ({
            let before = old(inputs).inputs@[index];
            let after = final(inputs).inputs@[index];
            let gains = before.seat == seat && new_focus is Some && new_focus->0.client
                == before.client;
            let loses = before.seat == seat && old_focus is Some && old_focus->0.client
                == before.client;
            &&& after.resource == before.resource && after.client == before.client
            &&& after.seat == before.seat && after.commit_serial == before.commit_serial
            &&& gains ==> after.current_surface == Some(new_focus->0.surface)
            &&& loses && !gains ==> after.current_surface is None
            &&& gains || loses ==> says_nothing(after.pending) && says_nothing(after.current)
            &&& !gains && !loses ==> after.current_surface == before.current_surface && same_state(
                after.pending,
                before.pending,
            ) && same_state(after.current, before.current)
            &&& loses && before.current.enabled ==> answer.1
        }),
{
    let before = inputs.views();
    let after = final(inputs).views();
    assert(after.len() == before.len());
    assert(before[index] == inputs.inputs@[index]@);
    assert(after[index] == final(inputs).inputs@[index]@);
    let gone = all_left(before, seat, old_focus);
    assert(gone[index] == before[index].after_leave(seat, old_focus));
    assert(after[index] == gone[index].after_enter(seat, new_focus));
    if before[index].concerned(seat, old_focus) && before[index].current.enabled {
        assert(leave_ends_use(before, seat, old_focus));
    }
}

/// The resources of the objects of a seat that belong to a client.
pub open spec fn resources_of(inputs: Seq<TextInput>, seat: u64, client: u64) -> Seq<u64> {
    inputs.filter(|input: TextInput| input.seat == seat && input.client == client).map_values(
        |input: TextInput| input.resource,
    )
}

proof fn lemma_leave_events(inputs: Seq<TextInput>, seat: u64, focus: Focus)
    ensures
        leave_events(input_views(inputs), seat, Some(focus)) == resources_of(
            inputs,
            seat,
            focus.client,
        ).map_values(
            |resource: u64| FocusEvent::Leave { resource, surface: focus.surface },
        ),
    decreases inputs.len(),
{
    reveal(Seq::filter);
    let events = leave_events(input_views(inputs), seat, Some(focus));
    if inputs.len() > 0 {
        let rest = inputs.drop_last();
        lemma_leave_events(rest, seat, focus);
        assert(input_views(inputs).drop_last() =~= input_views(rest));
        assert(input_views(inputs).last() == inputs.last()@);
    }
    assert(events =~= resources_of(inputs, seat, focus.client).map_values(
        |resource: u64| FocusEvent::Leave { resource, surface: focus.surface },
    ));
}

proof fn lemma_enter_events(inputs: Seq<TextInput>, seat: u64, focus: Focus)
    ensures
        enter_events(input_views(inputs), seat, Some(focus)) == resources_of(
            inputs,
            seat,
            focus.client,
        ).map_values(
            |resource: u64| FocusEvent::Enter { resource, surface: focus.surface },
        ),
    decreases inputs.len(),
{
    reveal(Seq::filter);
    let events = enter_events(input_views(inputs), seat, Some(focus));
    if inputs.len() > 0 {
        let rest = inputs.drop_last();
        lemma_enter_events(rest, seat, focus);
        assert(input_views(inputs).drop_last() =~= input_views(rest));
        assert(input_views(inputs).last() == inputs.last()@);
    }
    assert(events =~= resources_of(inputs, seat, focus.client).map_values(
        |resource: u64| FocusEvent::Enter { resource, surface: focus.surface },
    ));
}

/// When the focus moves from one surface to another, each object of the seat that
/// belongs to the first surface's client is told to leave that surface, and then
/// each that belongs to the second surface's client is told to enter that one.
pub proof fn clients_leave_before_others_enter(
    inputs: &mut TextInputs,
    seat: u64,
    old_focus: Focus,
    new_focus: Focus,
    answer: (Vec<FocusEvent>, bool),
)
    requires
        call_ensures(
            TextInputs::focus_changed,
            (inputs, seat, Some(old_focus), Some(new_focus)),
            answer,
        ),
    ensures
        answer.0@ == resources_of(old(inputs).inputs@, seat, old_focus.client).map_values(
            |resource: u64| FocusEvent::Leave { resource, surface: old_focus.surface },
        ) + resources_of(old(inputs).inputs@, seat, new_focus.client).map_values(
            |resource: u64| FocusEvent::Enter { resource, surface: new_focus.surface },
        ),
{
    lemma_leave_events(inputs.inputs@, seat, old_focus);
    lemma_enter_events(inputs.inputs@, seat, new_focus);
}

/// The text field in use for a focus is on the focused surface, of the seat, and
/// in use. There is an answer whenever there is such a text field.
pub proof fn text_field_in_use_is_focused(
    inputs: TextInputs,
    seat: u64,
    focus: Option<u64>,
    found: Option<usize>,
    other: int,
)
    requires
        call_ensures(TextInputs::in_use, (&inputs, seat, focus), found),
    ensures
        found matches Some(index) ==> {
            &&& index < inputs.inputs@.len()
            &&& focus is Some
            &&& inputs.inputs@[index as int].seat == seat
            &&& inputs.inputs@[index as int].current_surface == focus
            &&& inputs.inputs@[index as int].current.enabled
        },
        0 <= other < inputs.inputs@.len() && focus is Some && inputs.inputs@[other].seat == seat
            && inputs.inputs@[other].current_surface == focus
                && inputs.inputs@[other].current.enabled
            ==> found is Some && found->0 <= other,
{
    assert(inputs.views().len() == inputs.inputs@.len());
    if 0 <= other < inputs.inputs@.len() {
        assert(inputs.views()[other] == inputs.inputs@[other]@);
        assert(focus is Some && inputs.inputs@[other].seat == seat
            && inputs.inputs@[other].current_surface == focus
            && inputs.inputs@[other].current.enabled ==> serves(
            inputs.views()[other],
            seat,
            focus,
        ));
    }
    match found {
        Some(index) => {
            assert(inputs.views()[index as int] == inputs.inputs@[index as int]@);
            assert(0 <= other < index ==> !serves(inputs.views()[other], seat, focus));
        },
        None => {
            assert(0 <= other < inputs.views().len() ==> !serves(
                inputs.views()[other],
                seat,
                focus,
            ));
        },
    }
}

/// What is handed on of a text field is its state, with the text cursor moved from
/// the surface to the desktop: by the surface's place, and no larger or smaller.
pub proof fn handed_on_states_are_on_the_desktop(
    inputs: TextInputs,
    index: usize,
    focus: Option<u64>,
    origin: Option<Point>,
    state: TextInputState,
    anchor: Option<TextInputCursorAnchor>,
)
    requires
        index < inputs.inputs@.len(),
        inputs.inputs@[index as int].cursor_fits(origin),
        call_ensures(
            TextInputs::handed_on,
            (&inputs, index, focus, origin),
            Some((state, anchor)),
        ),
    ensures
        ({
            let input = inputs.inputs@[index as int];
            &&& input.current_surface == focus
            &&& state.enabled == input.current.enabled
            &&& same_text(state.surrounding_text, input.current.surrounding_text)
            &&& state.cursor == input.current.cursor && state.anchor == input.current.anchor
            &&& state.change_cause == input.current.change_cause
            &&& state.content_hint == input.current.content_hint
            &&& state.content_purpose == input.current.content_purpose
            &&& state.cursor_rect is Some <==> input.current.cursor_rect is Some
            &&& input.current.cursor_rect matches Some((x, y, width, height)) ==> {
                let moved = state.cursor_rect->0;
                &&& moved.2 == width && moved.3 == height
                &&& origin matches Some(o) ==> moved.0 - o.x == x && moved.1 - o.y == y
                &&& origin is None ==> moved.0 == x && moved.1 == y
            }
            &&& anchor is Some <==> focus is Some && input.current.enabled
            &&& anchor matches Some(at) ==> Some(at.surface) == focus && at.rect
                == input.current.cursor_rect
        }),
{
}

/// A new object is on the focused surface if and only if its client has the focus.
pub proof fn new_text_fields_enter_the_focus(
    inputs: &mut TextInputs,
    resource: u64,
    client: u64,
    seat: u64,
    focus: Option<Focus>,
    entered: Option<u64>,
)
    requires
        call_ensures(TextInputs::create, (inputs, resource, client, seat, focus), entered),
    ensures
        entered is Some <==> focus is Some && focus->0.client == client,
        entered matches Some(surface) ==> surface == focus->0.surface,
        final(inputs).inputs@.len() == old(inputs).inputs@.len() + 1,
        ({
            let made = final(inputs).inputs@.last();
            &&& made.resource == resource && made.client == client && made.seat == seat
            &&& made.current_surface == entered
            &&& says_nothing(made.pending) && says_nothing(made.current)
        }),
        forall|i: int|
            0 <= i < old(inputs).inputs@.len() ==> (#[trigger] final(inputs).inputs@[i])@
                == old(inputs).inputs@[i]@,
{
    let before = inputs.views();
    let after = final(inputs).views();
    assert(after.len() == final(inputs).inputs@.len());
    assert(after.last() == final(inputs).inputs@.last()@);
    assert forall|i: int| 0 <= i < before.len() implies (#[trigger] final(inputs).inputs@[i])@
        == inputs.inputs@[i]@ by {
        assert(after[i] == before[i]);
    }
}

/// Destroying an object takes it out of the list, and says that a text field went
/// out of use if and only if it was in use.
pub proof fn destroyed_text_fields_are_gone(
    inputs: &mut TextInputs,
    resource: u64,
    was_in_use: bool,
    index: int,
)
    requires
        inputs.wf(),
        call_ensures(TextInputs::destroy, (inputs, resource), was_in_use),
        0 <= index < inputs.inputs@.len(),
    ensures
        old(inputs).inputs@[index].resource == resource ==> was_in_use
            == old(inputs).inputs@[index].current.enabled,
        forall|i: int|
            0 <= i < final(inputs).inputs@.len() ==> (#[trigger] final(inputs).inputs@[i]).resource
                != resource,
{
    let before = inputs.views();
    let after = final(inputs).views();
    assert(before[index] == inputs.inputs@[index]@);
    if was_in_use && before[index].resource == resource {
        let i = choose|i: int|
            0 <= i < before.len() && (#[trigger] before[i]).resource == resource
                && before[i].current.enabled;
        if i < index {
            assert(before[i].resource != before[index].resource);
        }
        if index < i {
            assert(before[index].resource != before[i].resource);
        }
    }
    assert forall|i: int| 0 <= i < final(inputs).inputs@.len() implies (
    #[trigger] final(inputs).inputs@[i]).resource != resource by {
        assert(after[i] == final(inputs).inputs@[i]@);
        before.lemma_filter_contains_rev(
            |input: TextInputView| input.resource != resource,
            after[i],
        );
    }
}

/// Commits are counted, and the count begins anew behind the largest number.
pub proof fn commits_are_counted(first: &mut u32, second: &mut u32)
    requires
        call_ensures(count_text_input_commit, (first,), ()),
        *second == *final(first),
        call_ensures(count_text_input_commit, (second,), ()),
    ensures
        (*old(first) + 1) % 0x1_0000_0000 == *final(first),
        (*old(first) + 2) % 0x1_0000_0000 == *final(second),
{
}

/// The text cursor is told on the surface with the text field, while that is in use, and on
/// the desktop from where the surface is.
pub proof fn text_cursors_are_told_where_they_are(
    input: TextInput,
    anchor: Option<TextInputCursorAnchor>,
    origin: Point,
    state: TextInputState,
)
    requires
        input.cursor_fits(Some(origin)),
        call_ensures(TextInput::cursor_anchor, (&input,), anchor),
        call_ensures(TextInput::state_on_desktop, (&input, Some(origin)), state),
    ensures
        anchor is Some <==> input.current_surface is Some && input.current.enabled,
        anchor matches Some(told) ==> Some(told.surface) == input.current_surface && told.rect
            == input.current.cursor_rect,
        input.current.cursor_rect matches Some(area) ==> state.cursor_rect is Some && (
        state.cursor_rect->0).0 == area.0 + origin.x && (state.cursor_rect->0).1 == area.1
            + origin.y && (state.cursor_rect->0).2 == area.2 && (state.cursor_rect->0).3 == area.3,
        input.current.cursor_rect is None ==> state.cursor_rect is None,
        state.enabled == input.current.enabled,
{
    assert(state@.cursor_rect == state.cursor_rect);
    assert(state@.enabled == state.enabled);
    assert(input.current@.cursor_rect == input.current.cursor_rect);
    assert(input.current@.enabled == input.current.enabled);
}

} // verus!
