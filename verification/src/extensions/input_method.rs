//! Input methods: programs that write into text fields for the user.

use std::collections::HashSet;
use vstd::prelude::*;
use vstd::utf8::{
    decode_utf8, decode_utf8_encode_utf8, decode_utf8_split, encode_scalar, encode_utf8,
    encode_utf8_decode_utf8, encode_utf8_first_scalar, encode_utf8_valid_utf8, is_char_boundary,
    is_char_boundary_start_end_of_seq, length_of_first_scalar, pop_first_scalar, valid_utf8_split,
};
use crate::extensions::input_popup::InputPopup;
use crate::extensions::text_input::TextInputCursorAnchor;
use crate::input::{
    no_text, same_state, says_nothing, TextEditView, TextInputEvent, TextInputState, TextStateView,
};
use crate::text::text_has_nul;

verus! {

/// The most text around the text cursor that is handed to an input method, in
/// bytes.
pub const MAX_SURROUNDING_TEXT_BYTES: usize = 4_000;

/// The longest beginning of a text that fits into the given number of bytes.
pub open spec fn truncated(text: Seq<char>, max_bytes: int) -> Seq<char>
    decreases text.len(),
{
    if text.len() == 0 || encode_utf8(text).len() <= max_bytes {
        text
    } else {
        truncated(text.drop_last(), max_bytes)
    }
}

proof fn lemma_encode_concat(a: Seq<char>, b: Seq<char>)
    ensures
        encode_utf8(a + b) == encode_utf8(a) + encode_utf8(b),
    decreases a.len(),
{
    if a.len() == 0 {
        assert(a + b =~= b);
        assert(encode_utf8(a) + encode_utf8(b) =~= encode_utf8(b));
    } else {
        assert((a + b).drop_first() =~= a.drop_first() + b);
        lemma_encode_concat(a.drop_first(), b);
        assert(encode_utf8(a + b) =~= encode_utf8(a) + encode_utf8(b));
    }
}

proof fn lemma_encode_at_least_one_byte(text: Seq<char>)
    ensures
        encode_utf8(text).len() >= text.len(),
    decreases text.len(),
{
    if text.len() > 0 {
        lemma_encode_at_least_one_byte(text.drop_first());
        assert(encode_scalar(text[0] as u32).len() >= 1);
    }
}

proof fn lemma_prefix_ends_on_boundary(a: Seq<char>, b: Seq<char>)
    ensures
        is_char_boundary(encode_utf8(a + b), encode_utf8(a).len() as int),
    decreases a.len(),
{
    let bytes = encode_utf8(a + b);
    encode_utf8_valid_utf8(a + b);
    if a.len() == 0 {
        assert(encode_utf8(a).len() == 0);
        is_char_boundary_start_end_of_seq(bytes);
    } else {
        encode_utf8_first_scalar(a + b);
        assert((a + b).drop_first() =~= a.drop_first() + b);
        assert(pop_first_scalar(bytes) =~= encode_utf8(a.drop_first() + b));
        lemma_prefix_ends_on_boundary(a.drop_first(), b);
        lemma_encode_concat(a, b);
        assert(encode_utf8(a).len() - length_of_first_scalar(bytes) == encode_utf8(
            a.drop_first(),
        ).len());
    }
}

proof fn lemma_truncated_is(text: Seq<char>, max_bytes: int, count: int)
    requires
        0 <= count <= text.len(),
        count == 0 || encode_utf8(text.take(count)).len() <= max_bytes,
        forall|j: int|
            count < j <= text.len() ==> encode_utf8(#[trigger] text.take(j)).len() > max_bytes,
    ensures
        truncated(text, max_bytes) == text.take(count),
    decreases text.len(),
{
    if count == text.len() {
        assert(text.take(count) =~= text);
    } else {
        assert(text.take(text.len() as int) =~= text);
        let rest = text.drop_last();
        assert forall|j: int| count < j <= rest.len() implies encode_utf8(
            #[trigger] rest.take(j),
        ).len() > max_bytes by {
            assert(rest.take(j) =~= text.take(j));
        }
        assert(rest.take(count) =~= text.take(count));
        lemma_truncated_is(rest, max_bytes, count);
    }
}

/// Cut a text off at the given number of bytes, never within a character.
pub fn truncate_utf8_bytes(text: &str, max_bytes: usize) -> (cut: &str)
    ensures
        cut@ == truncated(text@, max_bytes as int),
{
    let count: usize = text.as_bytes().len();
    let ghost bytes = encode_utf8(text@);
    if count <= max_bytes {
        return text;
    }
    proof {
        encode_utf8_valid_utf8(text@);
        is_char_boundary_start_end_of_seq(bytes);
    }
    let mut end: usize = max_bytes;
    while !text.is_char_boundary(end)
        invariant
            end <= max_bytes < bytes.len(),
            bytes == encode_utf8(text@),
            is_char_boundary(bytes, 0),
            forall|i: int| end < i <= max_bytes ==> !is_char_boundary(bytes, i),
        decreases end,
    {
        end -= 1;
    }
    let (cut, _) = text.split_at(end);
    proof {
        let prefix = bytes.subrange(0, end as int);
        valid_utf8_split(bytes, end as int);
        decode_utf8_split(bytes, end as int);
        encode_utf8_decode_utf8(text@);
        encode_utf8_decode_utf8(cut@);
        decode_utf8_encode_utf8(prefix);
        assert(cut@ == decode_utf8(prefix));
        let rest = decode_utf8(bytes.subrange(end as int, bytes.len() as int));
        assert(text@ =~= cut@ + rest);
        let k = cut@.len() as int;
        assert(text@.take(k) =~= cut@);
        assert forall|j: int| k < j <= text@.len() implies encode_utf8(
            #[trigger] text@.take(j),
        ).len() > max_bytes by {
            let more = text@.subrange(k, j);
            assert(text@.take(j) =~= cut@ + more);
            lemma_encode_concat(cut@, more);
            lemma_encode_at_least_one_byte(more);
            assert(text@ =~= text@.take(j) + text@.skip(j));
            lemma_prefix_ends_on_boundary(text@.take(j), text@.skip(j));
        }
        lemma_truncated_is(text@, max_bytes as int, k);
    }
    cut
}

/// A text that was cut off is a beginning of the text, fits, and could not be
/// longer.
pub proof fn truncation_is_the_longest_that_fits(text: Seq<char>, max_bytes: nat)
    ensures
        truncated(text, max_bytes as int).len() <= text.len(),
        truncated(text, max_bytes as int) == text.take(
            truncated(text, max_bytes as int).len() as int,
        ),
        encode_utf8(truncated(text, max_bytes as int)).len() <= max_bytes,
        forall|j: int|
            truncated(text, max_bytes as int).len() < j <= text.len() ==> encode_utf8(
                #[trigger] text.take(j),
            ).len() > max_bytes,
    decreases text.len(),
{
    if text.len() == 0 || encode_utf8(text).len() <= max_bytes {
        assert(text.take(text.len() as int) =~= text);
    } else {
        let rest = text.drop_last();
        truncation_is_the_longest_that_fits(rest, max_bytes);
        let k = truncated(rest, max_bytes as int).len() as int;
        assert(rest.take(k) =~= text.take(k));
        assert forall|j: int| k < j <= text.len() implies encode_utf8(
            #[trigger] text.take(j),
        ).len() > max_bytes by {
            if j == text.len() {
                assert(text.take(j) =~= text);
            } else {
                assert(rest.take(j) =~= text.take(j));
            }
        }
    }
}

/// Whether an object belongs to a client. Objects that are gone belong to none.
pub fn resource_belongs_to_client(resource_client: Option<u64>, client: u64) -> (own: bool)
    ensures
        own == (resource_client == Some(client)),
{
    match resource_client {
        Some(owner) => owner == client,
        None => false,
    }
}

/// Whether an input method gets the keys: as long as it holds the keyboard,
/// whether or not a text field is in use.
pub fn keyboard_grab_owns_key_stream(_text_input_active: bool, keyboard_grab: Option<u64>) -> (owns:
    bool)
    ensures
        owns == (keyboard_grab is Some),
{
    keyboard_grab.is_some()
}

/// What an input method wants to write, as far as it has said.
#[derive(Debug)]
pub struct PendingEdit {
    pub commit: Option<String>,
    pub preedit: Option<(String, i32, i32)>,
    pub delete: Option<(u32, u32)>,
}

/// What an input method wants to write, with texts as characters.
pub struct PendingView {
    pub commit: Option<Seq<char>>,
    pub preedit: Option<(Seq<char>, i32, i32)>,
    pub delete: Option<(u32, u32)>,
}

impl View for PendingEdit {
    type V = PendingView;

    open spec fn view(&self) -> PendingView {
        PendingView {
            commit: crate::input::text_of(self.commit),
            preedit: match self.preedit {
                Some((text, begin, end)) => Some((text@, begin, end)),
                None => None,
            },
            delete: self.delete,
        }
    }
}

/// Nothing to write.
pub open spec fn no_edit() -> PendingView {
    PendingView { commit: None, preedit: None, delete: None }
}

impl PendingEdit {
    /// Nothing to write.
    pub fn none() -> (edit: PendingEdit)
        ensures
            edit@ == no_edit(),
    {
        PendingEdit { commit: None, preedit: None, delete: None }
    }
}

/// An input method.
#[derive(Debug)]
pub struct InputMethod {
    pub resource: u64,
    pub client: u64,
    pub seat: u64,
    /// Whether the seat had an input method already; then this one never does
    /// anything.
    pub unavailable: bool,
    /// Whether a text field is in use.
    pub active: bool,
    /// How often the input method has been told a complete state.
    pub done_count: u32,
    pub text_state: TextInputState,
    pub cursor_anchor: Option<TextInputCursorAnchor>,
    pub pending: PendingEdit,
    pub popups: Vec<InputPopup>,
    pub keyboard_grab: Option<u64>,
}

/// An input method, with texts as characters.
pub struct InputMethodView {
    pub resource: u64,
    pub client: u64,
    pub seat: u64,
    pub unavailable: bool,
    pub active: bool,
    pub done_count: u32,
    pub text_state: TextStateView,
    pub cursor_anchor: Option<TextInputCursorAnchor>,
    pub pending: PendingView,
    pub popups: Seq<InputPopup>,
    pub keyboard_grab: Option<u64>,
}

impl View for InputMethod {
    type V = InputMethodView;

    open spec fn view(&self) -> InputMethodView {
        InputMethodView {
            resource: self.resource,
            client: self.client,
            seat: self.seat,
            unavailable: self.unavailable,
            active: self.active,
            done_count: self.done_count,
            text_state: self.text_state@,
            cursor_anchor: self.cursor_anchor,
            pending: self.pending@,
            popups: self.popups@,
            keyboard_grab: self.keyboard_grab,
        }
    }
}

/// What an input method is told.
#[derive(Debug)]
pub enum InputMethodMessage {
    Activate,
    Deactivate,
    SurroundingText { text: String, cursor: u32, anchor: u32 },
    TextChangeCause(u32),
    ContentType { hint: u32, purpose: u32 },
    Done,
}

/// What an input method is told, with texts as characters.
pub enum MethodMessageView {
    Activate,
    Deactivate,
    SurroundingText { text: Seq<char>, cursor: u32, anchor: u32 },
    TextChangeCause(u32),
    ContentType { hint: u32, purpose: u32 },
    Done,
}

impl View for InputMethodMessage {
    type V = MethodMessageView;

    open spec fn view(&self) -> MethodMessageView {
        match *self {
            InputMethodMessage::Activate => MethodMessageView::Activate,
            InputMethodMessage::Deactivate => MethodMessageView::Deactivate,
            InputMethodMessage::SurroundingText {
                text,
                cursor,
                anchor,
            } => MethodMessageView::SurroundingText { text: text@, cursor, anchor },
            InputMethodMessage::TextChangeCause(cause) => MethodMessageView::TextChangeCause(cause),
            InputMethodMessage::ContentType { hint, purpose } => MethodMessageView::ContentType {
                hint,
                purpose,
            },
            InputMethodMessage::Done => MethodMessageView::Done,
        }
    }
}

/// The messages of a list, with texts as characters.
pub open spec fn message_views(list: Seq<InputMethodMessage>) -> Seq<MethodMessageView> {
    list.map_values(|m: InputMethodMessage| m@)
}

/// A position in a text, held within the text.
pub open spec fn position_within(position: i32, length: int) -> u32 {
    if position < 0 {
        0
    } else if position > length {
        length as u32
    } else {
        position as u32
    }
}

/// What an input method is told of the text around the text cursor: as much as
/// it may see, unless it holds a zero character.
pub open spec fn surrounding_messages(state: TextStateView) -> Seq<MethodMessageView> {
    match state.surrounding_text {
        None => Seq::empty(),
        Some(text) => {
            let cut = truncated(text, MAX_SURROUNDING_TEXT_BYTES as int);
            if cut.contains('\0') {
                Seq::empty()
            } else {
                let length = encode_utf8(cut).len() as int;
                seq![
                    MethodMessageView::SurroundingText {
                        text: cut,
                        cursor: position_within(state.cursor, length),
                        anchor: position_within(state.anchor, length),
                    },
                ]
            }
        },
    }
}

/// One more, wrapping around.
pub open spec fn next_count(count: u32) -> u32 {
    if count == u32::MAX {
        0
    } else {
        (count + 1) as u32
    }
}

impl InputMethodView {
    /// What the input method is told of a text field's state.
    pub open spec fn told(self, state: TextStateView) -> Seq<MethodMessageView> {
        if self.unavailable {
            Seq::empty()
        } else if !state.enabled {
            if self.active {
                seq![MethodMessageView::Deactivate, MethodMessageView::Done]
            } else {
                Seq::empty()
            }
        } else {
            (if self.active {
                Seq::empty()
            } else {
                seq![MethodMessageView::Activate]
            }) + surrounding_messages(state) + seq![
                MethodMessageView::TextChangeCause(state.change_cause),
                MethodMessageView::ContentType {
                    hint: state.content_hint,
                    purpose: state.content_purpose,
                },
                MethodMessageView::Done,
            ]
        }
    }

    /// The input method once it has been told a text field's state.
    pub open spec fn published(
        self,
        state: TextStateView,
        anchor: Option<TextInputCursorAnchor>,
    ) -> InputMethodView {
        if self.unavailable {
            self
        } else if !state.enabled {
            InputMethodView {
                active: false,
                done_count: if self.active {
                    next_count(self.done_count)
                } else {
                    self.done_count
                },
                text_state: no_text(),
                cursor_anchor: None,
                pending: no_edit(),
                ..self
            }
        } else {
            InputMethodView {
                active: true,
                done_count: next_count(self.done_count),
                text_state: state,
                cursor_anchor: anchor,
                pending: if self.active {
                    self.pending
                } else {
                    no_edit()
                },
                ..self
            }
        }
    }

    /// The edits that a commit makes, in order.
    pub open spec fn edits(self) -> Seq<TextEditView> {
        (match self.pending.preedit {
            Some((text, cursor_begin, cursor_end)) => seq![
                TextEditView::Preedit { text: Some(text), cursor_begin, cursor_end },
            ],
            None => Seq::empty(),
        }) + (match self.pending.delete {
            Some((before_length, after_length)) => seq![
                TextEditView::DeleteSurrounding { before_length, after_length },
            ],
            None => Seq::empty(),
        }) + (match self.pending.commit {
            Some(text) => seq![TextEditView::Commit(Some(text))],
            None => Seq::empty(),
        }) + seq![TextEditView::Done]
    }
}

/// The edits of a list, with texts as characters.
pub open spec fn edit_views(list: Seq<TextInputEvent>) -> Seq<TextEditView> {
    list.map_values(|e: TextInputEvent| e@)
}

fn clamp_position(position: i32, length: usize) -> (held: u32)
    requires
        length <= MAX_SURROUNDING_TEXT_BYTES,
    ensures
        held == position_within(position, length as int),
{
    if position < 0 {
        0
    } else if position as usize > length {
        length as u32
    } else {
        position as u32
    }
}

/// What asking for a popup leads to.
#[derive(Debug, Clone, Copy, PartialEq, Eq, Structural)]
pub enum PopupAnswer {
    /// The input method does nothing; nothing happens.
    Ignored,
    /// The surface is used for something else.
    RoleTaken,
    Created,
}

impl InputMethod {
    /// A new input method.
    pub fn new(resource: u64, client: u64, seat: u64, unavailable: bool) -> (method: InputMethod)
        ensures
            method@ == (InputMethodView {
                resource,
                client,
                seat,
                unavailable,
                active: false,
                done_count: 0,
                text_state: no_text(),
                cursor_anchor: None,
                pending: no_edit(),
                popups: Seq::empty(),
                keyboard_grab: None,
            }),
    {
        InputMethod {
            resource,
            client,
            seat,
            unavailable,
            active: false,
            done_count: 0,
            text_state: TextInputState::none(),
            cursor_anchor: None,
            pending: PendingEdit::none(),
            popups: Vec::new(),
            keyboard_grab: None,
        }
    }

    /// Tell the input method the state of the text field in use.
    pub fn publish(
        &mut self,
        text_state: TextInputState,
        cursor_anchor: Option<TextInputCursorAnchor>,
    ) -> (messages: Vec<InputMethodMessage>)
        ensures
            message_views(messages@) == old(self)@.told(text_state@),
            final(self)@ == old(self)@.published(text_state@, cursor_anchor),
    {
        let mut messages: Vec<InputMethodMessage> = Vec::new();
        if self.unavailable {
            assert(message_views(messages@) =~= Seq::empty());
            return messages;
        }
        if !text_state.enabled {
            if self.active {
                messages.push(InputMethodMessage::Deactivate);
                messages.push(InputMethodMessage::Done);
                self.done_count = self.done_count.wrapping_add(1);
            }
            self.active = false;
            self.text_state = TextInputState::none();
            self.cursor_anchor = None;
            self.pending = PendingEdit::none();
            assert(message_views(messages@) =~= old(self)@.told(text_state@));
            return messages;
        }
        if !self.active {
            self.pending = PendingEdit::none();
            messages.push(InputMethodMessage::Activate);
        }
        if let Some(text) = &text_state.surrounding_text {
            let cut = truncate_utf8_bytes(text.as_str(), MAX_SURROUNDING_TEXT_BYTES);
            if !text_has_nul(cut) {
                proof {
                    truncation_is_the_longest_that_fits(
                        text@,
                        MAX_SURROUNDING_TEXT_BYTES as nat,
                    );
                }
                let length: usize = cut.as_bytes().len();
                messages.push(
                    InputMethodMessage::SurroundingText {
                        text: cut.to_owned(),
                        cursor: clamp_position(text_state.cursor, length),
                        anchor: clamp_position(text_state.anchor, length),
                    },
                );
            }
        }
        messages.push(InputMethodMessage::TextChangeCause(text_state.change_cause));
        messages.push(
            InputMethodMessage::ContentType {
                hint: text_state.content_hint,
                purpose: text_state.content_purpose,
            },
        );
        messages.push(InputMethodMessage::Done);
        assert(message_views(messages@) =~= old(self)@.told(text_state@));
        self.active = true;
        self.text_state = text_state;
        self.cursor_anchor = cursor_anchor;
        self.done_count = self.done_count.wrapping_add(1);
        messages
    }

    /// The input method wants to write a text.
    pub fn commit_string(&mut self, text: &str)
        ensures
            final(self)@ == if old(self).unavailable {
                old(self)@
            } else {
                InputMethodView {
                    pending: PendingView { commit: Some(text@), ..old(self)@.pending },
                    ..old(self)@
                }
            },
    {
        if self.unavailable {
            return;
        }
        self.pending.commit = Some(text.to_owned());
    }

    /// The input method wants to show a text that is not written yet.
    pub fn set_preedit(&mut self, text: &str, cursor_begin: i32, cursor_end: i32)
        ensures
            final(self)@ == if old(self).unavailable {
                old(self)@
            } else {
                InputMethodView {
                    pending: PendingView {
                        preedit: Some((text@, cursor_begin, cursor_end)),
                        ..old(self)@.pending
                    },
                    ..old(self)@
                }
            },
    {
        if self.unavailable {
            return;
        }
        self.pending.preedit = Some((text.to_owned(), cursor_begin, cursor_end));
    }

    /// The input method wants to delete text around the text cursor.
    pub fn delete_surrounding(&mut self, before_length: u32, after_length: u32)
        ensures
            final(self)@ == if old(self).unavailable {
                old(self)@
            } else {
                InputMethodView {
                    pending: PendingView {
                        delete: Some((before_length, after_length)),
                        ..old(self)@.pending
                    },
                    ..old(self)@
                }
            },
    {
        if self.unavailable {
            return;
        }
        self.pending.delete = Some((before_length, after_length));
    }

    /// The input method makes what it wants to write happen. It does, whichever
    /// state the input method knew of, as long as a text field is in use.
    pub fn commit(&mut self, seat_present: bool) -> (edits: Vec<TextInputEvent>)
        ensures
            final(self)@ == if old(self).unavailable {
                old(self)@
            } else {
                InputMethodView { pending: no_edit(), ..old(self)@ }
            },
            edit_views(edits@) == if old(self).unavailable || !old(self).active || !seat_present {
                Seq::empty()
            } else {
                old(self)@.edits()
            },
    {
        let mut edits: Vec<TextInputEvent> = Vec::new();
        if self.unavailable {
            assert(edit_views(edits@) =~= Seq::empty());
            return edits;
        }
        let mut pending = PendingEdit::none();
        std::mem::swap(&mut pending, &mut self.pending);
        if !self.active || !seat_present {
            assert(edit_views(edits@) =~= Seq::empty());
            return edits;
        }
        if let Some((text, cursor_begin, cursor_end)) = pending.preedit {
            edits.push(TextInputEvent::Preedit { text: Some(text), cursor_begin, cursor_end });
        }
        if let Some((before_length, after_length)) = pending.delete {
            edits.push(TextInputEvent::DeleteSurrounding { before_length, after_length });
        }
        if let Some(text) = pending.commit {
            edits.push(TextInputEvent::Commit(Some(text)));
        }
        edits.push(TextInputEvent::Done);
        assert(edit_views(edits@) =~= old(self)@.edits());
        edits
    }

    /// The input method wants a popup on a surface.
    pub fn add_popup(&mut self, resource: u64, surface: u64, surface_has_role: bool) -> (answer:
        PopupAnswer)
        ensures
            answer == if old(self).unavailable {
                PopupAnswer::Ignored
            } else if surface_has_role {
                PopupAnswer::RoleTaken
            } else {
                PopupAnswer::Created
            },
            final(self)@ == if answer == PopupAnswer::Created {
                InputMethodView {
                    popups: old(self).popups@.push(
                        InputPopup {
                            resource,
                            surface: Some(surface),
                            last_text_input_rectangle: None,
                        },
                    ),
                    ..old(self)@
                }
            } else {
                old(self)@
            },
    {
        if self.unavailable {
            return PopupAnswer::Ignored;
        }
        if surface_has_role {
            return PopupAnswer::RoleTaken;
        }
        self.popups.push(
            InputPopup { resource, surface: Some(surface), last_text_input_rectangle: None },
        );
        PopupAnswer::Created
    }

    /// A popup was destroyed.
    pub fn remove_popup(&mut self, resource: u64)
        ensures
            final(self)@ == (InputMethodView {
                popups: old(self).popups@.filter(|p: InputPopup| p.resource != resource),
                ..old(self)@
            }),
    {
        let mut kept: Vec<InputPopup> = Vec::new();
        let mut index: usize = 0;
        let ghost keep = |p: InputPopup| p.resource != resource;
        proof {
            reveal(Seq::filter);
            assert(self.popups@.take(0).filter(keep) =~= Seq::<InputPopup>::empty());
        }
        while index < self.popups.len()
            invariant
                index <= self.popups.len(),
                *self == *old(self),
                keep == (|p: InputPopup| p.resource != resource),
                kept@ == self.popups@.take(index as int).filter(keep),
            decreases self.popups.len() - index,
        {
            proof {
                reveal(Seq::filter);
                assert(self.popups@.take(index as int + 1).drop_last() =~= self.popups@.take(
                    index as int,
                ));
            }
            if self.popups[index].resource != resource {
                kept.push(self.popups[index]);
            }
            index += 1;
        }
        assert(self.popups@.take(self.popups.len() as int) =~= self.popups@);
        self.popups = kept;
    }

    /// The input method takes hold of the keyboard. A hold that it had before is
    /// handed back, to be destroyed. An input method that does nothing cannot
    /// take hold of it.
    pub fn grab_keyboard(&mut self, resource: u64) -> (answer: Option<Option<u64>>)
        ensures
            answer == if old(self).unavailable {
                None
            } else {
                Some(old(self).keyboard_grab)
            },
            final(self)@ == if old(self).unavailable {
                old(self)@
            } else {
                InputMethodView { keyboard_grab: Some(resource), ..old(self)@ }
            },
    {
        if self.unavailable {
            return None;
        }
        let previous = self.keyboard_grab;
        self.keyboard_grab = Some(resource);
        Some(previous)
    }

    /// A hold of the keyboard was destroyed.
    pub fn keyboard_grab_destroyed(&mut self, resource: u64)
        ensures
            final(self)@ == if old(self).keyboard_grab == Some(resource) {
                InputMethodView { keyboard_grab: None, ..old(self)@ }
            } else {
                old(self)@
            },
    {
        if let Some(grab) = self.keyboard_grab {
            if grab == resource {
                self.keyboard_grab = None;
            }
        }
    }

    /// The surfaces of the popups that are shown: all that exist, while a text
    /// field is in use.
    pub fn popup_surfaces(&self) -> (surfaces: Vec<u64>)
        ensures
            surfaces@ == if self.active {
                shown_popups(self.popups@)
            } else {
                Seq::empty()
            },
    {
        let mut surfaces: Vec<u64> = Vec::new();
        if !self.active {
            return surfaces;
        }
        let mut index: usize = 0;
        assert(self.popups@.take(0) =~= Seq::<InputPopup>::empty());
        while index < self.popups.len()
            invariant
                index <= self.popups.len(),
                surfaces@ == shown_popups(self.popups@.take(index as int)),
            decreases self.popups.len() - index,
        {
            assert(self.popups@.take(index as int + 1).drop_last() =~= self.popups@.take(
                index as int,
            ));
            if let Some(surface) = self.popups[index].surface {
                surfaces.push(surface);
            }
            index += 1;
        }
        assert(self.popups@.take(self.popups.len() as int) =~= self.popups@);
        surfaces
    }
}

/// The surfaces of popups, in order.
pub open spec fn shown_popups(popups: Seq<InputPopup>) -> Seq<u64>
    decreases popups.len(),
{
    if popups.len() == 0 {
        Seq::empty()
    } else {
        let earlier = shown_popups(popups.drop_last());
        match popups.last().surface {
            Some(surface) => earlier.push(surface),
            None => earlier,
        }
    }
}

/// The place of the input method of a seat: the first that does anything.
pub open spec fn is_active_method(methods: Seq<InputMethod>, index: int) -> bool {
    &&& 0 <= index < methods.len()
    &&& !methods[index].unavailable
    &&& forall|i: int| 0 <= i < index ==> (#[trigger] methods[i]).unavailable
}

/// Find the input method of a seat.
pub fn active_input_method(methods: &[InputMethod]) -> (found: Option<usize>)
    ensures
        match found {
            Some(index) => is_active_method(methods@, index as int),
            None => forall|i: int| 0 <= i < methods.len() ==> (#[trigger] methods@[i]).unavailable,
        },
{
    let mut index: usize = 0;
    while index < methods.len()
        invariant
            index <= methods.len(),
            forall|i: int| 0 <= i < index ==> (#[trigger] methods@[i]).unavailable,
        decreases methods.len() - index,
    {
        if !methods[index].unavailable {
            return Some(index);
        }
        index += 1;
    }
    None
}

/// At most one input method of a seat does anything.
pub open spec fn one_method(methods: Seq<InputMethod>) -> bool {
    forall|i: int, j: int|
        #![trigger methods[i], methods[j]]
        0 <= i < j < methods.len() ==> methods[i].unavailable || methods[j].unavailable
}

/// A client becomes an input method of a seat. It does something only if no
/// other one does. The answer says whether it does.
pub fn add_input_method(methods: &mut Vec<InputMethod>, resource: u64, client: u64, seat: u64) -> (
    available: bool)
    ensures
        available == forall|i: int|
            0 <= i < old(methods)@.len() ==> (#[trigger] old(methods)@[i]).unavailable,
        final(methods)@.len() == old(methods)@.len() + 1,
        final(methods)@.take(old(methods)@.len() as int) == old(methods)@,
        final(methods)@.last()@ == (InputMethodView {
            resource,
            client,
            seat,
            unavailable: !available,
            active: false,
            done_count: 0,
            text_state: no_text(),
            cursor_anchor: None,
            pending: no_edit(),
            popups: Seq::empty(),
            keyboard_grab: None,
        }),
        one_method(old(methods)@) ==> one_method(final(methods)@),
{
    let available = active_input_method(methods.as_slice()).is_none();
    methods.push(InputMethod::new(resource, client, seat, !available));
    assert(methods@.take(old(methods)@.len() as int) =~= old(methods)@);
    available
}

/// The object through which a seat's input method gets the keys, if it does.
pub fn key_receiver(methods: &[InputMethod]) -> (grab: Option<u64>)
    ensures
        forall|i: int|
            is_active_method(methods@, i) ==> grab == (#[trigger] methods@[i]).keyboard_grab,
        (forall|i: int| 0 <= i < methods.len() ==> (#[trigger] methods@[i]).unavailable) ==> grab
            is None,
{
    match active_input_method(methods) {
        None => None,
        Some(index) => {
            let method = &methods[index];
            proof {
                assert forall|i: int| is_active_method(methods@, i) implies i == index by {
                    if i < index {
                        assert(methods@[i].unavailable);
                    } else if i > index {
                        assert(methods@[index as int].unavailable);
                    }
                }
            }
            if keyboard_grab_owns_key_stream(method.active, method.keyboard_grab) {
                method.keyboard_grab
            } else {
                None
            }
        },
    }
}

/// A keyboard that an input method plays.
#[derive(Debug, Clone, Copy, PartialEq, Eq, Structural)]
pub struct VirtualKeyboard {
    pub resource: u64,
    pub client: u64,
    pub seat: u64,
    pub keymap_set: bool,
}

/// A virtual keyboard was played before it had a keymap.
#[derive(Debug, Clone, Copy, PartialEq, Eq, Structural)]
pub struct NoKeymap;

/// The largest keymap that is taken, in bytes.
pub const MAX_KEYMAP_BYTES: u32 = 1_048_576;

/// The keymap format that is taken.
pub const KEYMAP_FORMAT_XKB_V1: u32 = 1;

/// The highest key number that is taken.
pub const MAX_KEY: u32 = 0x2ff;

/// A keyboard object of a client.
#[derive(Debug, Clone, Copy, PartialEq, Eq, Structural)]
pub struct KeyboardResource {
    pub resource: u64,
    pub client: u64,
}

/// The keyboard objects of a client, in order.
pub open spec fn keyboards_of(keyboards: Seq<KeyboardResource>, client: u64) -> Seq<u64>
    decreases keyboards.len(),
{
    if keyboards.len() == 0 {
        Seq::empty()
    } else {
        let earlier = keyboards_of(keyboards.drop_last(), client);
        if keyboards.last().client == client {
            earlier.push(keyboards.last().resource)
        } else {
            earlier
        }
    }
}

/// Find the keyboard objects of a client.
pub fn client_keyboards(keyboards: &[KeyboardResource], client: u64) -> (own: Vec<u64>)
    ensures
        own@ == keyboards_of(keyboards@, client),
{
    let mut own: Vec<u64> = Vec::new();
    let mut index: usize = 0;
    assert(keyboards@.take(0) =~= Seq::<KeyboardResource>::empty());
    while index < keyboards.len()
        invariant
            index <= keyboards.len(),
            own@ == keyboards_of(keyboards@.take(index as int), client),
        decreases keyboards.len() - index,
    {
        assert(keyboards@.take(index as int + 1).drop_last() =~= keyboards@.take(index as int));
        if resource_belongs_to_client(Some(keyboards[index].client), client) {
            own.push(keyboards[index].resource);
        }
        index += 1;
    }
    assert(keyboards@.take(keyboards.len() as int) =~= keyboards@);
    own
}

/// Change whether a key is down. The answer says whether that is a change:
/// pressing a key that is down, or releasing one that is not, is none.
pub fn apply_logical_key_state(pressed_keys: &mut HashSet<u32>, key: u32, pressed: bool) -> (changed:
    bool)
    ensures
        changed == (old(pressed_keys)@.contains(key) != pressed),
        final(pressed_keys)@ == if pressed {
            old(pressed_keys)@.insert(key)
        } else {
            old(pressed_keys)@.remove(key)
        },
{
    broadcast use vstd::std_specs::hash::group_hash_axioms;

    if pressed {
        pressed_keys.insert(key)
    } else {
        pressed_keys.remove(&key)
    }
}

impl VirtualKeyboard {
    /// Whether the keyboard may be played: its client must be the seat's input
    /// method.
    pub fn authorized(&self, method_client: Option<u64>) -> (allowed: bool)
        ensures
            allowed == (method_client == Some(self.client)),
    {
        resource_belongs_to_client(method_client, self.client)
    }

    /// The client sends a keymap. Only whether it is a usable one matters.
    pub fn keymap(&mut self, method_client: Option<u64>, format: u32, size: u32)
        ensures
            *final(self) == if method_client == Some(old(self).client) {
                VirtualKeyboard {
                    keymap_set: format == KEYMAP_FORMAT_XKB_V1 && 0 < size <= MAX_KEYMAP_BYTES,
                    ..*old(self)
                }
            } else {
                *old(self)
            },
    {
        if self.authorized(method_client) {
            self.keymap_set = format == KEYMAP_FORMAT_XKB_V1 && size > 0 && size
                <= MAX_KEYMAP_BYTES;
        }
    }

    /// Whether a key of the virtual keyboard changes anything.
    pub open spec fn key_counts(
        self,
        method_client: Option<u64>,
        seat_present: bool,
        key: u32,
        key_state: u32,
    ) -> bool {
        method_client == Some(self.client) && self.keymap_set && key_state <= 1 && key <= MAX_KEY
            && seat_present
    }

    /// The client plays a key. The answer holds the keyboard objects that get
    /// it: those of the focused client, if the key changed.
    pub fn key(
        &self,
        method_client: Option<u64>,
        seat_present: bool,
        pressed_keys: &mut HashSet<u32>,
        key: u32,
        key_state: u32,
        focus_client: Option<u64>,
        keyboards: &[KeyboardResource],
    ) -> (result: Result<Vec<u64>, NoKeymap>)
        ensures
            result is Err <==> method_client == Some(self.client) && !self.keymap_set,
            final(pressed_keys)@ == if self.key_counts(
                method_client,
                seat_present,
                key,
                key_state,
            ) {
                if key_state == 1 {
                    old(pressed_keys)@.insert(key)
                } else {
                    old(pressed_keys)@.remove(key)
                }
            } else {
                old(pressed_keys)@
            },
            result matches Ok(targets) ==> targets@ == if self.key_counts(
                method_client,
                seat_present,
                key,
                key_state,
            ) && old(pressed_keys)@.contains(key) != (key_state == 1) && focus_client is Some {
                keyboards_of(keyboards@, focus_client->0)
            } else {
                Seq::empty()
            },
    {
        if !self.authorized(method_client) {
            return Ok(Vec::new());
        }
        if !self.keymap_set {
            return Err(NoKeymap);
        }
        if key_state > 1 || key > MAX_KEY {
            return Ok(Vec::new());
        }
        if !seat_present {
            return Ok(Vec::new());
        }
        if !apply_logical_key_state(pressed_keys, key, key_state == 1) {
            return Ok(Vec::new());
        }
        match focus_client {
            None => Ok(Vec::new()),
            Some(client) => Ok(client_keyboards(keyboards, client)),
        }
    }

    /// The client plays modifiers. The answer holds the keyboard objects that
    /// get them: those of the focused client.
    pub fn modifiers(
        &self,
        method_client: Option<u64>,
        seat_present: bool,
        focus_client: Option<u64>,
        keyboards: &[KeyboardResource],
    ) -> (result: Result<Vec<u64>, NoKeymap>)
        ensures
            result is Err <==> method_client == Some(self.client) && !self.keymap_set,
            result matches Ok(targets) ==> targets@ == if method_client == Some(self.client)
                && self.keymap_set && seat_present && focus_client is Some {
                keyboards_of(keyboards@, focus_client->0)
            } else {
                Seq::empty()
            },
    {
        if !self.authorized(method_client) {
            return Ok(Vec::new());
        }
        if !self.keymap_set {
            return Err(NoKeymap);
        }
        if !seat_present {
            return Ok(Vec::new());
        }
        match focus_client {
            None => Ok(Vec::new()),
            Some(client) => Ok(client_keyboards(keyboards, client)),
        }
    }
}

/// What a text field's end of use leaves behind: nothing of the text field, and
/// nothing of what the input method wanted to write. Its hold of the keyboard
/// stays.
pub proof fn deactivation_forgets_the_text_field(
    method: InputMethodView,
    state: TextStateView,
    anchor: Option<TextInputCursorAnchor>,
)
    requires
        !method.unavailable,
        !state.enabled,
    ensures
        !method.published(state, anchor).active,
        method.published(state, anchor).text_state == no_text(),
        method.published(state, anchor).pending == no_edit(),
        method.published(state, anchor).keyboard_grab == method.keyboard_grab,
{
}

/// Telling an input method of a text field that is in use tells it the field's kind
/// of text and cause of change as they are, and ends there. The method keeps the
/// state and the place of the text cursor.
pub proof fn text_fields_are_published_as_they_are(
    method: &mut InputMethod,
    state: TextInputState,
    anchor: Option<TextInputCursorAnchor>,
    messages: Vec<InputMethodMessage>,
)
    requires
        !method.unavailable,
        state.enabled,
        call_ensures(InputMethod::publish, (method, state, anchor), messages),
    ensures
        final(method).active,
        final(method).cursor_anchor == anchor,
        final(method).text_state.enabled,
        same_state(final(method).text_state, state),
        (final(method).done_count - old(method).done_count - 1) % 0x1_0000_0000 == 0,
        final(method).keyboard_grab == old(method).keyboard_grab,
        messages@.len() >= 3,
        messages@[messages@.len() - 1] is Done,
        messages@[messages@.len() - 2] matches InputMethodMessage::ContentType { hint, purpose }
            && hint == state.content_hint && purpose == state.content_purpose,
        messages@[messages@.len() - 3] matches InputMethodMessage::TextChangeCause(cause) && cause
            == state.change_cause,
        messages@[0] is Activate <==> !old(method).active,
{
    let views = message_views(messages@);
    assert(views.len() == messages@.len());
    assert(views[0] == messages@[0]@);
    let n = views.len() as int;
    assert(views[n - 1] == messages@[n - 1]@);
    assert(views[n - 2] == messages@[n - 2]@);
    assert(views[n - 3] == messages@[n - 3]@);
}

/// The text around the text cursor reaches the input method as it is, with the text
/// cursor and the end of the selection where they are, where it is short enough and
/// holds no zero character.
pub proof fn surrounding_text_reaches_the_method(
    method: &mut InputMethod,
    state: TextInputState,
    anchor: Option<TextInputCursorAnchor>,
    messages: Vec<InputMethodMessage>,
)
    requires
        !method.unavailable,
        state.enabled,
        state.surrounding_text is Some,
        encode_utf8(state.surrounding_text->0@).len() <= 4_000,
        !state.surrounding_text->0@.contains('\0'),
        0 <= state.cursor <= encode_utf8(state.surrounding_text->0@).len(),
        0 <= state.anchor <= encode_utf8(state.surrounding_text->0@).len(),
        call_ensures(InputMethod::publish, (method, state, anchor), messages),
    ensures
        messages@.len() >= 4,
        messages@[messages@.len() - 4] matches InputMethodMessage::SurroundingText {
            text,
            cursor,
            anchor,
        } && text@ == state.surrounding_text->0@ && cursor == state.cursor && anchor
            == state.anchor,
{
    let views = message_views(messages@);
    assert(views.len() == messages@.len());
    let n = views.len() as int;
    assert(views[n - 4] == messages@[n - 4]@);
}

/// What an input method is told of the text around the text cursor is the beginning
/// of it, at most four thousand bytes, with positions within it.
pub proof fn surrounding_text_is_cut_to_size(
    method: &mut InputMethod,
    state: TextInputState,
    anchor: Option<TextInputCursorAnchor>,
    messages: Vec<InputMethodMessage>,
    at: int,
)
    requires
        !method.unavailable,
        call_ensures(InputMethod::publish, (method, state, anchor), messages),
        0 <= at < messages@.len(),
    ensures
        messages@[at] matches InputMethodMessage::SurroundingText { text, cursor, anchor } ==> {
            &&& state.enabled && state.surrounding_text is Some
            &&& encode_utf8(text@).len() <= 4_000
            &&& text@.len() <= state.surrounding_text->0@.len()
            &&& text@ == state.surrounding_text->0@.take(text@.len() as int)
            &&& cursor <= encode_utf8(text@).len() && anchor <= encode_utf8(text@).len()
            &&& !text@.contains('\0')
        },
{
    let views = message_views(messages@);
    assert(views.len() == messages@.len());
    assert(views[at] == messages@[at]@);
    if state.surrounding_text is Some {
        truncation_is_the_longest_that_fits(state.surrounding_text->0@, 4_000);
    }
}

/// A text field that goes out of use is told once, and what the method knew of it
/// and wanted to write in it is dropped.
pub proof fn methods_are_told_of_the_end(
    method: &mut InputMethod,
    state: TextInputState,
    anchor: Option<TextInputCursorAnchor>,
    messages: Vec<InputMethodMessage>,
)
    requires
        !method.unavailable,
        !state.enabled,
        call_ensures(InputMethod::publish, (method, state, anchor), messages),
    ensures
        !final(method).active,
        final(method).cursor_anchor is None,
        says_nothing(final(method).text_state),
        final(method).pending.commit is None && final(method).pending.preedit is None
            && final(method).pending.delete is None,
        old(method).active ==> messages@.len() == 2 && messages@[0] is Deactivate && messages@[1]
            is Done,
        !old(method).active ==> messages@.len() == 0
            && final(method).done_count == old(method).done_count,
{
    let views = message_views(messages@);
    assert(views.len() == messages@.len());
    if method.active {
        assert(views[0] == messages@[0]@);
        assert(views[1] == messages@[1]@);
    }
}

/// An input method that does nothing is told nothing and writes nothing.
pub proof fn unavailable_methods_are_idle(
    told: &mut InputMethod,
    state: TextInputState,
    anchor: Option<TextInputCursorAnchor>,
    messages: Vec<InputMethodMessage>,
    writes: &mut InputMethod,
    seat_present: bool,
    edits: Vec<TextInputEvent>,
)
    requires
        told.unavailable && writes.unavailable,
        call_ensures(InputMethod::publish, (told, state, anchor), messages),
        call_ensures(InputMethod::commit, (writes, seat_present), edits),
    ensures
        messages@.len() == 0,
        !old(told).active ==> !final(told).active,
        edits@.len() == 0,
{
    assert(message_views(messages@).len() == messages@.len());
    assert(edit_views(edits@).len() == edits@.len());
}

/// What an input method wants to write happens as it said when it commits, while a
/// text field is in use: first the text that is only shown, then the deletion, then
/// the text itself, and then the end. After that nothing of it is left.
pub proof fn edits_happen_as_said(
    method: &mut InputMethod,
    seat_present: bool,
    edits: Vec<TextInputEvent>,
)
    requires
        !method.unavailable,
        call_ensures(InputMethod::commit, (method, seat_present), edits),
    ensures
        final(method).pending.commit is None && final(method).pending.preedit is None
            && final(method).pending.delete is None,
        !old(method).active || !seat_present ==> edits@.len() == 0,
        old(method).active && seat_present ==> {
            let shown: int = if old(method).pending.preedit is Some {
                1
            } else {
                0
            };
            let deleted: int = if old(method).pending.delete is Some {
                1
            } else {
                0
            };
            let written: int = if old(method).pending.commit is Some {
                1
            } else {
                0
            };
            &&& edits@.len() == shown + deleted + written + 1
            &&& edits@.last() is Done
            &&& old(method).pending.preedit matches Some((text, begin, end)) ==> {
                &&& edits@[0] matches TextInputEvent::Preedit {
                    text: sent,
                    cursor_begin,
                    cursor_end,
                }
                &&& sent is Some && sent->0@ == text@
                &&& cursor_begin == begin
                &&& cursor_end == end
            }
            &&& old(method).pending.delete matches Some((before, after)) ==> {
                &&& edits@[shown] matches TextInputEvent::DeleteSurrounding {
                    before_length,
                    after_length,
                }
                &&& before_length == before
                &&& after_length == after
            }
            &&& old(method).pending.commit matches Some(text) ==> {
                &&& edits@[shown + deleted] matches TextInputEvent::Commit(sent)
                &&& sent is Some && sent->0@ == text@
            }
        },
{
    let views = edit_views(edits@);
    assert(views.len() == edits@.len());
    if method.active && seat_present {
        assert(views[0] == edits@[0]@);
        if views.len() > 1 {
            assert(views[1] == edits@[1]@);
        }
        if views.len() > 2 {
            assert(views[2] == edits@[2]@);
        }
        if views.len() > 3 {
            assert(views[3] == edits@[3]@);
        }
    }
}

/// What an input method says it wants to write is kept as it said.
pub proof fn wishes_are_kept_as_said(
    writes: &mut InputMethod,
    text: &str,
    shows: &mut InputMethod,
    begin: i32,
    end: i32,
    deletes: &mut InputMethod,
    before: u32,
    after: u32,
)
    requires
        !writes.unavailable && !shows.unavailable && !deletes.unavailable,
        call_ensures(InputMethod::commit_string, (writes, text), ()),
        call_ensures(InputMethod::set_preedit, (shows, text, begin, end), ()),
        call_ensures(InputMethod::delete_surrounding, (deletes, before, after), ()),
    ensures
        final(writes).pending.commit is Some && final(writes).pending.commit->0@ == text@,
        final(writes).pending.delete == old(writes).pending.delete,
        final(shows).pending.preedit is Some,
        (final(shows).pending.preedit->0).0@ == text@,
        (final(shows).pending.preedit->0).1 == begin,
        (final(shows).pending.preedit->0).2 == end,
        final(shows).pending.delete == old(shows).pending.delete,
        final(deletes).pending.delete == Some((before, after)),
        final(deletes).active == old(deletes).active,
{
}

/// An input method holds the keyboard through the object that it asked with last,
/// until that object is destroyed.
pub proof fn methods_hold_the_keyboard(
    method: &mut InputMethod,
    resource: u64,
    answer: Option<Option<u64>>,
    loses: &mut InputMethod,
    destroyed: u64,
)
    requires
        call_ensures(InputMethod::grab_keyboard, (method, resource), answer),
        call_ensures(InputMethod::keyboard_grab_destroyed, (loses, destroyed), ()),
    ensures
        !old(method).unavailable ==> final(method).keyboard_grab == Some(resource)
            && answer == Some(
            old(method).keyboard_grab,
        ),
        old(method).unavailable ==> answer is None && final(method).keyboard_grab
            == old(method).keyboard_grab,
        old(loses).keyboard_grab == Some(destroyed) ==> final(loses).keyboard_grab is None,
        old(loses).keyboard_grab != Some(destroyed) ==> final(loses).keyboard_grab
            == old(loses).keyboard_grab,
        final(loses).active == old(loses).active,
{
}

/// A seat has one input method that does anything: the first client that asked.
pub proof fn the_first_method_serves(
    methods: &mut Vec<InputMethod>,
    resource: u64,
    client: u64,
    seat: u64,
    available: bool,
)
    requires
        call_ensures(add_input_method, (methods, resource, client, seat), available),
    ensures
        available <==> forall|i: int|
            0 <= i < old(methods)@.len() ==> (#[trigger] old(methods)@[i]).unavailable,
        final(methods)@.len() == old(methods)@.len() + 1,
        final(methods)@.last().unavailable <==> !available,
        final(methods)@.last().resource == resource,
        final(methods)@.last().client == client,
        final(methods)@.last().seat == seat,
        !final(methods)@.last().active,
        final(methods)@.last().keyboard_grab is None,
{
}

proof fn lemma_keyboards_of(keyboards: Seq<KeyboardResource>, client: u64)
    ensures
        keyboards_of(keyboards, client) == keyboards.filter(
            |k: KeyboardResource| k.client == client,
        ).map_values(|k: KeyboardResource| k.resource),
    decreases keyboards.len(),
{
    reveal(Seq::filter);
    if keyboards.len() > 0 {
        lemma_keyboards_of(keyboards.drop_last(), client);
    }
    assert(keyboards_of(keyboards, client) =~= keyboards.filter(
        |k: KeyboardResource| k.client == client,
    ).map_values(|k: KeyboardResource| k.resource));
}

/// A played key reaches the keyboards of the focused client, all of them and no
/// others, if it is pressed or released and was not so already. The keys that are
/// down afterwards are those from before and the pressed one, or without the
/// released one.
pub proof fn played_keys_reach_the_focus(
    keyboard: VirtualKeyboard,
    keys: &mut HashSet<u32>,
    key: u32,
    key_state: u32,
    focus_client: u64,
    keyboards: &[KeyboardResource],
    targets: Vec<u64>,
    other: u32,
)
    requires
        keyboard.keymap_set,
        key <= 0x2ff && key_state <= 1,
        call_ensures(
            VirtualKeyboard::key,
            (
                &keyboard,
                Some(keyboard.client),
                true,
                keys,
                key,
                key_state,
                Some(focus_client),
                keyboards,
            ),
            Ok(targets),
        ),
    ensures
        final(keys)@.contains(key) <==> key_state == 1,
        other != key ==> (final(keys)@.contains(other) <==> old(keys)@.contains(other)),
        old(keys)@.contains(key) == (key_state == 1) ==> targets@.len() == 0,
        old(keys)@.contains(key) != (key_state == 1) ==> targets@ == keyboards@.filter(
            |k: KeyboardResource| k.client == focus_client,
        ).map_values(|k: KeyboardResource| k.resource),
{
    lemma_keyboards_of(keyboards@, focus_client);
}

/// Only the seat's input method can play a virtual keyboard, and only one with a
/// keymap.
pub proof fn only_the_input_method_plays(
    keyboard: VirtualKeyboard,
    method_client: Option<u64>,
    seat_present: bool,
    keys: &mut HashSet<u32>,
    key: u32,
    key_state: u32,
    focus_client: Option<u64>,
    keyboards: &[KeyboardResource],
    result: Result<Vec<u64>, NoKeymap>,
)
    requires
        call_ensures(
            VirtualKeyboard::key,
            (
                &keyboard,
                method_client,
                seat_present,
                keys,
                key,
                key_state,
                focus_client,
                keyboards,
            ),
            result,
        ),
    ensures
        method_client != Some(keyboard.client) ==> result is Ok && result->Ok_0@.len() == 0
            && final(keys)@ == old(keys)@,
        method_client == Some(keyboard.client) ==> (result is Err <==> !keyboard.keymap_set),
        result is Err || key > 0x2ff || key_state > 1 || !seat_present
            ==> final(keys)@ == old(keys)@,
        result is Ok && (key > 0x2ff || key_state > 1 || !seat_present || focus_client is None)
            ==> result->Ok_0@.len() == 0,
{
}

/// A text that is cut is the longest beginning of it that fits into the given number of
/// bytes.
pub proof fn cut_texts_fit(text: &str, max_bytes: usize, cut: &str, longer: int)
    requires
        call_ensures(truncate_utf8_bytes, (text, max_bytes), cut),
        cut@.len() < longer <= text@.len(),
    ensures
        encode_utf8(cut@).len() <= max_bytes,
        cut@ == text@.take(cut@.len() as int),
        encode_utf8(text@.take(longer)).len() > max_bytes,
{
    truncation_is_the_longest_that_fits(text@, max_bytes as nat);
}

/// A key is down after it was pressed and up after it was released; other keys are as they
/// were, and pressing or releasing again is no change.
pub proof fn keys_are_down_as_played(
    first: &mut HashSet<u32>,
    again: &mut HashSet<u32>,
    key: u32,
    pressed: bool,
    changed: bool,
    repeated: bool,
    other: u32,
)
    requires
        call_ensures(apply_logical_key_state, (first, key, pressed), changed),
        *again == *final(first),
        call_ensures(apply_logical_key_state, (again, key, pressed), repeated),
    ensures
        final(first)@.contains(key) <==> pressed,
        other != key ==> (final(first)@.contains(other) <==> old(first)@.contains(other)),
        changed <==> (old(first)@.contains(key) <==> !pressed),
        !repeated,
{
}

/// The keys go to the one that holds the keyboard, and belong to no client where the object
/// is gone.
pub proof fn keys_belong_to_the_holder(
    methods: &[InputMethod],
    grab: Option<u64>,
    index: int,
    active: bool,
    held: Option<u64>,
    owns: bool,
    resource_client: Option<u64>,
    client: u64,
    own: bool,
)
    requires
        call_ensures(key_receiver, (methods,), grab),
        call_ensures(keyboard_grab_owns_key_stream, (active, held), owns),
        call_ensures(resource_belongs_to_client, (resource_client, client), own),
        0 <= index < methods@.len(),
    ensures
        !methods@[index].unavailable && (forall|i: int|
            0 <= i < index ==> (#[trigger] methods@[i]).unavailable) ==> grab
            == methods@[index].keyboard_grab,
        owns <==> held is Some,
        own <==> resource_client is Some && resource_client->0 == client,
{
    if !methods@[index].unavailable && (forall|i: int|
        0 <= i < index ==> (#[trigger] methods@[i]).unavailable) {
        assert(is_active_method(methods@, index));
    }
}

/// A popup is made for a surface without a role, and is shown on that surface while a text
/// field is in use; one that is removed is gone.
pub proof fn popups_are_shown_while_text_is_edited(
    method: &mut InputMethod,
    resource: u64,
    surface: u64,
    taken: bool,
    answer: PopupAnswer,
    shown: InputMethod,
    surfaces: Vec<u64>,
)
    requires
        call_ensures(InputMethod::add_popup, (method, resource, surface, taken), answer),
        call_ensures(InputMethod::popup_surfaces, (&shown,), surfaces),
    ensures
        answer == PopupAnswer::Created <==> !old(method).unavailable && !taken,
        answer == PopupAnswer::RoleTaken <==> !old(method).unavailable && taken,
        answer == PopupAnswer::Created ==> final(method).popups@.len()
            == old(method).popups@.len() + 1
            && final(method).popups@.last().resource == resource
            && final(method).popups@.last().surface == Some(surface),
        answer != PopupAnswer::Created ==> final(method).popups@ == old(method).popups@,
        !shown.active ==> surfaces@.len() == 0,
{
    assert(final(method)@.popups == final(method).popups@);
    assert(method@.popups == method.popups@);
}

/// A virtual keyboard that is not the input method's changes nothing; a usable keymap is one
/// in the known format, with some bytes but not more than are read.
pub proof fn keymaps_come_from_the_input_method(
    keyboard: &mut VirtualKeyboard,
    client: Option<u64>,
    format: u32,
    size: u32,
    allowed: bool,
)
    requires
        call_ensures(VirtualKeyboard::authorized, (&*keyboard, client), allowed),
        call_ensures(VirtualKeyboard::keymap, (keyboard, client, format, size), ()),
    ensures
        allowed <==> client is Some && client->0 == old(keyboard).client,
        !allowed ==> *final(keyboard) == *old(keyboard),
        allowed ==> (final(keyboard).keymap_set <==> format == 1 && 0 < size
            && size <= MAX_KEYMAP_BYTES),
{
}

/// Played modifiers reach the keyboards of the focused client, and no others.
pub proof fn played_modifiers_reach_the_focus(
    keyboard: VirtualKeyboard,
    client: Option<u64>,
    present: bool,
    focus: Option<u64>,
    keyboards: &[KeyboardResource],
    targets: Vec<u64>,
)
    requires
        call_ensures(
            VirtualKeyboard::modifiers,
            (&keyboard, client, present, focus, keyboards),
            Ok(targets),
        ),
    ensures
        client == Some(keyboard.client) && keyboard.keymap_set && present && focus is Some
            ==> targets@ == keyboards@.filter(
            |k: KeyboardResource| k.client == focus->0,
        ).map_values(|k: KeyboardResource| k.resource),
        client != Some(keyboard.client) || !keyboard.keymap_set || !present || focus is None
            ==> targets@.len() == 0,
{
    if focus is Some {
        lemma_keyboards_of(keyboards@, focus->0);
    }
}

} // verus!
