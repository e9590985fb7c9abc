//! The input methods of a seat: which one is told of the text field in use,
//! where its popups go, and what its end leaves behind.

use vstd::prelude::*;
use crate::extensions::input_method::{
    active_input_method, is_active_method, message_views, one_method, InputMethod,
    InputMethodMessage,
    InputMethodView, VirtualKeyboard,
};
use crate::extensions::input_popup::{
    context_of, find_output, output_at, place_popup, popup_context, popup_place, relative_cursor,
    told, InputPopup, PopupContext, PopupPlacement,
};
use crate::extensions::text_input::TextInputCursorAnchor;
use crate::geometry::{Point, Rect, Size};
use crate::input::TextInputState;

verus! {

/// Tell a seat's input method the state of the text field in use. The answer
/// holds the input method's object and what it is told; without an input method
/// the state is for someone else.
pub fn route_text_input_state(
    methods: &mut Vec<InputMethod>,
    text_state: TextInputState,
    cursor_anchor: Option<TextInputCursorAnchor>,
) -> (routed: Option<(u64, Vec<InputMethodMessage>)>)
    ensures
        (forall|i: int|
            0 <= i < old(methods)@.len() ==> (#[trigger] old(methods)@[i]).unavailable)
            ==> routed is None && final(methods)@ == old(methods)@,
        forall|i: int|
            is_active_method(old(methods)@, i) ==> {
                let method = #[trigger] old(methods)@[i];
                &&& routed matches Some((resource, messages))
                &&& resource == method.resource
                &&& message_views(messages@) == method@.told(text_state@)
                &&& final(methods)@ == old(methods)@.update(i, final(methods)@[i])
                &&& final(methods)@[i]@ == method@.published(text_state@, cursor_anchor)
            },
{
    match active_input_method(methods.as_slice()) {
        None => None,
        Some(index) => {
            proof {
                assert forall|i: int| is_active_method(methods@, i) implies i == index by {
                    if i < index {
                        assert(methods@[i].unavailable);
                    } else if i > index {
                        assert(methods@[index as int].unavailable);
                    }
                }
            }
            let resource: u64 = methods[index].resource;
            let messages = methods[index].publish(text_state, cursor_anchor);
            assert(methods@ =~= old(methods)@.update(index as int, methods@[index as int]));
            Some((resource, messages))
        },
    }
}

/// Tell a seat's input method the state of the text field in use or, without an
/// input method, queue the state for the compositor around this one.
pub fn route_or_queue_text_input_state(
    methods: &mut Vec<InputMethod>,
    queue: &mut Vec<TextInputState>,
    text_state: TextInputState,
    cursor_anchor: Option<TextInputCursorAnchor>,
) -> (routed: Option<(u64, Vec<InputMethodMessage>)>)
    ensures
        (forall|i: int|
            0 <= i < old(methods)@.len() ==> (#[trigger] old(methods)@[i]).unavailable) ==> {
            &&& routed is None
            &&& final(methods)@ == old(methods)@
            &&& final(queue)@ == old(queue)@.push(text_state)
        },
        forall|i: int|
            is_active_method(old(methods)@, i) ==> {
                let method = #[trigger] old(methods)@[i];
                &&& routed matches Some((resource, messages))
                &&& resource == method.resource
                &&& message_views(messages@) == method@.told(text_state@)
                &&& final(methods)@ == old(methods)@.update(i, final(methods)@[i])
                &&& final(methods)@[i]@ == method@.published(text_state@, cursor_anchor)
                &&& final(queue)@ == old(queue)@
            },
{
    if active_input_method(methods.as_slice()).is_none() {
        queue.push(text_state);
        return None;
    }
    route_text_input_state(methods, text_state, cursor_anchor)
}

/// The place of a popup.
pub open spec fn popup_point(context: PopupContext, size: Size, output: Rect) -> Point {
    let place = popup_place(context.anchor, size, output);
    Point { x: place.0 as i32, y: place.1 as i32 }
}

/// A popup after it was placed.
pub open spec fn placed_popup(
    popup: InputPopup,
    size: Size,
    context: PopupContext,
    output: Rect,
) -> InputPopup {
    if popup.surface is None {
        popup
    } else {
        InputPopup {
            last_text_input_rectangle: match context.cursor_rectangle {
                Some(cursor) => Some(relative_cursor(cursor, popup_point(context, size, output))),
                None => None,
            },
            ..popup
        }
    }
}

/// Where a popup goes, if it has a surface, and what the input method is told.
pub open spec fn placement_of(
    popup: InputPopup,
    size: Size,
    context: PopupContext,
    output: Rect,
    force: bool,
) -> Option<PopupPlacement> {
    match popup.surface {
        None => None,
        Some(surface) => {
            let position = popup_point(context, size, output);
            Some(
                PopupPlacement {
                    resource: popup.resource,
                    surface,
                    position,
                    text_input_rectangle: match context.cursor_rectangle {
                        Some(cursor) if told(popup, relative_cursor(cursor, position), force) =>
                            Some(relative_cursor(cursor, position)),
                        _ => None,
                    },
                },
            )
        },
    }
}

/// Popups after they were placed.
pub open spec fn placed_popups(
    popups: Seq<InputPopup>,
    sizes: Seq<Size>,
    context: PopupContext,
    output: Rect,
) -> Seq<InputPopup> {
    Seq::new(popups.len(), |i: int| placed_popup(popups[i], sizes[i], context, output))
}

/// Where popups go, in order.
pub open spec fn placements(
    popups: Seq<InputPopup>,
    sizes: Seq<Size>,
    context: PopupContext,
    output: Rect,
    force: bool,
) -> Seq<PopupPlacement>
    decreases popups.len(),
{
    if popups.len() == 0 {
        Seq::empty()
    } else {
        let earlier = placements(popups.drop_last(), sizes, context, output, force);
        match placement_of(popups.last(), sizes[popups.len() - 1], context, output, force) {
            Some(placement) => earlier.push(placement),
            None => earlier,
        }
    }
}

impl InputMethod {
    /// What the popups are placed by, while a text field is in use.
    pub open spec fn placing(self, surface: Option<(Point, Size)>) -> Option<PopupContext> {
        if self.active {
            context_of(self.cursor_anchor, surface, self.text_state.cursor_rect)
        } else {
            None
        }
    }

    /// Place all popups, on the output that the text cursor is on. `surface` is
    /// the place and size of the surface with the text cursor, while that
    /// exists; `sizes` are those of the popups.
    pub fn place_popups(
        &mut self,
        surface: Option<(Point, Size)>,
        sizes: &[Size],
        outputs: &[Rect],
        otherwise: Rect,
        force_notify: bool,
    ) -> (placed: Vec<PopupPlacement>)
        requires
            sizes.len() == old(self).popups.len(),
        ensures
            old(self).placing(surface) is None ==> placed@.len() == 0 && *final(self)
                == *old(self),
            old(self).placing(surface) matches Some(context) ==> {
                let output = output_at(outputs@, context.anchor.origin, otherwise);
                &&& placed@ == placements(
                    old(self).popups@,
                    sizes@,
                    context,
                    output,
                    force_notify,
                )
                &&& final(self).popups@ == placed_popups(
                    old(self).popups@,
                    sizes@,
                    context,
                    output,
                )
                &&& final(self)@ == (InputMethodView {
                    popups: final(self).popups@,
                    ..old(self)@
                })
            },
    {
        let mut placed: Vec<PopupPlacement> = Vec::new();
        if !self.active {
            return placed;
        }
        let context = match popup_context(
            self.cursor_anchor,
            surface,
            self.text_state.cursor_rect,
        ) {
            None => {
                return placed;
            },
            Some(context) => context,
        };
        let output = find_output(outputs, context.anchor.origin, otherwise);
        let ghost before = self.popups@;
        let mut index: usize = 0;
        assert(before.take(0) =~= Seq::<InputPopup>::empty());
        while index < self.popups.len()
            invariant
                index <= self.popups.len(),
                self.popups@.len() == before.len() == sizes@.len(),
                before == old(self).popups@,
                self@ == (InputMethodView { popups: self.popups@, ..old(self)@ }),
                placed@ == placements(
                    before.take(index as int),
                    sizes@,
                    context,
                    output,
                    force_notify,
                ),
                forall|i: int|
                    0 <= i < before.len() ==> #[trigger] self.popups@[i] == if i < index {
                        placed_popup(before[i], sizes@[i], context, output)
                    } else {
                        before[i]
                    },
            decreases self.popups.len() - index,
        {
            let mut popup = self.popups[index];
            let placement = place_popup(&mut popup, sizes[index], context, output, force_notify);
            self.popups[index] = popup;
            if let Some(there) = placement {
                placed.push(there);
            }
            assert(before.take(index as int + 1).drop_last() =~= before.take(index as int));
            index += 1;
        }
        assert(before.take(before.len() as int) =~= before);
        assert(self.popups@ =~= placed_popups(before, sizes@, context, output));
        placed
    }

    /// The surface under a popup was destroyed. The popup is shown no more.
    pub fn popup_surface_destroyed(&mut self, surface: u64)
        ensures
            final(self)@ == (InputMethodView {
                popups: without_surface(old(self).popups@, surface),
                ..old(self)@
            }),
    {
        let ghost before = self.popups@;
        let mut index: usize = 0;
        while index < self.popups.len()
            invariant
                index <= self.popups.len(),
                self.popups@.len() == before.len(),
                self@ == (InputMethodView { popups: self.popups@, ..old(self)@ }),
                forall|i: int|
                    0 <= i < before.len() ==> #[trigger] self.popups@[i] == if i < index {
                        without_surface(before, surface)[i]
                    } else {
                        before[i]
                    },
            decreases self.popups.len() - index,
        {
            let popup = self.popups[index];
            if let Some(held) = popup.surface {
                if held == surface {
                    self.popups[index] = InputPopup { surface: None, ..popup };
                }
            }
            index += 1;
        }
        assert(self.popups@ =~= without_surface(before, surface));
    }
}

/// Popups after a surface was destroyed.
pub open spec fn without_surface(popups: Seq<InputPopup>, surface: u64) -> Seq<InputPopup> {
    Seq::new(
        popups.len(),
        |i: int|
            if popups[i].surface == Some(surface) {
                InputPopup { surface: None, ..popups[i] }
            } else {
                popups[i]
            },
    )
}

/// What the end of an input method leaves to be done.
#[derive(Debug)]
pub struct MethodEnd {
    /// Its hold of the keyboard, to be destroyed.
    pub keyboard_grab: Option<u64>,
    /// Its popups, to be destroyed.
    pub popups: Vec<u64>,
    /// The virtual keyboards of its client, to be destroyed.
    pub keyboards: Vec<u64>,
    /// Whether text fields are someone else's from now on.
    pub text_is_free: bool,
}

/// The place of an object's input method.
pub open spec fn is_first_method(methods: Seq<InputMethod>, resource: u64, index: int) -> bool {
    &&& 0 <= index < methods.len()
    &&& methods[index].resource == resource
    &&& forall|i: int| 0 <= i < index ==> (#[trigger] methods[i]).resource != resource
}

/// The objects of popups, in order.
pub open spec fn popup_resources(popups: Seq<InputPopup>) -> Seq<u64> {
    Seq::new(popups.len(), |i: int| popups[i].resource)
}

/// The virtual keyboards of a client, in order.
pub open spec fn virtual_keyboards_of(keyboards: Seq<VirtualKeyboard>, client: u64) -> Seq<u64>
    decreases keyboards.len(),
{
    if keyboards.len() == 0 {
        Seq::empty()
    } else {
        let earlier = virtual_keyboards_of(keyboards.drop_last(), client);
        if keyboards.last().client == client {
            earlier.push(keyboards.last().resource)
        } else {
            earlier
        }
    }
}

fn list_popups(popups: &[InputPopup]) -> (resources: Vec<u64>)
    ensures
        resources@ == popup_resources(popups@),
{
    let mut resources: Vec<u64> = Vec::new();
    let mut index: usize = 0;
    while index < popups.len()
        invariant
            index <= popups.len(),
            resources@.len() == index,
            forall|i: int| 0 <= i < index ==> #[trigger] resources@[i] == popups@[i].resource,
        decreases popups.len() - index,
    {
        resources.push(popups[index].resource);
        index += 1;
    }
    assert(resources@ =~= popup_resources(popups@));
    resources
}

fn list_keyboards(keyboards: &[VirtualKeyboard], client: u64) -> (resources: Vec<u64>)
    ensures
        resources@ == virtual_keyboards_of(keyboards@, client),
{
    let mut resources: Vec<u64> = Vec::new();
    let mut index: usize = 0;
    assert(keyboards@.take(0) =~= Seq::<VirtualKeyboard>::empty());
    while index < keyboards.len()
        invariant
            index <= keyboards.len(),
            resources@ == virtual_keyboards_of(keyboards@.take(index as int), client),
        decreases keyboards.len() - index,
    {
        assert(keyboards@.take(index as int + 1).drop_last() =~= keyboards@.take(index as int));
        if keyboards[index].client == client {
            resources.push(keyboards[index].resource);
        }
        index += 1;
    }
    assert(keyboards@.take(keyboards.len() as int) =~= keyboards@);
    resources
}

/// An input method is gone. What it held goes with it, and so do the virtual
/// keyboards of its client.
pub fn remove_input_method(
    methods: &mut Vec<InputMethod>,
    resource: u64,
    keyboards: &[VirtualKeyboard],
) -> (end: Option<MethodEnd>)
    ensures
        (forall|i: int|
            0 <= i < old(methods)@.len() ==> (#[trigger] old(methods)@[i]).resource != resource)
            ==> end is None && final(methods)@ == old(methods)@,
        forall|i: int|
            is_first_method(old(methods)@, resource, i) ==> {
                let method = #[trigger] old(methods)@[i];
                &&& final(methods)@ == old(methods)@.remove(i)
                &&& end matches Some(end)
                &&& end.keyboard_grab == method.keyboard_grab
                &&& end.popups@ == popup_resources(method.popups@)
                &&& end.keyboards@ == virtual_keyboards_of(keyboards@, method.client)
                &&& end.text_is_free == !method.unavailable
            },
        one_method(old(methods)@) ==> one_method(final(methods)@),
{
    let mut index: usize = 0;
    while index < methods.len()
        invariant
            index <= methods.len(),
            *methods == *old(methods),
            forall|i: int| 0 <= i < index ==> (#[trigger] methods@[i]).resource != resource,
        decreases methods.len() - index,
    {
        if methods[index].resource == resource {
            let method = &methods[index];
            let end = MethodEnd {
                keyboard_grab: method.keyboard_grab,
                popups: list_popups(method.popups.as_slice()),
                keyboards: list_keyboards(keyboards, method.client),
                text_is_free: !method.unavailable,
            };
            proof {
                assert(methods@[index as int].resource == resource);
                assert forall|i: int| is_first_method(methods@, resource, i) implies i == index by {
                    if i < index {
                        assert(methods@[i].resource != resource);
                    } else if i > index {
                        assert(methods@[index as int].resource != resource);
                    }
                }
            }
            methods.remove(index);
            proof {
                let before = old(methods)@;
                if one_method(before) {
                    assert forall|i: int, j: int|
                        #![trigger methods@[i], methods@[j]]
                        0 <= i < j < methods@.len() implies methods@[i].unavailable
                        || methods@[j].unavailable by {
                        let from = if i < index { i } else { i + 1 };
                        let to = if j < index { j } else { j + 1 };
                        assert(before[from].unavailable || before[to].unavailable);
                    }
                }
            }
            return Some(end);
        }
        index += 1;
    }
    None
}

/// The seat's input method is told of the text field in use, and no other is touched.
/// Without one nobody is.
pub proof fn states_go_to_the_serving_method(
    methods: &mut Vec<InputMethod>,
    state: TextInputState,
    anchor: Option<TextInputCursorAnchor>,
    routed: Option<(u64, Vec<InputMethodMessage>)>,
    serving: int,
    other: int,
)
    requires
        call_ensures(route_text_input_state, (methods, state, anchor), routed),
        0 <= serving < methods@.len(),
        !methods@[serving].unavailable,
        forall|i: int|
            0 <= i < methods@.len() && i != serving ==> (#[trigger] methods@[i]).unavailable,
        0 <= other < methods@.len() && other != serving,
    ensures
        routed is Some,
        (routed->0).0 == old(methods)@[serving].resource,
        final(methods)@.len() == old(methods)@.len(),
        final(methods)@[other] == old(methods)@[other],
        final(methods)@[serving].active == state.enabled,
        state.enabled ==> final(methods)@[serving].cursor_anchor == anchor,
        state.enabled ==> final(methods)@[serving].text_state.cursor_rect == state.cursor_rect,
        final(methods)@[serving].keyboard_grab == old(methods)@[serving].keyboard_grab,
{
    assert(is_active_method(methods@, serving));
    assert(final(methods)@ == methods@.update(serving, final(methods)@[serving]));
}

/// The end of an input method takes it out of the list, and leaves its hold of the
/// keyboard, its popups and its client's virtual keyboards to be destroyed.
pub proof fn the_end_of_a_method_is_complete(
    methods: &mut Vec<InputMethod>,
    resource: u64,
    keyboards: &[VirtualKeyboard],
    end: Option<MethodEnd>,
    index: int,
    keyboard: int,
)
    requires
        call_ensures(remove_input_method, (methods, resource, keyboards), end),
        0 <= index < methods@.len(),
        methods@[index].resource == resource,
        forall|i: int| 0 <= i < index ==> (#[trigger] methods@[i]).resource != resource,
        0 <= keyboard < keyboards@.len(),
        keyboards@[keyboard].client == methods@[index].client,
    ensures
        final(methods)@ == old(methods)@.remove(index),
        end is Some,
        end->0.keyboard_grab == old(methods)@[index].keyboard_grab,
        end->0.text_is_free <==> !old(methods)@[index].unavailable,
        end->0.popups@.len() == old(methods)@[index].popups@.len(),
        forall|i: int|
            0 <= i < old(methods)@[index].popups@.len() ==> #[trigger] end->0.popups@[i]
                == old(methods)@[index].popups@[i].resource,
        end->0.keyboards@.contains(keyboards@[keyboard].resource),
{
    assert(is_first_method(methods@, resource, index));
    lemma_virtual_keyboards(keyboards@, methods@[index].client, keyboard);
}

proof fn lemma_virtual_keyboards(keyboards: Seq<VirtualKeyboard>, client: u64, index: int)
    requires
        0 <= index < keyboards.len(),
        keyboards[index].client == client,
    ensures
        virtual_keyboards_of(keyboards, client).contains(keyboards[index].resource),
    decreases keyboards.len(),
{
    let rest = keyboards.drop_last();
    let all = virtual_keyboards_of(keyboards, client);
    if index < keyboards.len() - 1 {
        lemma_virtual_keyboards(rest, client, index);
        let earlier = virtual_keyboards_of(rest, client);
        let k = earlier.index_of(rest[index].resource);
        assert(all[k] == keyboards[index].resource);
    } else {
        assert(all.last() == keyboards[index].resource);
    }
}

/// Without a serving input method the state waits for the compositor around this one; with
/// one it goes to that method alone.
pub proof fn states_wait_without_a_method(
    methods: &mut Vec<InputMethod>,
    queue: &mut Vec<TextInputState>,
    state: TextInputState,
    anchor: Option<TextInputCursorAnchor>,
    routed: Option<(u64, Vec<InputMethodMessage>)>,
    index: int,
)
    requires
        call_ensures(
            route_or_queue_text_input_state,
            (methods, queue, state, anchor),
            routed,
        ),
    ensures
        (forall|i: int| 0 <= i < old(methods)@.len() ==> (#[trigger] old(methods)@[i]).unavailable)
            ==> routed is None && final(queue)@.len() == old(queue)@.len() + 1
                && final(queue)@.last()
            == state,
        0 <= index < old(methods)@.len() && !old(methods)@[index].unavailable && (forall|i: int|
            0 <= i < index ==> (#[trigger] old(methods)@[i]).unavailable) ==> routed is Some && (
        routed->0).0 == old(methods)@[index].resource && final(queue)@ == old(queue)@,
{
    if 0 <= index < methods@.len() && !methods@[index].unavailable && (forall|i: int|
        0 <= i < index ==> (#[trigger] methods@[i]).unavailable) {
        assert(is_active_method(methods@, index));
        let method = methods@[index];
    }
}

/// A popup loses the surface that was destroyed, and no popup loses another.
pub proof fn destroyed_surfaces_show_no_popup(
    method: &mut InputMethod,
    surface: u64,
    index: int,
)
    requires
        call_ensures(InputMethod::popup_surface_destroyed, (method, surface), ()),
        0 <= index < method.popups@.len(),
    ensures
        final(method).popups@.len() == old(method).popups@.len(),
        final(method).popups@[index].surface != Some(surface),
        old(method).popups@[index].surface != Some(surface) ==> final(method).popups@[index]
            == old(method).popups@[index],
        final(method).popups@[index].resource == old(method).popups@[index].resource,
{
    assert(final(method)@.popups == final(method).popups@);
    assert(final(method)@.popups == without_surface(method.popups@, surface));
}

} // verus!
