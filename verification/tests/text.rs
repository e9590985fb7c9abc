//! Text input, input methods, their popups, and virtual keyboards.

use std::collections::HashSet;

use tessera::extensions::input_method::{
    active_input_method, add_input_method, apply_logical_key_state, client_keyboards,
    key_receiver, keyboard_grab_owns_key_stream, resource_belongs_to_client,
    truncate_utf8_bytes, InputMethod, InputMethodMessage, KeyboardResource, NoKeymap,
    PopupAnswer, VirtualKeyboard, MAX_SURROUNDING_TEXT_BYTES,
};
use tessera::extensions::input_methods::{
    remove_input_method, route_or_queue_text_input_state, route_text_input_state,
};
use tessera::extensions::input_popup::{
    find_output, input_popup_anchor, input_popup_position, place_popup, popup_context,
    InputPopup, PopupContext,
};
use tessera::extensions::text_input::{
    apply_pending_text_input_state, count_text_input_commit, Focus, FocusEvent,
    TextInputCursorAnchor, TextInputMessage, TextInputs,
};
use tessera::geometry::{Point, Rect, Size};
use tessera::input::{TextInputEvent, TextInputState};

#[test]
fn destroyed_keyboard_resource_never_matches_a_client() {
    assert!(!resource_belongs_to_client(None, 0));
}

#[test]
fn keyboard_resources_match_their_own_client() {
    assert!(resource_belongs_to_client(Some(3), 3));
    assert!(!resource_belongs_to_client(Some(3), 4));
}

#[test]
fn surrounding_text_truncation_preserves_utf8_boundaries() {
    let text = format!("{}界", "a".repeat(MAX_SURROUNDING_TEXT_BYTES - 1));
    let truncated = truncate_utf8_bytes(&text, MAX_SURROUNDING_TEXT_BYTES);
    assert_eq!(truncated.len(), MAX_SURROUNDING_TEXT_BYTES - 1);
    assert!(truncated.is_char_boundary(truncated.len()));
}

#[test]
fn truncation_keeps_as_much_as_fits() {
    assert_eq!(truncate_utf8_bytes("界界", 6), "界界");
    assert_eq!(truncate_utf8_bytes("界界", 5), "界");
    assert_eq!(truncate_utf8_bytes("界界", 2), "");
    assert_eq!(truncate_utf8_bytes("", 0), "");
    assert_eq!(truncate_utf8_bytes("aé𝄞", 7), "aé𝄞");
    assert_eq!(truncate_utf8_bytes("aé𝄞", 6), "aé");
}

#[test]
fn keyboard_grab_survives_text_input_deactivation() {
    let grab = Some(8);
    assert!(keyboard_grab_owns_key_stream(true, grab));
    assert!(keyboard_grab_owns_key_stream(false, grab));
    assert!(!keyboard_grab_owns_key_stream(true, None));
}

#[test]
fn popup_prefers_below_the_cursor_and_clamps_horizontally() {
    let output = Rect::new(100, 50, 800, 600);
    let anchor = Rect::new(880, 200, 2, 20);
    let popup = Size { w: 240, h: 100 };
    assert_eq!(
        input_popup_position(anchor, popup, output),
        Point { x: 660, y: 220 }
    );
}

#[test]
fn popup_moves_above_the_cursor_when_below_would_overflow() {
    let output = Rect::new(0, 0, 800, 600);
    let anchor = Rect::new(320, 575, 2, 20);
    let popup = Size { w: 240, h: 100 };
    assert_eq!(
        input_popup_position(anchor, popup, output),
        Point { x: 320, y: 475 }
    );
}

#[test]
fn popup_anchor_tracks_a_moved_text_input_surface() {
    let local = (72, 0, 9, 19);
    assert_eq!(
        input_popup_anchor(
            Some(local),
            Point { x: 17, y: 46 },
            Size { w: 800, h: 600 }
        ),
        Rect::new(89, 46, 9, 19)
    );
    assert_eq!(
        input_popup_anchor(
            Some(local),
            Point { x: 300, y: 220 },
            Size { w: 800, h: 600 }
        ),
        Rect::new(372, 220, 9, 19)
    );
}

#[test]
fn popup_without_caret_rebinds_to_the_new_text_surface() {
    let size = Size { w: 640, h: 480 };
    assert_eq!(
        input_popup_anchor(None, Point { x: 20, y: 30 }, size),
        Rect::new(20, 30, 640, 480)
    );
    assert_eq!(
        input_popup_anchor(None, Point { x: 900, y: 70 }, size),
        Rect::new(900, 70, 640, 480)
    );
}

#[test]
fn popups_wider_than_the_output_start_at_its_edge() {
    let output = Rect::new(10, 20, 100, 100);
    assert_eq!(
        input_popup_position(Rect::new(60, 60, 1, 10), Size { w: 500, h: 500 }, output),
        Point { x: 10, y: 20 }
    );
}

#[test]
fn popups_are_told_the_cursor_relative_to_themselves() {
    let mut popup = InputPopup {
        resource: 5,
        surface: Some(6),
        last_text_input_rectangle: None,
    };
    let context = PopupContext {
        anchor: Rect::new(320, 100, 2, 20),
        cursor_rectangle: Some((320, 100, 2, 20)),
    };
    let output = Rect::new(0, 0, 800, 600);
    let size = Size { w: 240, h: 100 };
    let placed = place_popup(&mut popup, size, context, output, false).unwrap();
    assert_eq!(placed.position, Point { x: 320, y: 120 });
    assert_eq!(placed.text_input_rectangle, Some((0, -20, 2, 20)));
    let again = place_popup(&mut popup, size, context, output, false).unwrap();
    assert_eq!(again.text_input_rectangle, None);
    let forced = place_popup(&mut popup, size, context, output, true).unwrap();
    assert_eq!(forced.text_input_rectangle, Some((0, -20, 2, 20)));
    popup.surface = None;
    assert!(place_popup(&mut popup, size, context, output, true).is_none());
}

#[test]
fn popup_outputs_are_found_by_the_anchor() {
    let outputs = [Rect::new(0, 0, 100, 100), Rect::new(100, 0, 100, 100)];
    let desktop = Rect::new(0, 0, 200, 100);
    assert_eq!(
        find_output(&outputs, Point { x: 100, y: 5 }, desktop),
        outputs[1]
    );
    assert_eq!(
        find_output(&outputs, Point { x: 250, y: 5 }, desktop),
        desktop
    );
    assert!(popup_context(None, None, None).is_none());
    let anchor = TextInputCursorAnchor {
        surface: 9,
        rect: Some((1, 2, 3, 4)),
    };
    let context = popup_context(
        Some(anchor),
        Some((Point { x: 10, y: 10 }, Size { w: 50, h: 50 })),
        None,
    )
    .unwrap();
    assert_eq!(context.anchor, Rect::new(11, 12, 3, 4));
}

#[test]
fn commit_counter_advances_even_when_request_will_be_ignored() {
    let mut serial = 41;
    count_text_input_commit(&mut serial);
    assert_eq!(serial, 42);
    serial = u32::MAX;
    count_text_input_commit(&mut serial);
    assert_eq!(serial, 0);
}

fn context_field() -> TextInputState {
    TextInputState {
        enabled: true,
        surrounding_text: Some("context".to_owned()),
        cursor: 7,
        anchor: 7,
        change_cause: 1,
        content_hint: 3,
        content_purpose: 13,
        cursor_rect: Some((10, 20, 2, 18)),
    }
}

#[test]
fn committed_change_cause_is_one_shot_but_context_persists() {
    let mut pending = context_field();
    let current = apply_pending_text_input_state(&mut pending);
    assert_eq!(current.change_cause, 1);
    assert_eq!(pending.change_cause, 0);
    assert!(pending.enabled);
    assert_eq!(pending.surrounding_text.as_deref(), Some("context"));
    assert_eq!(pending.cursor_rect, Some((10, 20, 2, 18)));
}

#[test]
fn one_text_field_is_in_use_at_a_time() {
    let focus = Focus {
        surface: 100,
        client: 1,
    };
    let mut inputs = TextInputs::new();
    assert_eq!(inputs.create(11, 1, 0, Some(focus)), Some(100));
    assert_eq!(inputs.create(12, 1, 0, Some(focus)), Some(100));
    assert_eq!(inputs.create(13, 2, 0, Some(focus)), None);
    inputs.inputs[0].enable();
    assert!(inputs.commit(0));
    assert_eq!(inputs.in_use(0, Some(100)), Some(0));
    inputs.inputs[1].enable();
    assert!(!inputs.commit(1));
    assert_eq!(inputs.inputs[1].commit_serial, 1);
    assert_eq!(inputs.in_use(0, Some(100)), Some(0));
    inputs.inputs[0].disable();
    assert!(inputs.commit(0));
    assert_eq!(inputs.in_use(0, Some(100)), None);
    assert_eq!(inputs.inputs[0].commit_serial, 2);
}

#[test]
fn focus_changes_are_told_to_text_inputs() {
    let old = Focus {
        surface: 100,
        client: 1,
    };
    let new = Focus {
        surface: 200,
        client: 2,
    };
    let mut inputs = TextInputs::new();
    inputs.create(11, 1, 0, Some(old));
    inputs.create(12, 2, 0, Some(old));
    inputs.inputs[0].enable();
    inputs.commit(0);
    let (events, _) = inputs.focus_changed(0, Some(old), Some(new));
    assert!(matches!(
        events[0],
        FocusEvent::Leave {
            resource: 11,
            surface: 100
        }
    ));
    assert!(matches!(
        events[1],
        FocusEvent::Enter {
            resource: 12,
            surface: 200
        }
    ));
    assert_eq!(events.len(), 2);
    let (_, _) = inputs.focus_changed(0, Some(new), Some(old));
    assert!(!inputs.inputs[0].current.enabled);
    assert!(inputs.inputs[0].current.surrounding_text.is_none());
    assert!(!inputs.destroy(12));
    assert_eq!(inputs.inputs.len(), 1);
}

#[test]
fn edits_reach_the_field_in_use() {
    let focus = Focus {
        surface: 100,
        client: 1,
    };
    let mut inputs = TextInputs::new();
    inputs.create(11, 1, 0, Some(focus));
    inputs.inputs[0].enable();
    inputs.inputs[0].set_surrounding_text("abc", 3, 3);
    inputs.inputs[0].set_text_change_cause(1);
    inputs.inputs[0].set_content_type(1, 2);
    inputs.inputs[0].set_cursor_rectangle(1, 2, 3, 4);
    inputs.commit(0);
    let anchor = inputs.inputs[0].cursor_anchor().unwrap();
    assert_eq!(anchor.surface, 100);
    assert_eq!(anchor.rect, Some((1, 2, 3, 4)));
    let shown = inputs.inputs[0].state_on_desktop(Some(Point { x: 10, y: 20 }));
    assert_eq!(shown.cursor_rect, Some((11, 22, 3, 4)));
    let (handed, at) = inputs
        .handed_on(0, Some(100), Some(Point { x: 10, y: 20 }))
        .unwrap();
    assert_eq!(handed.cursor_rect, Some((11, 22, 3, 4)));
    assert_eq!(at.unwrap().surface, 100);
    assert!(inputs.handed_on(0, Some(101), None).is_none());
    assert!(inputs.handed_on(0, None, None).is_none());
    let sent = inputs.forward(Some(focus), &TextInputEvent::Done);
    assert_eq!(sent.len(), 1);
    assert_eq!(sent[0].0, 11);
    assert!(matches!(sent[0].1, TextInputMessage::Done(1)));
    assert!(inputs.forward(None, &TextInputEvent::Done).is_empty());
}

fn ready_method() -> InputMethod {
    InputMethod::new(21, 7, 0, false)
}

#[test]
fn input_methods_follow_the_text_field() {
    let mut method = ready_method();
    let messages = method.publish(context_field(), None);
    assert!(matches!(messages[0], InputMethodMessage::Activate));
    match &messages[1] {
        InputMethodMessage::SurroundingText {
            text,
            cursor,
            anchor,
        } => {
            assert_eq!(text, "context");
            assert_eq!((*cursor, *anchor), (7, 7));
        }
        other => panic!("{other:?}"),
    }
    assert!(matches!(
        messages.last(),
        Some(InputMethodMessage::Done)
    ));
    assert_eq!(method.done_count, 1);
    method.commit_string("x");
    method.set_preedit("y", 0, 1);
    method.delete_surrounding(1, 2);
    let edits = method.commit(true);
    assert!(matches!(
        edits.last(),
        Some(TextInputEvent::Done)
    ));
    assert_eq!(edits.len(), 4);
    let messages = method.publish(TextInputState::none(), None);
    assert!(matches!(messages[0], InputMethodMessage::Deactivate));
    assert!(!method.active);
    assert!(method.pending.commit.is_none());
}

#[test]
fn one_input_method_is_available_per_session() {
    let mut methods = Vec::new();
    assert!(add_input_method(&mut methods, 1, 5, 0));
    assert!(!add_input_method(&mut methods, 2, 6, 0));
    assert_eq!(active_input_method(&methods), Some(0));
    assert_eq!(methods[0].grab_keyboard(77), Some(None));
    assert_eq!(key_receiver(&methods), Some(77));
    methods[0].keyboard_grab_destroyed(77);
    assert_eq!(key_receiver(&methods), None);
    assert_eq!(methods[0].add_popup(8, 80, true), PopupAnswer::RoleTaken);
    assert_eq!(methods[0].add_popup(8, 80, false), PopupAnswer::Created);
    assert!(methods[0].popup_surfaces().is_empty());
    methods[0].publish(context_field(), None);
    assert_eq!(methods[0].popup_surfaces(), vec![80]);
    methods[0].remove_popup(8);
    assert!(methods[0].popup_surfaces().is_empty());
    assert_eq!(methods[1].add_popup(9, 90, false), PopupAnswer::Ignored);
}

#[test]
fn text_fields_are_routed_to_the_available_method() {
    let mut methods = Vec::new();
    let mut queue = Vec::new();
    assert!(route_text_input_state(&mut methods, context_field(), None).is_none());
    assert!(
        route_or_queue_text_input_state(&mut methods, &mut queue, context_field(), None).is_none()
    );
    assert_eq!(queue.len(), 1);
    add_input_method(&mut methods, 21, 7, 0);
    add_input_method(&mut methods, 22, 8, 0);
    let mut field = context_field();
    field.enabled = true;
    field.cursor_rect = Some((10, 20, 2, 16));
    let (resource, messages) = route_text_input_state(&mut methods, field, None).unwrap();
    assert_eq!(resource, 21);
    assert!(matches!(messages.first(), Some(InputMethodMessage::Activate)));
    assert!(matches!(messages.last(), Some(InputMethodMessage::Done)));
    assert!(methods[0].active && !methods[1].active);
    let mut field = context_field();
    field.enabled = true;
    field.cursor_rect = Some((10, 20, 2, 16));
    assert!(
        route_or_queue_text_input_state(&mut methods, &mut queue, field, None).is_some()
    );
    assert_eq!(queue.len(), 1);

    let method = &mut methods[0];
    assert_eq!(method.add_popup(8, 80, false), PopupAnswer::Created);
    assert_eq!(method.add_popup(9, 90, false), PopupAnswer::Created);
    method.popup_surface_destroyed(90);
    let size = Size { w: 100, h: 50 };
    let screen = Rect::new(0, 0, 640, 480);
    let placed = method.place_popups(None, &[size, size], &[screen], screen, false);
    assert_eq!(placed.len(), 1);
    assert_eq!((placed[0].resource, placed[0].surface), (8, 80));
    assert_eq!(placed[0].position, Point { x: 10, y: 36 });
    assert_eq!(placed[0].text_input_rectangle, Some((0, -16, 2, 16)));
    let again = method.place_popups(None, &[size, size], &[screen], screen, false);
    assert_eq!(again[0].text_input_rectangle, None);
    let forced = method.place_popups(None, &[size, size], &[screen], screen, true);
    assert_eq!(forced[0].text_input_rectangle, Some((0, -16, 2, 16)));

    method.grab_keyboard(33);
    let keyboard = |resource, client| VirtualKeyboard {
        resource,
        client,
        seat: 0,
        keymap_set: false,
    };
    let keyboards = [keyboard(1, 7), keyboard(2, 8), keyboard(3, 7)];
    assert!(remove_input_method(&mut methods, 99, &keyboards).is_none());
    let end = remove_input_method(&mut methods, 21, &keyboards).unwrap();
    assert_eq!(end.keyboard_grab, Some(33));
    assert_eq!(end.popups, vec![8, 9]);
    assert_eq!(end.keyboards, vec![1, 3]);
    assert!(end.text_is_free);
    assert_eq!(methods.len(), 1);
    assert_eq!(active_input_method(&methods), None);
    assert!(!remove_input_method(&mut methods, 22, &[]).unwrap().text_is_free);
}

#[test]
fn virtual_keys_need_a_keymap_and_the_input_method() {
    let keyboards = [
        KeyboardResource {
            resource: 1,
            client: 50,
        },
        KeyboardResource {
            resource: 2,
            client: 51,
        },
        KeyboardResource {
            resource: 3,
            client: 50,
        },
    ];
    assert_eq!(client_keyboards(&keyboards, 50), vec![1, 3]);
    let mut keyboard = VirtualKeyboard {
        resource: 9,
        client: 7,
        seat: 0,
        keymap_set: false,
    };
    assert!(keyboard.authorized(Some(7)));
    assert!(!keyboard.authorized(Some(8)));
    assert!(!keyboard.authorized(None));
    let mut pressed = HashSet::new();
    assert_eq!(
        keyboard.key(Some(7), true, &mut pressed, 30, 1, Some(50), &keyboards),
        Err(NoKeymap)
    );
    assert_eq!(
        keyboard.modifiers(Some(7), true, Some(50), &keyboards),
        Err(NoKeymap)
    );
    keyboard.keymap(Some(7), 1, 100);
    assert!(keyboard.keymap_set);
    assert_eq!(
        keyboard.key(Some(7), true, &mut pressed, 30, 1, Some(50), &keyboards),
        Ok(vec![1, 3])
    );
    assert!(pressed.contains(&30));
    assert_eq!(
        keyboard.key(Some(7), true, &mut pressed, 30, 1, Some(50), &keyboards),
        Ok(vec![])
    );
    assert_eq!(
        keyboard.key(Some(8), true, &mut pressed, 30, 0, Some(50), &keyboards),
        Ok(vec![])
    );
    assert!(pressed.contains(&30));
    assert_eq!(
        keyboard.key(Some(7), true, &mut pressed, 30, 0, Some(50), &keyboards),
        Ok(vec![1, 3])
    );
    assert!(pressed.is_empty());
}

#[test]
fn logical_keys_change_once() {
    let mut pressed = HashSet::new();
    assert!(apply_logical_key_state(&mut pressed, 3, true));
    assert!(!apply_logical_key_state(&mut pressed, 3, true));
    assert!(apply_logical_key_state(&mut pressed, 3, false));
    assert!(!apply_logical_key_state(&mut pressed, 3, false));
}
