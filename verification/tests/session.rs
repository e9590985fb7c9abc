//! Idleness, the session lock, activation, and what clients do with pointers.

use tessera::extensions::activation::{
    activation_takes_effect, token_text, ActivationTokens, AlreadyUsed, CommitContext,
    TokenRequest, ACTIVATION_TOKEN_TTL_MS, MAX_ACTIVATION_TOKENS,
};
use tessera::extensions::idle::{IdleEvent, IdleState, HUMAN_SEAT};
use tessera::extensions::keyboard_shortcuts::{
    InhibitAnswer, InhibitError, InhibitorEvent, ShortcutsInhibitors,
};
use tessera::extensions::output::{
    describe_output, finish_xdg_output_batch, xdg_output_batch_done, LogicalGeometry,
    XdgOutputBatchDone, XdgOutputs,
};
use tessera::extensions::pointer_constraints::{
    within, ConstraintAnswer, ConstraintEvent, MotionRule, PointerConstraint,
    PointerConstraints, LIFETIME_ONESHOT, LIFETIME_PERSISTENT,
};
use tessera::extensions::pointer_gestures::{
    origin_seat, GestureAnswer, PointerGestureKind, PointerListeners,
};
use tessera::extensions::session_lock::{
    output_named, reconfigure, LockAnswer, LockCommitError, LockError, LockOutput,
    LockSurfaceError, SessionLock, SessionLockPhase, SessionLockState, SurfaceLock,
};
use tessera::extensions::tablet::{
    describe_tool, list_capabilities, split, TabletSeatAnswer, TabletToolInfo, Tablets,
};
use tessera::extensions::toplevel_drag::{
    get_drag, DragError, DragInProgress, GetDragAnswer, ToplevelDrag,
};
use tessera::geometry::{Point, Rect, Size};

#[test]
fn legacy_xdg_output_batches_end_on_the_xdg_resource() {
    assert_eq!(xdg_output_batch_done(1, 4), XdgOutputBatchDone::XdgOutput);
    assert_eq!(xdg_output_batch_done(2, 4), XdgOutputBatchDone::XdgOutput);
}

#[test]
fn xdg_output_v3_batches_end_with_a_second_wl_output_done() {
    assert_eq!(xdg_output_batch_done(3, 4), XdgOutputBatchDone::WlOutput);
}

#[test]
fn xdg_output_v3_falls_back_for_wl_output_v1() {
    assert_eq!(xdg_output_batch_done(3, 1), XdgOutputBatchDone::XdgOutput);
}

#[test]
fn outputs_are_described_to_clients() {
    let own = LogicalGeometry {
        origin: Point { x: 5, y: 6 },
        size: Size { w: 700, h: 800 },
    };
    let told = describe_output(Some(("DP-1", own)), None, 2);
    assert_eq!((told.origin, told.size), (own.origin, own.size));
    assert_eq!(told.name.as_deref(), Some("DP-1"));
    assert_eq!(describe_output(Some(("DP-1", own)), None, 1).name, None);
    assert_eq!(
        describe_output(Some(("D\0", own)), None, 3).name.as_deref(),
        Some("output")
    );
    assert_eq!(
        describe_output(None, Some(own), 3).name.as_deref(),
        Some("unknown")
    );
    assert_eq!(
        finish_xdg_output_batch(3, None),
        XdgOutputBatchDone::XdgOutput
    );
    let mut outputs = XdgOutputs::new();
    outputs.add_output(1, 10);
    outputs.add_output(2, 10);
    outputs.destroy_output(1);
    assert_eq!(outputs.resources, vec![2]);
    assert_eq!(outputs.links.get(&1), None);
    assert_eq!(outputs.links.get(&2), Some(&10));
}

fn constraint(active: bool, locked: bool, surface: u64) -> PointerConstraint {
    PointerConstraint {
        resource: 1,
        surface,
        pointer: 0,
        locked,
        lifetime: 1,
        active,
        consumed: false,
        region: None,
        cursor_hint: None,
    }
}

#[test]
fn only_an_active_constraint_on_the_focused_surface_governs_the_pointer() {
    let surface = 0x100;
    let other = 0x200;
    assert!(constraint(true, true, surface).governs(surface));
    assert!(
        !constraint(false, true, surface).governs(surface),
        "an unfocused (inactive) lock must not hold the pointer"
    );
    assert!(!constraint(true, true, other).governs(surface));
}

#[test]
fn a_confine_governs_but_never_locks() {
    let surface = 0x100;
    let confine = constraint(true, false, surface);
    assert!(confine.governs(surface));
    assert!(!confine.locked);
    let lock = constraint(true, true, surface);
    assert!(lock.governs(surface) && lock.locked);
}

#[test]
fn oneshot_constraints_end_with_the_focus() {
    let mut constraints = PointerConstraints::new();
    assert_eq!(
        constraints.create(1, 100, 9, true, LIFETIME_ONESHOT, None, true, Some(100)),
        ConstraintAnswer::Active
    );
    assert_eq!(
        constraints.create(2, 100, 9, true, LIFETIME_ONESHOT, None, true, Some(100)),
        ConstraintAnswer::AlreadyConstrained
    );
    assert!(constraints.pointer_lock_active(Some(100)));
    constraints.set_region(0, Some(vec![Rect::new(1, 2, 3, 4)]));
    assert_eq!(
        constraints.constraints[0].region,
        Some(vec![Rect::new(1, 2, 3, 4)])
    );
    constraints.set_cursor_hint(0, 7, 8);
    let (events, hint) = constraints.focus_changed(Some(100), None);
    assert_eq!(
        events,
        vec![ConstraintEvent {
            resource: 1,
            locked: true,
            holds: false
        }]
    );
    assert_eq!(hint, Some((7, 8)));
    assert!(!constraints.pointer_lock_active(Some(100)));
    let (events, _) = constraints.focus_changed(None, Some(100));
    assert!(events.is_empty());
}

#[test]
fn persistent_constraints_come_back_with_the_focus() {
    let mut constraints = PointerConstraints::new();
    assert_eq!(
        constraints.create(1, 100, 9, false, LIFETIME_PERSISTENT, None, true, None),
        ConstraintAnswer::Waiting
    );
    let (events, _) = constraints.focus_changed(None, Some(100));
    assert!(events[0].holds && !events[0].locked);
    match constraints.motion_rule(Some(100), Some(Size { w: 30, h: 40 })) {
        MotionRule::Within(bounds) => {
            assert!(within(&bounds, Point { x: 0, y: 39 }));
            assert!(!within(&bounds, Point { x: 30, y: 0 }));
        }
        other => panic!("{other:?}"),
    }
    constraints.focus_changed(Some(100), None);
    let (events, _) = constraints.focus_changed(None, Some(100));
    assert_eq!(events.len(), 1);
    constraints.destroy(1);
    assert!(matches!(
        constraints.motion_rule(Some(100), None),
        MotionRule::Free
    ));
}

#[test]
fn locks_freeze_the_pointer() {
    let mut constraints = PointerConstraints::new();
    constraints.create(1, 100, 9, true, LIFETIME_PERSISTENT, None, true, Some(100));
    assert!(matches!(
        constraints.motion_rule(Some(100), Some(Size { w: 1, h: 1 })),
        MotionRule::Frozen
    ));
    assert_eq!(
        constraints.create(2, 101, 9, true, LIFETIME_ONESHOT, None, false, None),
        ConstraintAnswer::Ignored
    );
    assert!(within(&[Rect::new(0, 0, 2, 2)], Point { x: 1, y: 1 }));
}

fn earned_context(serial: u32, now_ms: u64) -> CommitContext {
    CommitContext {
        serial,
        seat_present: true,
        focus_client: Some(5),
        surface_client: 5,
        last_button_serial: 40,
        now_ms,
    }
}

fn earned_token(tokens: &mut ActivationTokens, serial: u32, now_ms: u64) -> String {
    let mut request = TokenRequest::new(5);
    request.set_serial(40, Some(2), 5, 40);
    request.set_surface(5, Some(5));
    request.commit(tokens, earned_context(serial, now_ms)).unwrap()
}

#[test]
fn tokens_are_redeemed_once() {
    let mut tokens = ActivationTokens::new();
    let text = earned_token(&mut tokens, 1, 0);
    assert_eq!(text, token_text(1));
    assert_eq!(tokens.redeem(&text), Some(2));
    assert_eq!(tokens.redeem(&text), None);
}

#[test]
fn tokens_expire() {
    let mut tokens = ActivationTokens::new();
    earned_token(&mut tokens, 1, 0);
    tokens.expire(ACTIVATION_TOKEN_TTL_MS - 1);
    assert_eq!(tokens.tokens.len(), 1);
    tokens.expire(ACTIVATION_TOKEN_TTL_MS + 1);
    assert!(tokens.tokens.is_empty());
}

#[test]
fn tokens_serve_their_own_client_once() {
    let mut tokens = ActivationTokens::new();
    earned_token(&mut tokens, 1, 0);
    let text = tokens.tokens[0].text.clone();
    let seat = tokens.tokens[0].seat;
    assert_eq!(tokens.activate(&text, 9, None), None);
    assert_eq!(tokens.activate(&text, 9, Some(8)), None);
    assert_eq!(tokens.tokens.len(), 1);
    assert_eq!(tokens.activate("unknown", 9, Some(9)), None);
    assert_eq!(tokens.activate(&text, 9, Some(9)), Some(seat));
    assert_eq!(tokens.activate(&text, 9, Some(9)), None);
}

#[test]
fn tokens_are_limited_in_number() {
    let mut tokens = ActivationTokens::new();
    for serial in 0..MAX_ACTIVATION_TOKENS as u32 + 3 {
        earned_token(&mut tokens, serial, 0);
    }
    assert_eq!(tokens.tokens.len(), MAX_ACTIVATION_TOKENS);
    assert_eq!(tokens.redeem(&token_text(0)), None);
}

#[test]
fn token_requests_are_used_once() {
    let mut tokens = ActivationTokens::new();
    let mut request = TokenRequest::new(5);
    assert_eq!(request.set_app_id(), Ok(()));
    request.commit(&mut tokens, earned_context(7, 0)).unwrap();
    assert!(tokens.tokens.is_empty());
    assert!(matches!(
        request.commit(&mut tokens, earned_context(8, 0)),
        Err(AlreadyUsed)
    ));
    assert_eq!(request.set_app_id(), Err(AlreadyUsed));
    assert_ne!(token_text(1), token_text(16));
    assert!(!activation_takes_effect(false, Some(true)));
    assert!(activation_takes_effect(true, Some(true)));
    assert!(!activation_takes_effect(true, Some(false)));
}

const MS: u64 = 1_000_000;

#[test]
fn notifications_fire_after_their_timeout() {
    let mut state = IdleState::new();
    state.create_notification(1, HUMAN_SEAT, 100, 0, false);
    assert!(state.update(false, 99 * MS).is_empty());
    assert_eq!(
        state.update(false, 100 * MS),
        vec![IdleEvent {
            resource: 1,
            idled: true
        }]
    );
    assert!(state.update(false, 200 * MS).is_empty());
    assert_eq!(
        state.user_activity(210 * MS),
        vec![IdleEvent {
            resource: 1,
            idled: false
        }]
    );
    assert!(state.update(false, 309 * MS).is_empty());
    assert_eq!(state.update(false, 310 * MS).len(), 1);
    state.destroy_notification(1);
    assert!(state.notifications.is_empty());
}

#[test]
fn inhibitors_hold_off_idleness_of_shown_surfaces() {
    let mut state = IdleState::new();
    state.create_inhibitor(3, 30);
    state.create_notification(1, HUMAN_SEAT, 100, 0, false);
    state.create_notification(2, HUMAN_SEAT, 100, 0, true);
    assert!(state.inhibited(false, false, &[30]));
    assert!(!state.inhibited(false, false, &[31]));
    assert!(!state.inhibited(true, false, &[30]));
    let events = state.update(true, 500 * MS);
    assert_eq!(
        events,
        vec![IdleEvent {
            resource: 2,
            idled: true
        }]
    );
    state.surface_destroyed(30);
    assert!(!state.inhibited(false, false, &[30]));
    state.destroy_inhibitor(3);
    assert!(state.inhibitors.is_empty());
}

#[test]
fn shortcut_inhibitors_follow_the_focus() {
    let mut inhibitors = ShortcutsInhibitors::new();
    assert_eq!(
        inhibitors.inhibit(1, 10, 100, Some(2), Some(1), true, None),
        Err(InhibitError::ForeignObject)
    );
    assert_eq!(
        inhibitors.inhibit(1, 10, 100, Some(1), Some(1), true, None),
        Ok(InhibitAnswer::Waiting)
    );
    assert_eq!(
        inhibitors.inhibit(1, 11, 100, Some(1), Some(1), true, None),
        Err(InhibitError::AlreadyInhibited)
    );
    assert_eq!(
        inhibitors.inhibit(1, 12, 200, Some(1), Some(1), true, Some(200)),
        Ok(InhibitAnswer::Active)
    );
    assert!(inhibitors.inhibited(Some(200)));
    let events = inhibitors.focus_changed(Some(100));
    assert!(events.contains(&InhibitorEvent {
        resource: 10,
        active: true
    }));
    assert!(events.contains(&InhibitorEvent {
        resource: 12,
        active: false
    }));
    assert!(inhibitors.focus_changed(Some(100)).is_empty());
    assert_eq!(inhibitors.surface_destroyed(100).len(), 1);
    inhibitors.destroy(10);
    inhibitors.destroy(12);
    assert!(inhibitors.inhibitors.is_empty());
}

fn lock_output() -> LockOutput {
    LockOutput {
        connector: "DP-1".to_owned(),
        size: Size { w: 800, h: 600 },
        origin: Point { x: 0, y: 0 },
    }
}

#[test]
fn locked_session_stays_locked_without_its_client() {
    let mut state = SessionLockState::new();
    assert_eq!(
        state.request_lock(1, 9, Some(70), true, 5),
        LockAnswer::Securing
    );
    assert!(state.phase.is_active());
    assert!(!state.phase.is_confirmed());
    assert_eq!(state.unlock(1), Err(LockError::NeverLocked));
    assert_eq!(state.request_lock(2, 10, None, true, 6), LockAnswer::Finished);
    assert_eq!(state.presented(), None);
    assert!(!state.phase.is_confirmed());
    state.phase.request_secure_frame();
    assert_eq!(state.presented(), Some(1));
    assert_eq!(state.presented(), None);
    assert!(state.phase.is_confirmed());
    assert!(state.is_lock_client(9));
    assert_eq!(state.check_destroy(1), Err(LockError::StillLocked));
    state.lock_destroyed(1);
    assert!(state.phase.is_active());
    assert_eq!(
        state.request_lock(3, 11, None, true, 7),
        LockAnswer::TakenOver
    );
    assert!(state.phase.is_active());
    state.unlock(3).unwrap();
    assert_eq!(state.phase, SessionLockPhase::Unlocked);
}

#[test]
fn sessions_without_outputs_lock_at_once() {
    let mut state = SessionLockState::new();
    assert_eq!(
        state.request_lock(1, 9, None, false, 0),
        LockAnswer::LockedAtOnce
    );
    assert!(state.phase.is_confirmed());
    let mut other = SessionLockState::new();
    other.request_lock(1, 9, None, true, 0);
    assert_eq!(other.outputs_changed(false), Some(1));
    assert!(other.phase.is_confirmed());
}

#[test]
fn lock_surfaces_cover_their_outputs() {
    let outputs = [lock_output()];
    let mut state = SessionLockState::new();
    state.request_lock(1, 9, None, true, 0);
    let lock = state.lock.as_mut().unwrap();
    assert_eq!(
        lock.add_surface(2, 20, true, false, Some(&outputs[0]), 1),
        Err(LockSurfaceError::RoleTaken)
    );
    assert_eq!(
        lock.add_surface(2, 20, false, true, Some(&outputs[0]), 1),
        Err(LockSurfaceError::AlreadyConstructed)
    );
    assert_eq!(
        lock.add_surface(2, 20, false, false, None, 1),
        Err(LockSurfaceError::UnknownOutput)
    );
    assert_eq!(
        lock.add_surface(2, 20, false, false, Some(&outputs[0]), 1),
        Ok(Size { w: 800, h: 600 })
    );
    assert_eq!(
        lock.add_surface(3, 21, false, false, Some(&outputs[0]), 2),
        Err(LockSurfaceError::DuplicateOutput)
    );
    let surface = &mut lock.surfaces[0];
    let size = Size { w: 800, h: 600 };
    assert_eq!(
        surface.check_commit(true, size),
        Err(LockCommitError::BeforeFirstAck)
    );
    assert!(!surface.ack(9));
    assert!(surface.ack(1));
    assert_eq!(
        surface.check_commit(false, size),
        Err(LockCommitError::NullBuffer)
    );
    assert_eq!(
        surface.check_commit(true, Size { w: 1, h: 1 }),
        Err(LockCommitError::DimensionsMismatch)
    );
    assert_eq!(surface.check_commit(true, size), Ok(()));
    assert_eq!(
        reconfigure(surface, &outputs),
        Some((Point { x: 0, y: 0 }, None))
    );
    surface.configure(4, Size { w: 100, h: 100 });
    assert!(surface.ack(4));
    lock.surfaces[0].surface_gone();
    assert_eq!(lock.surfaces[0].surface, None);
    lock.remove_surface(99);
    assert_eq!(lock.surfaces.len(), 1);
    lock.remove_surface(2);
    assert!(lock.surfaces.is_empty());
    assert_eq!(
        lock.add_surface(3, 21, false, false, Some(&outputs[0]), 2),
        Ok(Size { w: 800, h: 600 })
    );
}

#[test]
fn lock_surfaces_are_judged_with_their_own_lock() {
    let outputs = [lock_output()];
    let mut state = SessionLockState::new();
    assert!(state.request_lock(1, 9, None, true, 0).begins_lock());
    let refused_answer = state.request_lock(2, 10, None, true, 0);
    assert_eq!(refused_answer, LockAnswer::Finished);
    assert!(!refused_answer.begins_lock());
    let mut refused = SessionLock {
        resource: 2,
        client: 10,
        surfaces: Vec::new(),
        locked_sent: false,
        finished_sent: true,
    };
    refused
        .add_surface(5, 50, false, false, Some(&outputs[0]), 1)
        .unwrap();
    assert!(refused.surfaces[0].ack(1));
    refused.surfaces[0].mapped = true;
    assert!(!state.surface_committed(SurfaceLock::Holding, 50, &outputs));
    assert!(!state.surface_committed(SurfaceLock::Gone, 50, &outputs));
    assert!(!state.phase.frame_pending());
    assert!(state.surface_committed(SurfaceLock::Refused(&refused), 50, &outputs));
    assert!(state.phase.frame_pending());
    assert_eq!(state.pending_lock_focus, Some(50));
    assert_eq!(output_named(&outputs[0].connector, &outputs), Some(0));
    assert_eq!(output_named("none", &outputs), None);
}

#[test]
fn drags_carry_toplevels() {
    assert_eq!(get_drag(1, Some(1), true, false), GetDragAnswer::Created);
    assert_eq!(get_drag(1, Some(1), true, true), GetDragAnswer::InvalidSource);
    assert_eq!(get_drag(1, Some(2), true, false), GetDragAnswer::Ignored);
    let mut drag = ToplevelDrag::new(5);
    let mut progress = Some(DragInProgress {
        source: 5,
        attached_toplevel: None,
        toplevel_offset: (0, 0),
    });
    let place = drag
        .attach(&mut progress, 1, 60, Some(1), (4, 6), (100, 100))
        .unwrap();
    assert_eq!(place, Some(Point { x: 96, y: 94 }));
    assert_eq!(drag.check_destroy(), Err(DragError::OngoingDrag));
    assert_eq!(
        drag.attach(&mut progress, 1, 61, Some(1), (0, 0), (0, 0)),
        Err(DragError::ToplevelAttached)
    );
    drag.ended = true;
    assert_eq!(drag.check_destroy(), Ok(()));
    drag.detach(&mut progress);
    assert_eq!(progress.unwrap().attached_toplevel, None);
}

#[test]
fn pointer_listeners_are_kept_by_kind() {
    let mut listeners = PointerListeners::new();
    assert_eq!(
        listeners.create_gesture(1, 10, Some(2), true, PointerGestureKind::Swipe),
        GestureAnswer::ForeignPointer
    );
    assert_eq!(
        listeners.create_gesture(1, 10, Some(1), true, PointerGestureKind::Swipe),
        GestureAnswer::Created
    );
    assert_eq!(
        listeners.create_gesture(1, 11, Some(1), false, PointerGestureKind::Hold),
        GestureAnswer::Ignored
    );
    assert_eq!(listeners.swipes, vec![10]);
    assert!(listeners.create_relative_pointer(12, true));
    assert!(!listeners.create_relative_pointer(13, false));
    listeners.destroy_relative_pointer(12);
    listeners.destroy_gesture(10, PointerGestureKind::Swipe);
    assert!(listeners.swipes.is_empty() && listeners.relative_pointers.is_empty());
    assert_eq!(origin_seat(None, 4), 4);
    assert_eq!(origin_seat(Some(3), 4), 3);
}

#[test]
fn tools_are_described_in_halves() {
    assert_eq!(split(0x1234_5678_9abc_def0), (0x1234_5678, 0x9abc_def0));
    let info = TabletToolInfo {
        kind: 0x140,
        serial: 0x1_0000_0002,
        hardware_id: 3,
        capabilities: 0b101,
    };
    let told = describe_tool(9, &info);
    assert_eq!(told.serial, (1, 2));
    assert_eq!(told.hardware_id, (0, 3));
    assert_eq!(told.capabilities, list_capabilities(0b101));
    let mut tablets = Tablets::new();
    assert_eq!(
        tablets.create_seat(1, 5, Some(2), true),
        TabletSeatAnswer::ForeignSeat
    );
    assert_eq!(
        tablets.create_seat(1, 5, Some(1), false),
        TabletSeatAnswer::Ignored
    );
    assert_eq!(
        tablets.create_seat(1, 5, Some(1), true),
        TabletSeatAnswer::Created
    );
    assert!(!tablets.announce().tablet);
    tablets.tablet_device_seen = true;
    tablets.known_tools.push((9, info));
    assert!(tablets.announce().tablet);
    assert_eq!(tablets.announce().tools.len(), 1);
    tablets.add_device(6);
    tablets.add_tool(7);
    tablets.destroy_device(6);
    tablets.destroy_tool(7);
    tablets.destroy_seat(5);
    assert!(tablets.seats.is_empty() && tablets.devices.is_empty() && tablets.tools.is_empty());
}
