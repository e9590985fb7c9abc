//! Clients that lock the pointer in place or confine it to a region.

use vstd::prelude::*;
use crate::geometry::{Point, Rect, Size};
use crate::seqs::{first_where, lemma_first_where, lemma_none_where};

verus! {

/// A constraint that ends with the focus.
pub const LIFETIME_ONESHOT: u32 = 1;

/// A constraint that comes back with the focus.
pub const LIFETIME_PERSISTENT: u32 = 2;

/// A client's constraint on the pointer.
#[derive(Debug)]
pub struct PointerConstraint {
    pub resource: u64,
    pub surface: u64,
    pub pointer: u64,
    /// Whether the pointer is locked in place, rather than confined.
    pub locked: bool,
    pub lifetime: u32,
    pub active: bool,
    /// Whether the constraint has ended for good.
    pub consumed: bool,
    /// The region, where there is one; the whole surface otherwise.
    pub region: Option<Vec<Rect>>,
    /// Where on the surface the pointer is to come back, in the protocol's 24.8
    /// fixed point.
    pub cursor_hint: Option<(i32, i32)>,
}

/// What a client is told: that its constraint holds, or no longer does.
#[derive(Debug, Clone, Copy, PartialEq, Eq, Structural)]
pub struct ConstraintEvent {
    pub resource: u64,
    pub locked: bool,
    pub holds: bool,
}

/// The constraints of a seat.
#[derive(Debug)]
pub struct PointerConstraints {
    pub constraints: Vec<PointerConstraint>,
}

/// What asking for a constraint leads to.
#[derive(Debug, Clone, Copy, PartialEq, Eq, Structural)]
pub enum ConstraintAnswer {
    /// The seat cannot be used, or the lifetime is unknown; nothing happens.
    Ignored,
    /// The surface constrains the pointer already.
    AlreadyConstrained,
    /// The constraint will hold once the surface has the focus.
    Waiting,
    /// The constraint holds at once.
    Active,
}

/// What the constraints say of a motion.
#[derive(Debug)]
pub enum MotionRule {
    /// The pointer goes where it wants.
    Free,
    /// The pointer stays where it is.
    Frozen,
    /// The pointer stays within the given parts of the surface.
    Within(Vec<Rect>),
}

impl PointerConstraint {
    /// Whether the constraint holds the pointer on a surface.
    pub open spec fn rules(self, focus: u64) -> bool {
        self.active && self.surface == focus
    }

    /// Whether the constraint holds the pointer on a surface: only while it is
    /// active, and only on its own.
    pub fn governs(&self, focus: u64) -> (answer: bool)
        ensures
            answer == self.rules(focus),
    {
        self.active && self.surface == focus
    }

    /// Whether a focus change ends the constraint for now.
    pub open spec fn released(self, old_focus: Option<u64>) -> bool {
        self.active && old_focus == Some(self.surface)
    }

    /// The constraint once the old focus has been left.
    pub open spec fn after_leave(self, old_focus: Option<u64>) -> PointerConstraint {
        if self.released(old_focus) {
            PointerConstraint {
                active: false,
                consumed: self.consumed || self.lifetime == LIFETIME_ONESHOT,
                ..self
            }
        } else {
            self
        }
    }

    /// Whether a focus change puts the constraint into effect.
    pub open spec fn engaged(self, new_focus: Option<u64>) -> bool {
        !self.active && !self.consumed && new_focus == Some(self.surface)
    }

    /// The constraint after a focus change.
    pub open spec fn after_change(
        self,
        old_focus: Option<u64>,
        new_focus: Option<u64>,
    ) -> PointerConstraint {
        let left = self.after_leave(old_focus);
        if left.engaged(new_focus) {
            PointerConstraint { active: true, ..left }
        } else {
            left
        }
    }

    /// What the client is told of a focus change.
    pub open spec fn events(self, old_focus: Option<u64>, new_focus: Option<u64>) -> Seq<
        ConstraintEvent,
    > {
        (if self.released(old_focus) {
            seq![
                ConstraintEvent { resource: self.resource, locked: self.locked, holds: false },
            ]
        } else {
            Seq::empty()
        }) + (if self.after_leave(old_focus).engaged(new_focus) {
            seq![ConstraintEvent { resource: self.resource, locked: self.locked, holds: true }]
        } else {
            Seq::empty()
        })
    }
}

/// The constraints after a focus change.
pub open spec fn all_changed(
    list: Seq<PointerConstraint>,
    old_focus: Option<u64>,
    new_focus: Option<u64>,
) -> Seq<PointerConstraint> {
    Seq::new(list.len(), |i: int| list[i].after_change(old_focus, new_focus))
}

/// What clients are told of a focus change, in order.
pub open spec fn change_events(
    list: Seq<PointerConstraint>,
    old_focus: Option<u64>,
    new_focus: Option<u64>,
) -> Seq<ConstraintEvent>
    decreases list.len(),
{
    if list.len() == 0 {
        Seq::empty()
    } else {
        change_events(list.drop_last(), old_focus, new_focus) + list.last().events(
            old_focus,
            new_focus,
        )
    }
}

/// Where on the surface that lost the focus the pointer is to come back: where
/// the last lock that ended says.
pub open spec fn hint_of(list: Seq<PointerConstraint>, old_focus: Option<u64>) -> Option<(i32, i32)>
    decreases list.len(),
{
    if list.len() == 0 {
        None
    } else {
        let last = list.last();
        if last.released(old_focus) && last.locked && last.cursor_hint is Some {
            last.cursor_hint
        } else {
            hint_of(list.drop_last(), old_focus)
        }
    }
}

/// Whether a surface constrains a pointer already.
pub open spec fn constrained(list: Seq<PointerConstraint>, surface: u64, pointer: u64) -> bool {
    exists|i: int|
        0 <= i < list.len() && (#[trigger] list[i]).surface == surface && list[i].pointer == pointer
}

/// Whether the constraint at `index` is the one that holds the pointer.
pub open spec fn is_governing(list: Seq<PointerConstraint>, focus: u64, index: int) -> bool {
    &&& 0 <= index < list.len()
    &&& list[index].rules(focus)
    &&& forall|i: int| 0 <= i < index ==> !(#[trigger] list[i]).rules(focus)
}

/// Whether the constraint that holds the pointer on a surface is a lock.
pub open spec fn lock_holds(list: Seq<PointerConstraint>, focus: Option<u64>) -> bool {
    focus is Some && exists|i: int| #[trigger]
        is_governing(list, focus->0, i) && list[i].locked
}

/// Whether no constraint holds the pointer.
pub open spec fn ungoverned(list: Seq<PointerConstraint>, focus: u64) -> bool {
    forall|i: int| 0 <= i < list.len() ==> !(#[trigger] list[i]).rules(focus)
}

fn copy_rects(rects: &Vec<Rect>) -> (copy: Vec<Rect>)
    ensures
        copy@ == rects@,
{
    let mut copy: Vec<Rect> = Vec::new();
    let mut index: usize = 0;
    while index < rects.len()
        invariant
            index <= rects.len(),
            copy@ == rects@.take(index as int),
        decreases rects.len() - index,
    {
        copy.push(rects[index]);
        index += 1;
    }
    assert(rects@.take(rects.len() as int) =~= rects@);
    copy
}

impl PointerConstraints {
    /// No constraints.
    pub fn new() -> (constraints: PointerConstraints)
        ensures
            constraints.constraints@.len() == 0,
    {
        PointerConstraints { constraints: Vec::new() }
    }

    /// A client asks for a constraint.
    pub fn create(
        &mut self,
        resource: u64,
        surface: u64,
        pointer: u64,
        locked: bool,
        lifetime: u32,
        region: Option<Vec<Rect>>,
        seat_usable: bool,
        focus: Option<u64>,
    ) -> (answer: ConstraintAnswer)
        ensures
            answer == if !seat_usable || (lifetime != LIFETIME_ONESHOT && lifetime
                != LIFETIME_PERSISTENT) {
                ConstraintAnswer::Ignored
            } else if constrained(old(self).constraints@, surface, pointer) {
                ConstraintAnswer::AlreadyConstrained
            } else if focus == Some(surface) {
                ConstraintAnswer::Active
            } else {
                ConstraintAnswer::Waiting
            },
            final(self).constraints@ == if answer == ConstraintAnswer::Active || answer
                == ConstraintAnswer::Waiting {
                old(self).constraints@.push(
                    PointerConstraint {
                        resource,
                        surface,
                        pointer,
                        locked,
                        lifetime,
                        active: focus == Some(surface),
                        consumed: false,
                        region,
                        cursor_hint: None,
                    },
                )
            } else {
                old(self).constraints@
            },
    {
        if !seat_usable {
            return ConstraintAnswer::Ignored;
        }
        if lifetime != LIFETIME_ONESHOT && lifetime != LIFETIME_PERSISTENT {
            return ConstraintAnswer::Ignored;
        }
        let mut index: usize = 0;
        while index < self.constraints.len()
            invariant
                index <= self.constraints.len(),
                *self == *old(self),
                seat_usable && (lifetime == LIFETIME_ONESHOT || lifetime == LIFETIME_PERSISTENT),
                forall|i: int|
                    0 <= i < index ==> !((#[trigger] self.constraints@[i]).surface == surface
                        && self.constraints@[i].pointer == pointer),
            decreases self.constraints.len() - index,
        {
            if self.constraints[index].surface == surface && self.constraints[index].pointer
                == pointer {
                assert(self.constraints@[index as int].surface == surface);
                return ConstraintAnswer::AlreadyConstrained;
            }
            index += 1;
        }
        let active = match focus {
            Some(focused) => focused == surface,
            None => false,
        };
        self.constraints.push(
            PointerConstraint {
                resource,
                surface,
                pointer,
                locked,
                lifetime,
                active,
                consumed: false,
                region,
                cursor_hint: None,
            },
        );
        if active {
            ConstraintAnswer::Active
        } else {
            ConstraintAnswer::Waiting
        }
    }

    /// A client changes the region of a constraint; without one, the whole
    /// surface counts.
    pub fn set_region(&mut self, index: usize, region: Option<Vec<Rect>>)
        requires
            index < old(self).constraints@.len(),
        ensures
            final(self).constraints@ == old(self).constraints@.update(
                index as int,
                PointerConstraint { region, ..old(self).constraints@[index as int] },
            ),
    {
        self.constraints[index].region = region;
    }

    /// A client says where on the surface the pointer is to come back. Only
    /// locks do that.
    pub fn set_cursor_hint(&mut self, index: usize, x: i32, y: i32)
        requires
            index < old(self).constraints@.len(),
        ensures
            final(self).constraints@ == old(self).constraints@.update(
                index as int,
                if old(self).constraints@[index as int].locked {
                    PointerConstraint {
                        cursor_hint: Some((x, y)),
                        ..old(self).constraints@[index as int]
                    }
                } else {
                    old(self).constraints@[index as int]
                },
            ),
    {
        if self.constraints[index].locked {
            self.constraints[index].cursor_hint = Some((x, y));
        }
        assert(self.constraints@ =~= old(self).constraints@.update(
            index as int,
            self.constraints@[index as int],
        ));
    }

    /// The pointer's focus moved. The answer holds what clients are told, and
    /// where on the surface that lost the focus the pointer is to come back.
    pub fn focus_changed(&mut self, old_focus: Option<u64>, new_focus: Option<u64>) -> (answer: (
        Vec<ConstraintEvent>,
        Option<(i32, i32)>,
    ))
        ensures
            final(self).constraints@ == all_changed(
                old(self).constraints@,
                old_focus,
                new_focus,
            ),
            answer.0@ == change_events(old(self).constraints@, old_focus, new_focus),
            answer.1 == hint_of(old(self).constraints@, old_focus),
    {
        let mut events: Vec<ConstraintEvent> = Vec::new();
        let mut hint: Option<(i32, i32)> = None;
        let mut index: usize = 0;
        let ghost before = self.constraints@;
        let ghost after = all_changed(before, old_focus, new_focus);
        while index < self.constraints.len()
            invariant
                index <= self.constraints.len(),
                before == old(self).constraints@,
                after == all_changed(before, old_focus, new_focus),
                self.constraints@.len() == before.len(),
                forall|i: int|
                    0 <= i < before.len() ==> #[trigger] self.constraints@[i] == if i < index {
                        after[i]
                    } else {
                        before[i]
                    },
                events@ == change_events(before.take(index as int), old_focus, new_focus),
                hint == hint_of(before.take(index as int), old_focus),
            decreases self.constraints.len() - index,
        {
            let ghost sent = events@;
            let ghost record = before[index as int];
            assert(self.constraints@[index as int] == record);
            let resource: u64 = self.constraints[index].resource;
            let surface: u64 = self.constraints[index].surface;
            let locked = self.constraints[index].locked;
            let left_here = match old_focus {
                Some(focus) => focus == surface,
                None => false,
            };
            let enters_here = match new_focus {
                Some(focus) => focus == surface,
                None => false,
            };
            if self.constraints[index].active && left_here {
                self.constraints[index].active = false;
                events.push(ConstraintEvent { resource, locked, holds: false });
                if locked {
                    if let Some(place) = self.constraints[index].cursor_hint {
                        hint = Some(place);
                    }
                }
                if self.constraints[index].lifetime == LIFETIME_ONESHOT {
                    self.constraints[index].consumed = true;
                }
            }
            if !self.constraints[index].active && !self.constraints[index].consumed && enters_here {
                self.constraints[index].active = true;
                events.push(ConstraintEvent { resource, locked, holds: true });
            }
            proof {
                assert(self.constraints@[index as int] == after[index as int]);
                assert(before.take(index as int + 1).drop_last() =~= before.take(index as int));
                assert(before.take(index as int + 1).last() == record);
                assert(events@ =~= sent + record.events(old_focus, new_focus));
            }
            index += 1;
        }
        proof {
            assert(self.constraints@ =~= after);
            assert(before.take(before.len() as int) =~= before);
        }
        (events, hint)
    }

    fn governing(&self, focus: u64) -> (found: Option<usize>)
        ensures
            match found {
                Some(index) => is_governing(self.constraints@, focus, index as int),
                None => ungoverned(self.constraints@, focus),
            },
    {
        let mut index: usize = 0;
        while index < self.constraints.len()
            invariant
                index <= self.constraints.len(),
                forall|i: int| 0 <= i < index ==> !(#[trigger] self.constraints@[i]).rules(focus),
            decreases self.constraints.len() - index,
        {
            if self.constraints[index].governs(focus) {
                return Some(index);
            }
            index += 1;
        }
        None
    }

    /// Whether the pointer is locked in place. While it is, clients get raw
    /// motion only.
    pub fn pointer_lock_active(&self, focus: Option<u64>) -> (locked: bool)
        ensures
            locked == lock_holds(self.constraints@, focus),
            focus is None ==> !locked,
            focus is Some && ungoverned(self.constraints@, focus->0) ==> !locked,
            forall|i: int|
                focus is Some && #[trigger] is_governing(self.constraints@, focus->0, i) ==> locked
                    == self.constraints@[i].locked,
    {
        match focus {
            None => false,
            Some(focus) => match self.governing(focus) {
                None => false,
                Some(index) => {
                    proof {
                        lemma_one_governs(self.constraints@, focus, index as int);
                    }
                    self.constraints[index].locked
                },
            },
        }
    }

    /// What the constraints say of a motion on the focused surface, whose size
    /// is given while it exists. A lock holds the pointer in place, and so does
    /// an empty region.
    pub fn motion_rule(&self, focus: Option<u64>, surface_size: Option<Size>) -> (rule: MotionRule)
        ensures
            focus is None ==> rule is Free,
            focus is Some && ungoverned(self.constraints@, focus->0) ==> rule is Free,
            forall|i: int|
                focus is Some && #[trigger] is_governing(self.constraints@, focus->0, i)
                    ==> follows(
                    rule,
                    self.constraints@[i],
                    surface_size,
                ),
    {
        match focus {
            None => MotionRule::Free,
            Some(focus) => match self.governing(focus) {
                None => MotionRule::Free,
                Some(index) => {
                    proof {
                        lemma_one_governs(self.constraints@, focus, index as int);
                    }
                    let constraint = &self.constraints[index];
                    if constraint.locked {
                        return MotionRule::Frozen;
                    }
                    match surface_size {
                        None => MotionRule::Free,
                        Some(size) => {
                            let bounds = match &constraint.region {
                                Some(region) => copy_rects(region),
                                None => {
                                    let mut whole: Vec<Rect> = Vec::new();
                                    whole.push(Rect::new(0, 0, size.w, size.h));
                                    whole
                                },
                            };
                            if bounds.len() == 0 {
                                MotionRule::Frozen
                            } else {
                                MotionRule::Within(bounds)
                            }
                        },
                    }
                },
            },
        }
    }

    /// A constraint was destroyed.
    pub fn destroy(&mut self, resource: u64)
        ensures
            match first_with(old(self).constraints@, resource) {
                Some(index) => final(self).constraints@ == old(self).constraints@.remove(index),
                None => final(self).constraints@ == old(self).constraints@,
            },
    {
        let mut index: usize = 0;
        while index < self.constraints.len()
            invariant
                index <= self.constraints.len(),
                *self == *old(self),
                forall|i: int|
                    0 <= i < index ==> (#[trigger] self.constraints@[i]).resource != resource,
            decreases self.constraints.len() - index,
        {
            if self.constraints[index].resource == resource {
                proof {
                    lemma_first_where(
                        self.constraints@,
                        |c: PointerConstraint| c.resource == resource,
                        index as int,
                    );
                }
                self.constraints.remove(index);
                return;
            }
            index += 1;
        }
        proof {
            lemma_none_where(
                self.constraints@,
                |c: PointerConstraint| c.resource == resource,
            );
        }
    }
}

/// The first constraint with the given resource.
pub open spec fn first_with(list: Seq<PointerConstraint>, resource: u64) -> Option<int> {
    first_where(list, |c: PointerConstraint| c.resource == resource)
}

/// What a constraint says of a motion on its surface.
pub open spec fn follows(
    rule: MotionRule,
    constraint: PointerConstraint,
    surface_size: Option<Size>,
) -> bool {
    if constraint.locked {
        rule is Frozen
    } else {
        match surface_size {
            None => rule is Free,
            Some(size) => match constraint.region {
                Some(region) => if region@.len() == 0 {
                    rule is Frozen
                } else {
                    rule matches MotionRule::Within(bounds) && bounds@ == region@
                },
                None => rule matches MotionRule::Within(bounds) && bounds@ == seq![
                    Rect { origin: Point { x: 0, y: 0 }, size },
                ],
            },
        }
    }
}

/// Whether a point is within any of the parts.
pub fn within(bounds: &[Rect], point: Point) -> (inside: bool)
    ensures
        inside == exists|i: int|
            0 <= i < bounds.len() && (#[trigger] bounds@[i]).covers(point.x as int, point.y as int),
{
    let mut index: usize = 0;
    while index < bounds.len()
        invariant
            index <= bounds.len(),
            forall|i: int|
                0 <= i < index ==> !(#[trigger] bounds@[i]).covers(point.x as int, point.y as int),
        decreases bounds.len() - index,
    {
        if bounds[index].contains(point) {
            return true;
        }
        index += 1;
    }
    false
}

proof fn lemma_one_governs(list: Seq<PointerConstraint>, focus: u64, index: int)
    requires
        is_governing(list, focus, index),
    ensures
        !ungoverned(list, focus),
        forall|i: int| #[trigger] is_governing(list, focus, i) ==> i == index,
{
    assert(list[index].rules(focus));
    assert forall|i: int| #[trigger] is_governing(list, focus, i) implies i == index by {
        if i < index {
            assert(list[i].rules(focus));
        } else if i > index {
            assert(list[index].rules(focus));
        }
    }
}

/// After a focus change only constraints of the new focus hold, as long as
/// before it only constraints of the old focus held.
pub proof fn constraints_follow_the_focus(
    list: Seq<PointerConstraint>,
    old_focus: Option<u64>,
    new_focus: Option<u64>,
    i: int,
)
    requires
        0 <= i < list.len(),
        list[i].active ==> old_focus == Some(list[i].surface),
    ensures
        all_changed(list, old_focus, new_focus)[i].active ==> new_focus == Some(list[i].surface),
{
}

/// A constraint that ends with the focus never holds again.
pub proof fn oneshot_constraints_end(
    constraint: PointerConstraint,
    focus: u64,
    between: Option<u64>,
    again: Option<u64>,
)
    requires
        constraint.rules(focus),
        constraint.lifetime == LIFETIME_ONESHOT,
    ensures
        !constraint.after_change(Some(focus), between).active,
        !constraint.after_change(Some(focus), between).after_change(between, again).active,
{
}

/// A persistent constraint comes back with the focus.
pub proof fn persistent_constraints_come_back(
    constraint: PointerConstraint,
    focus: u64,
    between: Option<u64>,
)
    requires
        constraint.rules(focus),
        constraint.lifetime == LIFETIME_PERSISTENT,
        !constraint.consumed,
        between != Some(focus),
    ensures
        !constraint.after_change(Some(focus), between).active,
        constraint.after_change(Some(focus), between).after_change(between, Some(focus)).active,
{
}

/// When the pointer's focus moves, the constraints that held on the old surface end,
/// those that may hold on the new one begin, and the others are left alone. A
/// one-shot constraint that ends is over for good.
pub proof fn focus_decides_which_constraints_hold(
    seat: &mut PointerConstraints,
    old_focus: Option<u64>,
    new_focus: Option<u64>,
    answer: (Vec<ConstraintEvent>, Option<(i32, i32)>),
    index: int,
)
    requires
        call_ensures(PointerConstraints::focus_changed, (seat, old_focus, new_focus), answer),
        0 <= index < seat.constraints@.len(),
    ensures
        final(seat).constraints@.len() == old(seat).constraints@.len(),
        ({
            let before = old(seat).constraints@[index];
            let after = final(seat).constraints@[index];
            let ended = before.active && old_focus == Some(before.surface);
            let over = before.consumed || (ended && before.lifetime == 1);
            &&& after.consumed == over
            &&& after.active <==> (before.active && !ended) || (new_focus == Some(before.surface)
                && !over)
            &&& after.resource == before.resource && after.surface == before.surface
            &&& after.pointer == before.pointer && after.locked == before.locked
            &&& after.lifetime == before.lifetime && after.region == before.region
            &&& after.cursor_hint == before.cursor_hint
        }),
{
}

/// The pointer comes back where a lock that just ended said, and nowhere else.
pub proof fn pointer_comes_back_where_a_lock_said(
    seat: &mut PointerConstraints,
    old_focus: Option<u64>,
    new_focus: Option<u64>,
    events: Vec<ConstraintEvent>,
    hint: Option<(i32, i32)>,
)
    requires
        call_ensures(PointerConstraints::focus_changed, (seat, old_focus, new_focus), (events, hint)),
    ensures
        hint is Some <==> exists|i: int|
            #![trigger old(seat).constraints@[i]]
            0 <= i < old(seat).constraints@.len() && old(seat).constraints@[i].active
                && old_focus == Some(
                old(seat).constraints@[i].surface,
            ) && old(seat).constraints@[i].locked && old(seat).constraints@[i].cursor_hint is Some,
        hint is Some ==> exists|i: int|
            #![trigger old(seat).constraints@[i]]
            0 <= i < old(seat).constraints@.len() && old(seat).constraints@[i].active
                && old_focus == Some(
                old(seat).constraints@[i].surface,
            ) && old(seat).constraints@[i].locked && old(seat).constraints@[i].cursor_hint == hint,
{
    lemma_hint(seat.constraints@, old_focus);
}

proof fn lemma_hint(list: Seq<PointerConstraint>, old_focus: Option<u64>)
    ensures
        hint_of(list, old_focus) is Some ==> exists|i: int|
            #![trigger list[i]]
            0 <= i < list.len() && list[i].active && old_focus == Some(list[i].surface)
                && list[i].locked && list[i].cursor_hint == hint_of(list, old_focus),
        hint_of(list, old_focus) is None ==> forall|i: int|
            #![trigger list[i]]
            0 <= i < list.len() ==> !(list[i].active && old_focus == Some(list[i].surface)
                && list[i].locked && list[i].cursor_hint is Some),
    decreases list.len(),
{
    if list.len() > 0 {
        let rest = list.drop_last();
        let last = list[list.len() - 1];
        lemma_hint(rest, old_focus);
        if !(last.active && old_focus == Some(last.surface) && last.locked && last.cursor_hint
            is Some) {
            if hint_of(list, old_focus) is Some {
                let i = choose|i: int|
                    #![trigger rest[i]]
                    0 <= i < rest.len() && rest[i].active && old_focus == Some(rest[i].surface)
                        && rest[i].locked && rest[i].cursor_hint == hint_of(rest, old_focus);
                assert(list[i] == rest[i]);
            } else {
                assert forall|i: int| #![trigger list[i]] 0 <= i < list.len() implies !(
                list[i].active && old_focus == Some(list[i].surface) && list[i].locked
                    && list[i].cursor_hint is Some) by {
                    if i < list.len() - 1 {
                        assert(rest[i] == list[i]);
                    }
                }
            }
        }
    }
}

proof fn lemma_change_events(
    list: Seq<PointerConstraint>,
    old_focus: Option<u64>,
    new_focus: Option<u64>,
    e: ConstraintEvent,
)
    ensures
        change_events(list, old_focus, new_focus).contains(e) <==> exists|i: int|
            #![trigger list[i]]
            0 <= i < list.len() && list[i].events(old_focus, new_focus).contains(e),
    decreases list.len(),
{
    let all = change_events(list, old_focus, new_focus);
    if list.len() > 0 {
        let rest = list.drop_last();
        let earlier = change_events(rest, old_focus, new_focus);
        let more = list.last().events(old_focus, new_focus);
        lemma_change_events(rest, old_focus, new_focus, e);
        if all.contains(e) {
            let k = all.index_of(e);
            if k < earlier.len() {
                assert(earlier[k] == e);
                let i = choose|i: int|
                    #![trigger rest[i]]
                    0 <= i < rest.len() && rest[i].events(old_focus, new_focus).contains(e);
                assert(list[i] == rest[i]);
            } else {
                assert(more[k - earlier.len()] == e);
                assert(list[list.len() - 1] == list.last());
            }
        }
        if exists|i: int|
            #![trigger list[i]]
            0 <= i < list.len() && list[i].events(old_focus, new_focus).contains(e) {
            let i = choose|i: int|
                #![trigger list[i]]
                0 <= i < list.len() && list[i].events(old_focus, new_focus).contains(e);
            if i < list.len() - 1 {
                assert(rest[i] == list[i]);
                let k = earlier.index_of(e);
                assert(all[k] == e);
            } else {
                let k = more.index_of(e);
                assert(all[earlier.len() + k] == e);
            }
        }
    }
}

/// A client is told that its constraint no longer holds if it held on the surface
/// that lost the focus, and that it holds if it begins on the one that got it.
pub proof fn clients_hear_of_their_constraints(
    seat: &mut PointerConstraints,
    old_focus: Option<u64>,
    new_focus: Option<u64>,
    answer: (Vec<ConstraintEvent>, Option<(i32, i32)>),
    e: ConstraintEvent,
)
    requires
        call_ensures(PointerConstraints::focus_changed, (seat, old_focus, new_focus), answer),
    ensures
        answer.0@.contains(e) <==> exists|i: int|
            #![trigger old(seat).constraints@[i]]
            0 <= i < old(seat).constraints@.len()
                && old(seat).constraints@[i].resource == e.resource
                && old(seat).constraints@[i].locked == e.locked && if e.holds {
                &&& new_focus == Some(old(seat).constraints@[i].surface)
                &&& !old(seat).constraints@[i].consumed
                &&& !old(seat).constraints@[i].active || (old_focus == Some(
                    old(seat).constraints@[i].surface,
                ) && old(seat).constraints@[i].lifetime != 1)
            } else {
                old(seat).constraints@[i].active
                    && old_focus == Some(old(seat).constraints@[i].surface)
            },
{
    let list = seat.constraints@;
    lemma_change_events(list, old_focus, new_focus, e);
    assert forall|i: int| #![trigger list[i]] 0 <= i < list.len() implies (list[i].events(
        old_focus,
        new_focus,
    ).contains(e) <==> list[i].resource == e.resource && list[i].locked == e.locked && if e.holds {
        &&& new_focus == Some(list[i].surface)
        &&& !list[i].consumed
        &&& !list[i].active || (old_focus == Some(list[i].surface) && list[i].lifetime != 1)
    } else {
        list[i].active && old_focus == Some(list[i].surface)
    }) by {
        let c = list[i];
        let own = c.events(old_focus, new_focus);
        let released = c.active && old_focus == Some(c.surface);
        let engaged = new_focus == Some(c.surface) && !c.consumed && (!c.active || (old_focus
            == Some(c.surface) && c.lifetime != 1));
        let off = ConstraintEvent { resource: c.resource, locked: c.locked, holds: false };
        let on = ConstraintEvent { resource: c.resource, locked: c.locked, holds: true };
        assert(own.len() == (if released {
            1int
        } else {
            0
        }) + (if engaged {
            1int
        } else {
            0
        }));
        if released {
            assert(own[0] == off);
            if engaged {
                assert(own[1] == on);
            }
        } else if engaged {
            assert(own[0] == on);
        }
        if own.contains(e) {
            let k = own.index_of(e);
            assert(own[k] == e);
        }
        if e == off && released {
            assert(own.contains(e));
        }
        if e == on && engaged {
            assert(own.contains(e));
        }
    }
}

/// A locked pointer stays in place, a confined one stays in the region, or on the
/// surface where there is none, and a pointer that no constraint of its surface
/// holds goes where it wants.
pub proof fn constraints_rule_motion(
    seat: PointerConstraints,
    focus: u64,
    size: Size,
    rule: MotionRule,
    index: int,
)
    requires
        call_ensures(PointerConstraints::motion_rule, (&seat, Some(focus), Some(size)), rule),
        0 <= index < seat.constraints@.len(),
        seat.constraints@[index].active && seat.constraints@[index].surface == focus,
        forall|i: int|
            0 <= i < seat.constraints@.len() && i != index ==> !(
            #[trigger] seat.constraints@[i]).active || seat.constraints@[i].surface != focus,
    ensures
        ({
            let constraint = seat.constraints@[index];
            &&& constraint.locked ==> rule is Frozen
            &&& !constraint.locked && constraint.region is Some && constraint.region->0@.len() == 0
                ==> rule is Frozen
            &&& !constraint.locked && constraint.region is Some && constraint.region->0@.len() > 0
                ==> rule is Within && rule->Within_0@ == constraint.region->0@
            &&& !constraint.locked && constraint.region is None ==> rule is Within
                && rule->Within_0@.len() == 1 && forall|x: int, y: int|
                #![trigger rule->Within_0@[0].covers(x, y)]
                rule->Within_0@[0].covers(x, y) <==> 0 <= x < size.w && 0 <= y < size.h
        }),
{
    assert(is_governing(seat.constraints@, focus, index));
}

/// Without a constraint that holds on the focused surface the pointer is free.
pub proof fn free_pointers_move(
    seat: PointerConstraints,
    focus: Option<u64>,
    size: Option<Size>,
    rule: MotionRule,
    locked: bool,
)
    requires
        call_ensures(PointerConstraints::motion_rule, (&seat, focus, size), rule),
        call_ensures(PointerConstraints::pointer_lock_active, (&seat, focus), locked),
        forall|i: int|
            0 <= i < seat.constraints@.len() ==> !(#[trigger] seat.constraints@[i]).active || Some(
                seat.constraints@[i].surface,
            ) != focus,
    ensures
        rule is Free,
        !locked,
{
    if focus is Some {
        assert(ungoverned(seat.constraints@, focus->0));
    }
}

/// The pointer is locked in place if and only if the constraint that holds on the
/// focused surface is a lock.
pub proof fn locks_hold_the_pointer(
    seat: PointerConstraints,
    focus: u64,
    locked: bool,
    index: int,
)
    requires
        call_ensures(PointerConstraints::pointer_lock_active, (&seat, Some(focus)), locked),
        0 <= index < seat.constraints@.len(),
        seat.constraints@[index].active && seat.constraints@[index].surface == focus,
        forall|i: int|
            0 <= i < seat.constraints@.len() && i != index ==> !(
            #[trigger] seat.constraints@[i]).active || seat.constraints@[i].surface != focus,
    ensures
        locked == seat.constraints@[index].locked,
{
    assert(is_governing(seat.constraints@, focus, index));
    lemma_one_governs(seat.constraints@, focus, index);
    let on = Some(focus);
    assert(is_governing(seat.constraints@, on->0, index));
    assert(locked == lock_holds(seat.constraints@, on));
    if locked {
        let i = choose|i: int| #[trigger]
            is_governing(seat.constraints@, on->0, i) && seat.constraints@[i].locked;
        assert(i == index);
    } else {
        assert(!seat.constraints@[index].locked);
    }
}

/// A new constraint holds at once if and only if its surface has the focus, and is
/// made only where the surface does not constrain that pointer already.
pub proof fn new_constraints_wait_for_the_focus(
    seat: &mut PointerConstraints,
    resource: u64,
    surface: u64,
    pointer: u64,
    locked: bool,
    lifetime: u32,
    region: Option<Vec<Rect>>,
    focus: Option<u64>,
    answer: ConstraintAnswer,
)
    requires
        call_ensures(
            PointerConstraints::create,
            (seat, resource, surface, pointer, locked, lifetime, region, true, focus),
            answer,
        ),
        lifetime == 1 || lifetime == 2,
    ensures
        answer == ConstraintAnswer::AlreadyConstrained <==> exists|i: int|
            0 <= i < old(seat).constraints@.len()
                && (#[trigger] old(seat).constraints@[i]).surface == surface
                && old(seat).constraints@[i].pointer == pointer,
        answer == ConstraintAnswer::AlreadyConstrained ==> final(seat).constraints@
            == old(seat).constraints@,
        answer != ConstraintAnswer::AlreadyConstrained ==> {
            let made = final(seat).constraints@.last();
            &&& final(seat).constraints@.len() == old(seat).constraints@.len() + 1
            &&& answer == ConstraintAnswer::Active <==> focus == Some(surface)
            &&& made.active <==> focus == Some(surface)
            &&& made.resource == resource && made.surface == surface && made.pointer == pointer
            &&& made.locked == locked && made.lifetime == lifetime && made.region == region
            &&& !made.consumed && made.cursor_hint is None
        },
{
}

/// A constraint holds the pointer only on its own surface while it is active; its region and
/// hint are kept as said, and only a lock has a hint.
pub proof fn constraints_are_kept_as_said(
    regions: &mut PointerConstraints,
    hints: &mut PointerConstraints,
    index: usize,
    region: Option<Vec<Rect>>,
    x: i32,
    y: i32,
    other: int,
)
    requires
        index < regions.constraints@.len() && index < hints.constraints@.len(),
        call_ensures(PointerConstraints::set_region, (regions, index, region), ()),
        call_ensures(PointerConstraints::set_cursor_hint, (hints, index, x, y), ()),
        0 <= other < regions.constraints@.len() && other < hints.constraints@.len(),
    ensures
        final(regions).constraints@[index as int].region == region,
        old(hints).constraints@[index as int].locked ==> final(hints).constraints@[
            index as int
        ].cursor_hint == Some((x, y)),
        !old(hints).constraints@[index as int].locked ==> final(hints).constraints@[index as int]
            == old(hints).constraints@[index as int],
        other != index ==> final(regions).constraints@[other] == old(regions).constraints@[other]
            && final(hints).constraints@[other] == old(hints).constraints@[other],
{
}

} // verus!
