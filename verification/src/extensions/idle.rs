//! Idle notifications and the surfaces that hold them off.

use vstd::prelude::*;
use crate::seqs::{contains_u64, first_where, lemma_first_where, lemma_none_where};

verus! {

/// The seat of the person at the machine.
pub const HUMAN_SEAT: u64 = 0;

/// A surface that holds off idleness while it is shown.
#[derive(Debug, Clone, Copy, PartialEq, Eq)]
pub struct IdleInhibitor {
    pub resource: u64,
    /// The surface, until it is destroyed.
    pub surface: Option<u64>,
    /// Whether it counts. One that was made while the session was idle counts
    /// only once there was activity.
    pub honored: bool,
}

/// A client that wants to know when a seat is idle. Times are in nanoseconds.
#[derive(Debug, Clone, Copy, PartialEq, Eq, Structural)]
pub struct IdleNotification {
    pub resource: u64,
    pub seat: u64,
    pub timeout_ms: u32,
    pub activity_at: u64,
    pub idle: bool,
    /// Whether it is told of idleness that inhibitors would hold off.
    pub ignore_inhibitors: bool,
}

/// What a client is told: that its seat became idle, or that it no longer is.
#[derive(Debug, Clone, Copy, PartialEq, Eq, Structural)]
pub struct IdleEvent {
    pub resource: u64,
    pub idled: bool,
}

/// All inhibitors and notifications.
#[derive(Debug)]
pub struct IdleState {
    pub inhibitors: Vec<IdleInhibitor>,
    pub notifications: Vec<IdleNotification>,
}

impl IdleInhibitor {
    /// Whether the inhibitor holds off idleness, given the surfaces that the
    /// person at the machine can see.
    pub open spec fn holds(self, locked: bool, shown: Seq<u64>) -> bool {
        &&& self.honored
        &&& !locked
        &&& self.surface matches Some(surface) && shown.contains(surface)
    }
}

impl IdleNotification {
    /// Whether the client is to see its seat as idle.
    pub open spec fn due(self, inhibited: bool, now: u64) -> bool {
        &&& (if now >= self.activity_at {
            now - self.activity_at
        } else {
            0
        }) >= self.timeout_ms * 1_000_000
        &&& self.ignore_inhibitors || !inhibited
    }

    /// The notification after a look at the clock.
    pub open spec fn updated(self, inhibited: bool, now: u64) -> IdleNotification {
        IdleNotification { idle: self.due(inhibited, now), ..self }
    }

    /// The notification after activity of the person at the machine.
    pub open spec fn stirred(self, now: u64) -> IdleNotification {
        if self.seat == HUMAN_SEAT {
            IdleNotification { activity_at: now, idle: false, ..self }
        } else {
            self
        }
    }
}

/// What clients are told when their notifications go from `before` to `after`:
/// each change once, in order.
pub open spec fn idle_events(before: Seq<IdleNotification>, after: Seq<IdleNotification>) -> Seq<
    IdleEvent,
>
    decreases before.len(),
{
    if before.len() == 0 || after.len() != before.len() {
        Seq::empty()
    } else {
        let earlier = idle_events(before.drop_last(), after.drop_last());
        if before.last().idle != after.last().idle {
            earlier.push(IdleEvent { resource: before.last().resource, idled: after.last().idle })
        } else {
            earlier
        }
    }
}

/// Every notification after a look at the clock.
pub open spec fn all_updated(list: Seq<IdleNotification>, inhibited: bool, now: u64) -> Seq<
    IdleNotification,
> {
    Seq::new(list.len(), |i: int| list[i].updated(inhibited, now))
}

/// Every notification after activity of the person at the machine.
pub open spec fn all_stirred(list: Seq<IdleNotification>, now: u64) -> Seq<IdleNotification> {
    Seq::new(list.len(), |i: int| list[i].stirred(now))
}

/// Every inhibitor counting.
pub open spec fn all_honored(list: Seq<IdleInhibitor>) -> Seq<IdleInhibitor> {
    Seq::new(list.len(), |i: int| IdleInhibitor { honored: true, ..list[i] })
}

/// The inhibitors after a surface was destroyed.
pub open spec fn all_without_surface(list: Seq<IdleInhibitor>, surface: u64) -> Seq<IdleInhibitor> {
    Seq::new(
        list.len(),
        |i: int|
            if list[i].surface == Some(surface) {
                IdleInhibitor { surface: None, ..list[i] }
            } else {
                list[i]
            },
    )
}

/// Whether idleness is held off: by a client that asked for it without a
/// surface, or by an inhibitor.
pub open spec fn held_off(
    list: Seq<IdleInhibitor>,
    locked: bool,
    surfaceless: bool,
    shown: Seq<u64>,
) -> bool {
    (!locked && surfaceless) || exists|i: int|
        0 <= i < list.len() && (#[trigger] list[i]).holds(locked, shown)
}

impl IdleState {
    /// No inhibitors and no notifications.
    pub fn new() -> (state: IdleState)
        ensures
            state.inhibitors@.len() == 0,
            state.notifications@.len() == 0,
    {
        IdleState { inhibitors: Vec::new(), notifications: Vec::new() }
    }

    /// Whether a client that heeds inhibitors sees its seat as idle.
    pub open spec fn already_idle(self) -> bool {
        exists|i: int|
            0 <= i < self.notifications@.len() && (#[trigger] self.notifications@[i]).idle
                && !self.notifications@[i].ignore_inhibitors
    }

    /// A client holds off idleness for a surface.
    pub fn create_inhibitor(&mut self, resource: u64, surface: u64)
        ensures
            final(self).inhibitors@ == old(self).inhibitors@.push(
                IdleInhibitor {
                    resource,
                    surface: Some(surface),
                    honored: !old(self).already_idle(),
                },
            ),
            final(self).notifications == old(self).notifications,
    {
        let mut index: usize = 0;
        let mut idle = false;
        while index < self.notifications.len()
            invariant
                index <= self.notifications.len(),
                *self == *old(self),
                idle == exists|i: int|
                    0 <= i < index && (#[trigger] self.notifications@[i]).idle
                        && !self.notifications@[i].ignore_inhibitors,
            decreases self.notifications.len() - index,
        {
            let notification = self.notifications[index];
            if notification.idle && !notification.ignore_inhibitors {
                idle = true;
                assert(self.notifications@[index as int].idle);
            }
            index += 1;
        }
        self.inhibitors.push(IdleInhibitor { resource, surface: Some(surface), honored: !idle });
    }

    /// An inhibitor was destroyed.
    pub fn destroy_inhibitor(&mut self, resource: u64)
        ensures
            final(self).notifications == old(self).notifications,
            match first_inhibitor(old(self).inhibitors@, resource) {
                Some(index) => final(self).inhibitors@ == old(self).inhibitors@.remove(index),
                None => final(self).inhibitors@ == old(self).inhibitors@,
            },
    {
        let mut index: usize = 0;
        while index < self.inhibitors.len()
            invariant
                index <= self.inhibitors.len(),
                *self == *old(self),
                forall|i: int|
                    0 <= i < index ==> (#[trigger] self.inhibitors@[i]).resource != resource,
            decreases self.inhibitors.len() - index,
        {
            if self.inhibitors[index].resource == resource {
                proof {
                    lemma_first_where(
                        self.inhibitors@,
                        |i: IdleInhibitor| i.resource == resource,
                        index as int,
                    );
                }
                self.inhibitors.remove(index);
                return;
            }
            index += 1;
        }
        proof {
            lemma_none_where(
                self.inhibitors@,
                |i: IdleInhibitor| i.resource == resource,
            );
        }
    }

    /// A surface was destroyed; its inhibitors hold off nothing any more.
    pub fn surface_destroyed(&mut self, surface: u64)
        ensures
            final(self).inhibitors@ == all_without_surface(old(self).inhibitors@, surface),
            final(self).notifications == old(self).notifications,
    {
        let mut index: usize = 0;
        while index < self.inhibitors.len()
            invariant
                index <= self.inhibitors.len(),
                self.notifications == old(self).notifications,
                self.inhibitors.len() == old(self).inhibitors.len(),
                forall|i: int|
                    0 <= i < self.inhibitors.len() ==> #[trigger] self.inhibitors@[i] == if i
                        < index {
                        all_without_surface(old(self).inhibitors@, surface)[i]
                    } else {
                        old(self).inhibitors@[i]
                    },
            decreases self.inhibitors.len() - index,
        {
            let inhibitor = self.inhibitors[index];
            if let Some(held) = inhibitor.surface {
                if held == surface {
                    self.inhibitors[index] = IdleInhibitor { surface: None, ..inhibitor };
                }
            }
            index += 1;
        }
        assert(self.inhibitors@ =~= all_without_surface(old(self).inhibitors@, surface));
    }

    /// A client wants to know when a seat is idle.
    pub fn create_notification(
        &mut self,
        resource: u64,
        seat: u64,
        timeout_ms: u32,
        now: u64,
        ignore_inhibitors: bool,
    )
        ensures
            final(self).notifications@ == old(self).notifications@.push(
                IdleNotification {
                    resource,
                    seat,
                    timeout_ms,
                    activity_at: now,
                    idle: false,
                    ignore_inhibitors,
                },
            ),
            final(self).inhibitors == old(self).inhibitors,
    {
        self.notifications.push(
            IdleNotification {
                resource,
                seat,
                timeout_ms,
                activity_at: now,
                idle: false,
                ignore_inhibitors,
            },
        );
    }

    /// A notification was destroyed.
    pub fn destroy_notification(&mut self, resource: u64)
        ensures
            final(self).inhibitors == old(self).inhibitors,
            match first_notification(old(self).notifications@, resource) {
                Some(index) => final(self).notifications@ == old(self).notifications@.remove(index),
                None => final(self).notifications@ == old(self).notifications@,
            },
    {
        let mut index: usize = 0;
        while index < self.notifications.len()
            invariant
                index <= self.notifications.len(),
                *self == *old(self),
                forall|i: int|
                    0 <= i < index ==> (#[trigger] self.notifications@[i]).resource != resource,
            decreases self.notifications.len() - index,
        {
            if self.notifications[index].resource == resource {
                proof {
                    lemma_first_where(
                        self.notifications@,
                        |n: IdleNotification| n.resource == resource,
                        index as int,
                    );
                }
                self.notifications.remove(index);
                return;
            }
            index += 1;
        }
        proof {
            lemma_none_where(
                self.notifications@,
                |n: IdleNotification| n.resource == resource,
            );
        }
    }

    /// Whether idleness is held off. `shown` holds the surfaces that the person
    /// at the machine can see.
    pub fn inhibited(&self, locked: bool, surfaceless: bool, shown: &[u64]) -> (answer: bool)
        ensures
            answer == held_off(self.inhibitors@, locked, surfaceless, shown@),
    {
        if !locked && surfaceless {
            return true;
        }
        let mut index: usize = 0;
        while index < self.inhibitors.len()
            invariant
                index <= self.inhibitors.len(),
                forall|i: int|
                    0 <= i < index ==> !(#[trigger] self.inhibitors@[i]).holds(locked, shown@),
            decreases self.inhibitors.len() - index,
        {
            let inhibitor = self.inhibitors[index];
            if inhibitor.honored && !locked {
                if let Some(surface) = inhibitor.surface {
                    if contains_u64(shown, surface) {
                        assert(self.inhibitors@[index as int].holds(locked, shown@));
                        return true;
                    }
                }
            }
            index += 1;
        }
        false
    }

    /// Look at the clock, and tell clients whose seat became idle or no longer
    /// is.
    pub fn update(&mut self, inhibited: bool, now: u64) -> (events: Vec<IdleEvent>)
        ensures
            final(self).inhibitors == old(self).inhibitors,
            final(self).notifications@ == all_updated(old(self).notifications@, inhibited, now),
            events@ == idle_events(old(self).notifications@, final(self).notifications@),
    {
        let mut events: Vec<IdleEvent> = Vec::new();
        let mut index: usize = 0;
        let ghost before = self.notifications@;
        let ghost after = all_updated(before, inhibited, now);
        while index < self.notifications.len()
            invariant
                index <= self.notifications.len(),
                self.inhibitors == old(self).inhibitors,
                before == old(self).notifications@,
                after == all_updated(before, inhibited, now),
                self.notifications@.len() == before.len(),
                forall|i: int|
                    0 <= i < before.len() ==> #[trigger] self.notifications@[i] == if i < index {
                        after[i]
                    } else {
                        before[i]
                    },
                events@ == idle_events(before.take(index as int), after.take(index as int)),
            decreases self.notifications.len() - index,
        {
            let notification = self.notifications[index];
            let quiet: u64 = if now >= notification.activity_at {
                now - notification.activity_at
            } else {
                0
            };
            let due = quiet >= notification.timeout_ms as u64 * 1_000_000 && (
            notification.ignore_inhibitors || !inhibited);
            if due != notification.idle {
                events.push(IdleEvent { resource: notification.resource, idled: due });
                self.notifications[index] = IdleNotification { idle: due, ..notification };
            }
            proof {
                assert(after[index as int] == before[index as int].updated(inhibited, now));
                assert(before.take(index as int + 1).drop_last() =~= before.take(index as int));
                assert(after.take(index as int + 1).drop_last() =~= after.take(index as int));
            }
            index += 1;
        }
        proof {
            assert(self.notifications@ =~= after);
            assert(before.take(before.len() as int) =~= before);
            assert(after.take(after.len() as int) =~= after);
        }
        events
    }

    /// The person at the machine did something: their seat is not idle, and
    /// inhibitors that were made too late count from now on.
    pub fn user_activity(&mut self, now: u64) -> (events: Vec<IdleEvent>)
        ensures
            final(self).notifications@ == all_stirred(old(self).notifications@, now),
            final(self).inhibitors@ == all_honored(old(self).inhibitors@),
            events@ == idle_events(old(self).notifications@, final(self).notifications@),
    {
        let mut events: Vec<IdleEvent> = Vec::new();
        let mut index: usize = 0;
        let ghost before = self.notifications@;
        let ghost after = all_stirred(before, now);
        while index < self.notifications.len()
            invariant
                index <= self.notifications.len(),
                self.inhibitors == old(self).inhibitors,
                before == old(self).notifications@,
                after == all_stirred(before, now),
                self.notifications@.len() == before.len(),
                forall|i: int|
                    0 <= i < before.len() ==> #[trigger] self.notifications@[i] == if i < index {
                        after[i]
                    } else {
                        before[i]
                    },
                events@ == idle_events(before.take(index as int), after.take(index as int)),
            decreases self.notifications.len() - index,
        {
            let notification = self.notifications[index];
            if notification.seat == HUMAN_SEAT {
                if notification.idle {
                    events.push(IdleEvent { resource: notification.resource, idled: false });
                }
                self.notifications[index] = IdleNotification {
                    activity_at: now,
                    idle: false,
                    ..notification
                };
            }
            proof {
                assert(after[index as int] == before[index as int].stirred(now));
                assert(before.take(index as int + 1).drop_last() =~= before.take(index as int));
                assert(after.take(index as int + 1).drop_last() =~= after.take(index as int));
            }
            index += 1;
        }
        proof {
            assert(self.notifications@ =~= after);
            assert(before.take(before.len() as int) =~= before);
            assert(after.take(after.len() as int) =~= after);
        }
        let mut place: usize = 0;
        while place < self.inhibitors.len()
            invariant
                place <= self.inhibitors.len(),
                self.notifications@ == after,
                self.inhibitors.len() == old(self).inhibitors.len(),
                forall|i: int|
                    0 <= i < self.inhibitors.len() ==> #[trigger] self.inhibitors@[i] == if i
                        < place {
                        all_honored(old(self).inhibitors@)[i]
                    } else {
                        old(self).inhibitors@[i]
                    },
            decreases self.inhibitors.len() - place,
        {
            let inhibitor = self.inhibitors[place];
            self.inhibitors[place] = IdleInhibitor { honored: true, ..inhibitor };
            place += 1;
        }
        assert(self.inhibitors@ =~= all_honored(old(self).inhibitors@));
        events
    }
}

/// The first inhibitor with the given resource.
pub open spec fn first_inhibitor(list: Seq<IdleInhibitor>, resource: u64) -> Option<int> {
    first_where(list, |i: IdleInhibitor| i.resource == resource)
}

/// The first notification with the given resource.
pub open spec fn first_notification(list: Seq<IdleNotification>, resource: u64) -> Option<int> {
    first_where(list, |n: IdleNotification| n.resource == resource)
}

/// After activity no notification of the person at the machine is idle, and a
/// look at the clock at that moment makes none idle unless it has no timeout.
pub proof fn activity_ends_idleness(list: Seq<IdleNotification>, inhibited: bool, now: u64, i: int)
    requires
        0 <= i < list.len(),
        list[i].seat == HUMAN_SEAT,
        list[i].timeout_ms > 0,
    ensures
        !all_stirred(list, now)[i].idle,
        !all_updated(all_stirred(list, now), inhibited, now)[i].idle,
{
}

/// While idleness is held off, only clients that ignore inhibitors see their
/// seat as idle.
pub proof fn inhibitors_hold_off_idleness(list: Seq<IdleNotification>, now: u64, i: int)
    requires
        0 <= i < list.len(),
        all_updated(list, true, now)[i].idle,
    ensures
        list[i].ignore_inhibitors,
{
}

/// A locked session is not held off by anything.
pub proof fn nothing_holds_off_a_locked_session(
    list: Seq<IdleInhibitor>,
    surfaceless: bool,
    shown: Seq<u64>,
)
    ensures
        !held_off(list, true, surfaceless, shown),
{
}

/// Nobody is told the same thing twice: looking at the clock again at the same
/// moment tells nothing.
pub proof fn updates_settle(list: Seq<IdleNotification>, inhibited: bool, now: u64)
    ensures
        all_updated(all_updated(list, inhibited, now), inhibited, now) == all_updated(
            list,
            inhibited,
            now,
        ),
        idle_events(
            all_updated(list, inhibited, now),
            all_updated(all_updated(list, inhibited, now), inhibited, now),
        ).len() == 0,
{
    let once = all_updated(list, inhibited, now);
    let twice = all_updated(once, inhibited, now);
    assert(once =~= twice);
    lemma_no_change_no_events(once);
}

proof fn lemma_no_change_no_events(list: Seq<IdleNotification>)
    ensures
        idle_events(list, list).len() == 0,
    decreases list.len(),
{
    if list.len() > 0 {
        lemma_no_change_no_events(list.drop_last());
    }
}

proof fn lemma_idle_events(before: Seq<IdleNotification>, after: Seq<IdleNotification>)
    requires
        before.len() == after.len(),
        forall|i: int|
            #![trigger after[i]]
            0 <= i < before.len() ==> after[i].resource == before[i].resource,
    ensures
        forall|i: int|
            #![trigger before[i]]
            0 <= i < before.len() && before[i].idle != after[i].idle ==> idle_events(
                before,
                after,
            ).contains(IdleEvent { resource: before[i].resource, idled: after[i].idle }),
        forall|e: IdleEvent|
            #![trigger idle_events(before, after).contains(e)]
            idle_events(before, after).contains(e) ==> exists|i: int|
                #![trigger before[i]]
                0 <= i < before.len() && before[i].idle != after[i].idle && before[i].resource
                    == e.resource && after[i].idle == e.idled,
        idle_events(before, after).len() <= before.len(),
    decreases before.len(),
{
    let events = idle_events(before, after);
    if before.len() > 0 {
        let b = before.drop_last();
        let a = after.drop_last();
        let earlier = idle_events(b, a);
        assert forall|i: int| #![trigger a[i]] 0 <= i < b.len() implies a[i].resource
            == b[i].resource by {
            assert(a[i] == after[i]);
        }
        lemma_idle_events(b, a);
        let n = before.len() - 1;
        assert(after[n].resource == before[n].resource);
        assert forall|i: int|
            #![trigger before[i]]
            0 <= i < before.len() && before[i].idle != after[i].idle implies events.contains(
            IdleEvent { resource: before[i].resource, idled: after[i].idle },
        ) by {
            let e = IdleEvent { resource: before[i].resource, idled: after[i].idle };
            if i < n {
                assert(b[i].idle != a[i].idle);
                assert(earlier.contains(e));
                let k = earlier.index_of(e);
                assert(events[k] == e);
            } else {
                assert(events.last() == e);
            }
        }
        assert forall|e: IdleEvent| #![trigger events.contains(e)] events.contains(e) implies exists|
            i: int,
        |
            #![trigger before[i]]
            0 <= i < before.len() && before[i].idle != after[i].idle && before[i].resource
                == e.resource && after[i].idle == e.idled by {
            let k = events.index_of(e);
            if k < earlier.len() {
                assert(earlier[k] == e);
                assert(earlier.contains(e));
                let i = choose|i: int|
                    #![trigger b[i]]
                    0 <= i < b.len() && b[i].idle != a[i].idle && b[i].resource == e.resource
                        && a[i].idle == e.idled;
                assert(before[i].idle != after[i].idle);
            } else {
                assert(before[n].idle != after[n].idle);
            }
        }
    }
}

/// After a look at the clock a client sees its seat as idle if and only if there
/// was no activity for its timeout and nothing that it heeds holds idleness off.
/// Each client whose answer changed is told so, and no other.
pub proof fn idleness_comes_after_the_timeout(
    state: &mut IdleState,
    inhibited: bool,
    now: u64,
    events: Vec<IdleEvent>,
    index: int,
)
    requires
        call_ensures(IdleState::update, (state, inhibited, now), events),
        0 <= index < state.notifications@.len(),
    ensures
        final(state).notifications@.len() == old(state).notifications@.len(),
        ({
            let before = old(state).notifications@[index];
            let after = final(state).notifications@[index];
            &&& after.idle <==> (now - before.activity_at >= before.timeout_ms * 1_000_000
                || before.timeout_ms == 0) && (before.ignore_inhibitors || !inhibited)
            &&& after == (IdleNotification { idle: after.idle, ..before })
            &&& after.idle != before.idle ==> events@.contains(
                IdleEvent { resource: before.resource, idled: after.idle },
            )
        }),
        forall|k: int|
            #![trigger events@[k]]
            0 <= k < events@.len() ==> exists|i: int|
                #![trigger old(state).notifications@[i]]
                0 <= i < old(state).notifications@.len()
                    && old(state).notifications@[i].idle
                        != final(state).notifications@[i].idle
                            && old(state).notifications@[i].resource == events@[k].resource
                    && final(state).notifications@[i].idle == events@[k].idled,
{
    let before = state.notifications@;
    let after = final(state).notifications@;
    assert forall|i: int| #![trigger after[i]] 0 <= i < before.len() implies after[i].resource
        == before[i].resource by {}
    lemma_idle_events(before, after);
    assert forall|k: int| #![trigger events@[k]] 0 <= k < events@.len() implies exists|i: int|
        #![trigger before[i]]
        0 <= i < before.len() && before[i].idle != after[i].idle && before[i].resource
            == events@[k].resource && after[i].idle == events@[k].idled by {
        assert(idle_events(before, after).contains(events@[k]));
    }
}

/// Activity of the person at the machine ends idleness on their seat and starts
/// the timeouts anew; other seats are left alone. Every inhibitor counts from then
/// on.
pub proof fn activity_restarts_the_timeouts(
    state: &mut IdleState,
    now: u64,
    events: Vec<IdleEvent>,
    index: int,
    inhibitor: int,
)
    requires
        call_ensures(IdleState::user_activity, (state, now), events),
        0 <= index < state.notifications@.len(),
        0 <= inhibitor < state.inhibitors@.len(),
    ensures
        final(state).notifications@.len() == old(state).notifications@.len(),
        final(state).inhibitors@.len() == old(state).inhibitors@.len(),
        ({
            let before = old(state).notifications@[index];
            let after = final(state).notifications@[index];
            &&& before.seat == HUMAN_SEAT ==> !after.idle && after.activity_at == now
            &&& before.seat != HUMAN_SEAT ==> after == before
            &&& after.resource == before.resource && after.seat == before.seat
            &&& after.timeout_ms == before.timeout_ms
            &&& after.ignore_inhibitors == before.ignore_inhibitors
            &&& before.seat == HUMAN_SEAT && before.idle ==> events@.contains(
                IdleEvent { resource: before.resource, idled: false },
            )
        }),
        final(state).inhibitors@[inhibitor].honored,
        final(state).inhibitors@[inhibitor].surface == old(state).inhibitors@[inhibitor].surface,
        final(state).inhibitors@[inhibitor].resource == old(state).inhibitors@[inhibitor].resource,
        forall|k: int| #![trigger events@[k]] 0 <= k < events@.len() ==> !events@[k].idled,
{
    let before = state.notifications@;
    let after = final(state).notifications@;
    assert forall|i: int| #![trigger after[i]] 0 <= i < before.len() implies after[i].resource
        == before[i].resource by {}
    lemma_idle_events(before, after);
    assert forall|k: int| #![trigger events@[k]] 0 <= k < events@.len() implies !events@[k].idled by {
        assert(idle_events(before, after).contains(events@[k]));
    }
}

/// Idleness is held off only in an unlocked session: by a client without a surface,
/// or by an inhibitor that counts and whose surface is shown.
pub proof fn shown_inhibitors_hold_idleness_off(
    state: IdleState,
    locked: bool,
    surfaceless: bool,
    shown: &[u64],
    answer: bool,
)
    requires
        call_ensures(IdleState::inhibited, (&state, locked, surfaceless, shown), answer),
    ensures
        locked ==> !answer,
        !locked && surfaceless ==> answer,
        !locked && !surfaceless ==> (answer <==> exists|i: int, k: int|
            #![trigger state.inhibitors@[i], shown@[k]]
            0 <= i < state.inhibitors@.len() && 0 <= k < shown@.len()
                && state.inhibitors@[i].honored && state.inhibitors@[i].surface == Some(shown@[k])),
{
    let list = state.inhibitors@;
    if !locked && !surfaceless {
        if answer {
            let i = choose|i: int| 0 <= i < list.len()
                && (#[trigger] list[i]).holds(locked, shown@);
            let k = shown@.index_of(list[i].surface->0);
            assert(shown@[k] == list[i].surface->0);
            assert(list[i].honored);
        }
        if exists|i: int, k: int|
            #![trigger list[i], shown@[k]]
            0 <= i < list.len() && 0 <= k < shown@.len() && list[i].honored && list[i].surface
                == Some(shown@[k]) {
            let (i, k) = choose|i: int, k: int|
                #![trigger list[i], shown@[k]]
                0 <= i < list.len() && 0 <= k < shown@.len() && list[i].honored && list[i].surface
                    == Some(shown@[k]);
            assert(list[i].holds(locked, shown@));
        }
    }
}

/// A new inhibitor counts at once if and only if no client that heeds inhibitors
/// sees its seat as idle. The others stay as they are.
pub proof fn late_inhibitors_wait(state: &mut IdleState, resource: u64, surface: u64)
    requires
        call_ensures(IdleState::create_inhibitor, (state, resource, surface), ()),
    ensures
        final(state).inhibitors@.len() == old(state).inhibitors@.len() + 1,
        final(state).inhibitors@.last().resource == resource,
        final(state).inhibitors@.last().surface == Some(surface),
        final(state).inhibitors@.last().honored <==> forall|i: int|
            0 <= i < old(state).notifications@.len()
                && (#[trigger] old(state).notifications@[i]).idle
                ==> old(state).notifications@[i].ignore_inhibitors,
        forall|i: int|
            0 <= i < old(state).inhibitors@.len() ==> #[trigger] final(state).inhibitors@[i]
                == old(state).inhibitors@[i],
        final(state).notifications@ == old(state).notifications@,
{
}

/// A destroyed surface holds off nothing any more; inhibitors of other surfaces
/// are left alone.
pub proof fn destroyed_surfaces_hold_off_nothing(state: &mut IdleState, surface: u64, index: int)
    requires
        call_ensures(IdleState::surface_destroyed, (state, surface), ()),
        0 <= index < state.inhibitors@.len(),
    ensures
        final(state).inhibitors@.len() == old(state).inhibitors@.len(),
        final(state).inhibitors@[index].surface != Some(surface),
        old(state).inhibitors@[index].surface != Some(surface) ==> final(state).inhibitors@[index]
            == old(state).inhibitors@[index],
        final(state).inhibitors@[index].resource == old(state).inhibitors@[index].resource,
        final(state).inhibitors@[index].honored == old(state).inhibitors@[index].honored,
{
}

/// A new notification starts with activity now, not idle.
pub proof fn new_notifications_are_not_idle(
    state: &mut IdleState,
    resource: u64,
    seat: u64,
    timeout_ms: u32,
    now: u64,
    ignore_inhibitors: bool,
)
    requires
        call_ensures(
            IdleState::create_notification,
            (state, resource, seat, timeout_ms, now, ignore_inhibitors),
            (),
        ),
    ensures
        final(state).notifications@.len() == old(state).notifications@.len() + 1,
        ({
            let made = final(state).notifications@.last();
            &&& made.resource == resource && made.seat == seat
            &&& made.timeout_ms == timeout_ms && made.activity_at == now
            &&& made.ignore_inhibitors == ignore_inhibitors && !made.idle
        }),
        forall|i: int|
            0 <= i < old(state).notifications@.len() ==> #[trigger] final(state).notifications@[i]
                == old(state).notifications@[i],
{
}

} // verus!
