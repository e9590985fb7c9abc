//! Surfaces that want the compositor's keyboard shortcuts for themselves.

use vstd::prelude::*;

verus! {

/// A surface that wants the shortcuts while it has the keyboard focus.
#[derive(Debug, Clone, Copy, PartialEq, Eq)]
pub struct ShortcutsInhibitor {
    pub resource: u64,
    /// The surface, until it is destroyed.
    pub surface: Option<u64>,
    pub active: bool,
}

/// What a client is told: that its surface gets the shortcuts, or no longer does.
#[derive(Debug, Clone, Copy, PartialEq, Eq, Structural)]
pub struct InhibitorEvent {
    pub resource: u64,
    pub active: bool,
}

/// All such surfaces of a seat.
#[derive(Debug)]
pub struct ShortcutsInhibitors {
    pub inhibitors: Vec<ShortcutsInhibitor>,
}

/// Why a request for the shortcuts is refused.
#[derive(Debug, Clone, Copy, PartialEq, Eq, Structural)]
pub enum InhibitError {
    /// The surface or the seat belongs to another client.
    ForeignObject,
    /// The surface has asked before.
    AlreadyInhibited,
}

/// What a request for the shortcuts leads to.
#[derive(Debug, Clone, Copy, PartialEq, Eq, Structural)]
pub enum InhibitAnswer {
    /// The seat cannot be used; nothing happens.
    Ignored,
    /// The surface will get the shortcuts once it has the focus.
    Waiting,
    /// The surface gets the shortcuts at once.
    Active,
}

/// Whether a surface has asked for the shortcuts.
pub open spec fn has_surface(list: Seq<ShortcutsInhibitor>, surface: u64) -> bool {
    exists|i: int| 0 <= i < list.len() && (#[trigger] list[i]).surface == Some(surface)
}

/// The surfaces after the keyboard focus moved.
pub open spec fn refocused(list: Seq<ShortcutsInhibitor>, focus: Option<u64>) -> Seq<
    ShortcutsInhibitor,
> {
    Seq::new(
        list.len(),
        |i: int|
            ShortcutsInhibitor { active: focus is Some && list[i].surface == focus, ..list[i] },
    )
}

/// The surfaces after one was destroyed.
pub open spec fn bereft(list: Seq<ShortcutsInhibitor>, surface: u64) -> Seq<ShortcutsInhibitor> {
    Seq::new(
        list.len(),
        |i: int|
            if list[i].surface == Some(surface) {
                ShortcutsInhibitor { surface: None, active: false, ..list[i] }
            } else {
                list[i]
            },
    )
}

/// What clients are told when their surfaces go from `before` to `after`: each
/// change once, in order.
pub open spec fn changes(before: Seq<ShortcutsInhibitor>, after: Seq<ShortcutsInhibitor>) -> Seq<
    InhibitorEvent,
>
    decreases before.len(),
{
    if before.len() == 0 || after.len() != before.len() {
        Seq::empty()
    } else {
        let earlier = changes(before.drop_last(), after.drop_last());
        if before.last().active != after.last().active {
            earlier.push(
                InhibitorEvent { resource: before.last().resource, active: after.last().active },
            )
        } else {
            earlier
        }
    }
}

/// Whether the focused surface gets the shortcuts.
pub open spec fn taken(list: Seq<ShortcutsInhibitor>, focus: Option<u64>) -> bool {
    focus is Some && exists|i: int|
        0 <= i < list.len() && (#[trigger] list[i]).active && list[i].surface == focus
}

impl ShortcutsInhibitors {
    /// No surface wants the shortcuts.
    pub fn new() -> (inhibitors: ShortcutsInhibitors)
        ensures
            inhibitors.inhibitors@.len() == 0,
    {
        ShortcutsInhibitors { inhibitors: Vec::new() }
    }

    /// Only the focused surface gets the shortcuts.
    pub open spec fn wf(self, focus: Option<u64>) -> bool {
        self.inhibitors@ == refocused(self.inhibitors@, focus)
    }

    /// A client wants the shortcuts for a surface.
    pub fn inhibit(
        &mut self,
        client: u64,
        resource: u64,
        surface: u64,
        surface_client: Option<u64>,
        seat_client: Option<u64>,
        seat_usable: bool,
        focus: Option<u64>,
    ) -> (result: Result<InhibitAnswer, InhibitError>)
        ensures
            result == if surface_client != Some(client) || seat_client != Some(client) {
                Err::<InhibitAnswer, InhibitError>(InhibitError::ForeignObject)
            } else if !seat_usable {
                Ok::<InhibitAnswer, InhibitError>(InhibitAnswer::Ignored)
            } else if has_surface(old(self).inhibitors@, surface) {
                Err::<InhibitAnswer, InhibitError>(InhibitError::AlreadyInhibited)
            } else if focus == Some(surface) {
                Ok::<InhibitAnswer, InhibitError>(InhibitAnswer::Active)
            } else {
                Ok::<InhibitAnswer, InhibitError>(InhibitAnswer::Waiting)
            },
            final(self).inhibitors@ == if result == Ok::<InhibitAnswer, InhibitError>(
                InhibitAnswer::Active,
            ) || result == Ok::<InhibitAnswer, InhibitError>(InhibitAnswer::Waiting) {
                old(self).inhibitors@.push(
                    ShortcutsInhibitor {
                        resource,
                        surface: Some(surface),
                        active: focus == Some(surface),
                    },
                )
            } else {
                old(self).inhibitors@
            },
            old(self).wf(focus) ==> final(self).wf(focus),
    {
        let own_surface = match surface_client {
            Some(owner) => owner == client,
            None => false,
        };
        let own_seat = match seat_client {
            Some(owner) => owner == client,
            None => false,
        };
        if !own_surface || !own_seat {
            return Err(InhibitError::ForeignObject);
        }
        if !seat_usable {
            return Ok(InhibitAnswer::Ignored);
        }
        let mut index: usize = 0;
        while index < self.inhibitors.len()
            invariant
                index <= self.inhibitors.len(),
                *self == *old(self),
                surface_client == Some(client) && seat_client == Some(client) && seat_usable,
                forall|i: int|
                    0 <= i < index ==> (#[trigger] self.inhibitors@[i]).surface != Some(surface),
            decreases self.inhibitors.len() - index,
        {
            if let Some(held) = self.inhibitors[index].surface {
                if held == surface {
                    assert(self.inhibitors@[index as int].surface == Some(surface));
                    return Err(InhibitError::AlreadyInhibited);
                }
            }
            index += 1;
        }
        let active = match focus {
            Some(focused) => focused == surface,
            None => false,
        };
        let ghost before = self.inhibitors@;
        self.inhibitors.push(ShortcutsInhibitor { resource, surface: Some(surface), active });
        proof {
            if old(self).wf(focus) {
                assert forall|i: int| 0 <= i < self.inhibitors@.len() implies #[trigger]
                    self.inhibitors@[i] == refocused(self.inhibitors@, focus)[i] by {
                    if i < before.len() {
                        assert(before[i] == refocused(before, focus)[i]);
                    }
                }
                assert(self.inhibitors@ =~= refocused(self.inhibitors@, focus));
            }
        }
        if active {
            Ok(InhibitAnswer::Active)
        } else {
            Ok(InhibitAnswer::Waiting)
        }
    }

    /// A surface's request was destroyed.
    pub fn destroy(&mut self, resource: u64)
        ensures
            final(self).inhibitors@ == old(self).inhibitors@.filter(
                |r: ShortcutsInhibitor| r.resource != resource,
            ),
    {
        let mut kept: Vec<ShortcutsInhibitor> = Vec::new();
        let mut index: usize = 0;
        let ghost keep = |r: ShortcutsInhibitor| r.resource != resource;
        proof {
            reveal(Seq::filter);
            assert(self.inhibitors@.take(0).filter(keep) =~= Seq::<ShortcutsInhibitor>::empty());
        }
        while index < self.inhibitors.len()
            invariant
                index <= self.inhibitors.len(),
                *self == *old(self),
                keep == (|r: ShortcutsInhibitor| r.resource != resource),
                kept@ == self.inhibitors@.take(index as int).filter(keep),
            decreases self.inhibitors.len() - index,
        {
            proof {
                reveal(Seq::filter);
                assert(self.inhibitors@.take(index as int + 1).drop_last()
                    =~= self.inhibitors@.take(index as int));
            }
            if self.inhibitors[index].resource != resource {
                kept.push(self.inhibitors[index]);
            }
            index += 1;
        }
        assert(self.inhibitors@.take(self.inhibitors.len() as int) =~= self.inhibitors@);
        self.inhibitors = kept;
    }

    /// The keyboard focus moved.
    pub fn focus_changed(&mut self, focus: Option<u64>) -> (events: Vec<InhibitorEvent>)
        ensures
            final(self).inhibitors@ == refocused(old(self).inhibitors@, focus),
            events@ == changes(old(self).inhibitors@, final(self).inhibitors@),
            final(self).wf(focus),
    {
        let mut events: Vec<InhibitorEvent> = Vec::new();
        let mut index: usize = 0;
        let ghost before = self.inhibitors@;
        let ghost after = refocused(before, focus);
        while index < self.inhibitors.len()
            invariant
                index <= self.inhibitors.len(),
                before == old(self).inhibitors@,
                after == refocused(before, focus),
                self.inhibitors@.len() == before.len(),
                forall|i: int|
                    0 <= i < before.len() ==> #[trigger] self.inhibitors@[i] == if i < index {
                        after[i]
                    } else {
                        before[i]
                    },
                events@ == changes(before.take(index as int), after.take(index as int)),
            decreases self.inhibitors.len() - index,
        {
            let inhibitor = self.inhibitors[index];
            let active = match (focus, inhibitor.surface) {
                (Some(focused), Some(surface)) => focused == surface,
                _ => false,
            };
            if active != inhibitor.active {
                self.inhibitors[index] = ShortcutsInhibitor { active, ..inhibitor };
                events.push(InhibitorEvent { resource: inhibitor.resource, active });
            }
            proof {
                assert(after[index as int].active == active);
                assert(before.take(index as int + 1).drop_last() =~= before.take(index as int));
                assert(after.take(index as int + 1).drop_last() =~= after.take(index as int));
            }
            index += 1;
        }
        proof {
            assert(self.inhibitors@ =~= after);
            assert(before.take(before.len() as int) =~= before);
            assert(after.take(after.len() as int) =~= after);
            assert(refocused(after, focus) =~= after);
        }
        events
    }

    /// Whether the focused surface gets the shortcuts.
    pub fn inhibited(&self, focus: Option<u64>) -> (answer: bool)
        ensures
            answer == taken(self.inhibitors@, focus),
    {
        match focus {
            None => false,
            Some(focused) => {
                let mut index: usize = 0;
                while index < self.inhibitors.len()
                    invariant
                        index <= self.inhibitors.len(),
                        focus == Some(focused),
                        forall|i: int|
                            0 <= i < index ==> !((#[trigger] self.inhibitors@[i]).active
                                && self.inhibitors@[i].surface == focus),
                    decreases self.inhibitors.len() - index,
                {
                    let inhibitor = self.inhibitors[index];
                    if inhibitor.active {
                        if let Some(surface) = inhibitor.surface {
                            if surface == focused {
                                assert(self.inhibitors@[index as int].active);
                                return true;
                            }
                        }
                    }
                    index += 1;
                }
                false
            },
        }
    }

    /// A surface was destroyed.
    pub fn surface_destroyed(&mut self, surface: u64) -> (events: Vec<InhibitorEvent>)
        ensures
            final(self).inhibitors@ == bereft(old(self).inhibitors@, surface),
            events@ == changes(old(self).inhibitors@, final(self).inhibitors@),
            !has_surface(final(self).inhibitors@, surface),
    {
        let mut events: Vec<InhibitorEvent> = Vec::new();
        let mut index: usize = 0;
        let ghost before = self.inhibitors@;
        let ghost after = bereft(before, surface);
        while index < self.inhibitors.len()
            invariant
                index <= self.inhibitors.len(),
                before == old(self).inhibitors@,
                after == bereft(before, surface),
                self.inhibitors@.len() == before.len(),
                forall|i: int|
                    0 <= i < before.len() ==> #[trigger] self.inhibitors@[i] == if i < index {
                        after[i]
                    } else {
                        before[i]
                    },
                events@ == changes(before.take(index as int), after.take(index as int)),
            decreases self.inhibitors.len() - index,
        {
            let inhibitor = self.inhibitors[index];
            let gone = match inhibitor.surface {
                Some(held) => held == surface,
                None => false,
            };
            if gone {
                if inhibitor.active {
                    events.push(InhibitorEvent { resource: inhibitor.resource, active: false });
                }
                self.inhibitors[index] = ShortcutsInhibitor {
                    surface: None,
                    active: false,
                    ..inhibitor
                };
            }
            proof {
                assert(before.take(index as int + 1).drop_last() =~= before.take(index as int));
                assert(after.take(index as int + 1).drop_last() =~= after.take(index as int));
            }
            index += 1;
        }
        proof {
            assert(self.inhibitors@ =~= after);
            assert(before.take(before.len() as int) =~= before);
            assert(after.take(after.len() as int) =~= after);
        }
        events
    }
}

/// Once the focus has moved, a surface gets the shortcuts exactly if it has the
/// focus and has asked for them.
pub proof fn shortcuts_follow_the_focus(list: Seq<ShortcutsInhibitor>, focus: Option<u64>)
    ensures
        taken(refocused(list, focus), focus) <==> (focus matches Some(surface) && has_surface(
            list,
            surface,
        )),
{
    let after = refocused(list, focus);
    if focus is Some && has_surface(list, focus->0) {
        let i = choose|i: int| 0 <= i < list.len() && (#[trigger] list[i]).surface == focus;
        assert(after[i].active && after[i].surface == focus);
    }
    if taken(after, focus) {
        let i = choose|i: int|
            0 <= i < after.len() && (#[trigger] after[i]).active && after[i].surface == focus;
        assert(list[i].surface == focus);
    }
}

proof fn lemma_changes(before: Seq<ShortcutsInhibitor>, after: Seq<ShortcutsInhibitor>)
    requires
        before.len() == after.len(),
    ensures
        forall|i: int|
            #![trigger before[i]]
            0 <= i < before.len() && before[i].active != after[i].active ==> changes(
                before,
                after,
            ).contains(InhibitorEvent { resource: before[i].resource, active: after[i].active }),
        forall|e: InhibitorEvent|
            #![trigger changes(before, after).contains(e)]
            changes(before, after).contains(e) ==> exists|i: int|
                #![trigger before[i]]
                0 <= i < before.len() && before[i].active != after[i].active && before[i].resource
                    == e.resource && after[i].active == e.active,
    decreases before.len(),
{
    let events = changes(before, after);
    if before.len() > 0 {
        let b = before.drop_last();
        let a = after.drop_last();
        let earlier = changes(b, a);
        lemma_changes(b, a);
        let n = before.len() - 1;
        assert forall|i: int|
            #![trigger before[i]]
            0 <= i < before.len() && before[i].active != after[i].active implies events.contains(
            InhibitorEvent { resource: before[i].resource, active: after[i].active },
        ) by {
            let e = InhibitorEvent { resource: before[i].resource, active: after[i].active };
            if i < n {
                assert(b[i].active != a[i].active);
                assert(earlier.contains(e));
                let k = earlier.index_of(e);
                assert(events[k] == e);
            } else {
                assert(events.last() == e);
            }
        }
        assert forall|e: InhibitorEvent| #![trigger events.contains(e)] events.contains(
            e,
        ) implies exists|i: int|
            #![trigger before[i]]
            0 <= i < before.len() && before[i].active != after[i].active && before[i].resource
                == e.resource && after[i].active == e.active by {
            let k = events.index_of(e);
            if k < earlier.len() {
                assert(earlier[k] == e);
                assert(earlier.contains(e));
                let i = choose|i: int|
                    #![trigger b[i]]
                    0 <= i < b.len() && b[i].active != a[i].active && b[i].resource == e.resource
                        && a[i].active == e.active;
                assert(before[i].active != after[i].active);
            } else {
                assert(before[n].active != after[n].active);
            }
        }
    }
}

/// When the keyboard focus moves, exactly the requests of the focused surface are
/// active, and each client whose request changed is told so.
pub proof fn the_focused_surface_gets_the_shortcuts(
    seat: &mut ShortcutsInhibitors,
    focus: Option<u64>,
    events: Vec<InhibitorEvent>,
    index: int,
)
    requires
        call_ensures(ShortcutsInhibitors::focus_changed, (seat, focus), events),
        0 <= index < seat.inhibitors@.len(),
    ensures
        final(seat).inhibitors@.len() == old(seat).inhibitors@.len(),
        ({
            let before = old(seat).inhibitors@[index];
            let after = final(seat).inhibitors@[index];
            &&& after.active <==> before.surface is Some && focus == before.surface
            &&& after.surface == before.surface && after.resource == before.resource
            &&& after.active != before.active ==> events@.contains(
                InhibitorEvent { resource: before.resource, active: after.active },
            )
        }),
        forall|k: int|
            #![trigger events@[k]]
            0 <= k < events@.len() ==> exists|i: int|
                #![trigger old(seat).inhibitors@[i]]
                0 <= i < old(seat).inhibitors@.len()
                    && old(seat).inhibitors@[i].active != final(seat).inhibitors@[i].active
                        && old(seat).inhibitors@[i].resource == events@[k].resource
                    && final(seat).inhibitors@[i].active == events@[k].active,
{
    lemma_changes(seat.inhibitors@, final(seat).inhibitors@);
    assert forall|k: int| #![trigger events@[k]] 0 <= k < events@.len() implies exists|i: int|
        #![trigger seat.inhibitors@[i]]
        0 <= i < seat.inhibitors@.len()
            && seat.inhibitors@[i].active != final(seat).inhibitors@[i].active
            && seat.inhibitors@[i].resource == events@[k].resource
                && final(seat).inhibitors@[i].active
            == events@[k].active by {
        assert(changes(seat.inhibitors@, final(seat).inhibitors@).contains(events@[k]));
    }
}

/// The shortcuts go to the focused surface if and only if one of its requests is
/// active.
pub proof fn active_requests_take_the_shortcuts(
    seat: ShortcutsInhibitors,
    focus: Option<u64>,
    answer: bool,
)
    requires
        call_ensures(ShortcutsInhibitors::inhibited, (&seat, focus), answer),
    ensures
        focus is None ==> !answer,
        focus is Some ==> (answer <==> exists|i: int|
            0 <= i < seat.inhibitors@.len() && (#[trigger] seat.inhibitors@[i]).active
                && seat.inhibitors@[i].surface == focus),
{
}

/// A client can ask for the shortcuts only with a surface and a seat of its own, and
/// once for a surface. It gets them at once if the surface has the focus.
pub proof fn shortcuts_are_asked_for_once(
    seat: &mut ShortcutsInhibitors,
    client: u64,
    resource: u64,
    surface: u64,
    surface_client: Option<u64>,
    seat_client: Option<u64>,
    focus: Option<u64>,
    result: Result<InhibitAnswer, InhibitError>,
)
    requires
        call_ensures(
            ShortcutsInhibitors::inhibit,
            (seat, client, resource, surface, surface_client, seat_client, true, focus),
            result,
        ),
    ensures
        result == Err::<InhibitAnswer, InhibitError>(InhibitError::ForeignObject) <==> !(
        surface_client == Some(client) && seat_client == Some(client)),
        result == Err::<InhibitAnswer, InhibitError>(InhibitError::AlreadyInhibited) <==> (
        surface_client == Some(client) && seat_client == Some(client) && exists|i: int|
            0 <= i < old(seat).inhibitors@.len()
                && (#[trigger] old(seat).inhibitors@[i]).surface == Some(
                surface,
            )),
        result is Err ==> final(seat).inhibitors@ == old(seat).inhibitors@,
        result matches Ok(answer) ==> {
            let made = final(seat).inhibitors@.last();
            &&& final(seat).inhibitors@.len() == old(seat).inhibitors@.len() + 1
            &&& answer == InhibitAnswer::Active <==> focus == Some(surface)
            &&& made.active <==> focus == Some(surface)
            &&& made.surface == Some(surface) && made.resource == resource
        },
{
}

/// A destroyed surface takes no shortcuts any more; requests of other surfaces are
/// left alone.
pub proof fn destroyed_surfaces_take_no_shortcuts(
    seat: &mut ShortcutsInhibitors,
    surface: u64,
    events: Vec<InhibitorEvent>,
    index: int,
)
    requires
        call_ensures(ShortcutsInhibitors::surface_destroyed, (seat, surface), events),
        0 <= index < seat.inhibitors@.len(),
    ensures
        final(seat).inhibitors@.len() == old(seat).inhibitors@.len(),
        ({
            let before = old(seat).inhibitors@[index];
            let after = final(seat).inhibitors@[index];
            &&& before.surface == Some(surface) ==> after.surface is None && !after.active
            &&& before.surface != Some(surface) ==> after == before
            &&& before.surface == Some(surface) && before.active ==> events@.contains(
                InhibitorEvent { resource: before.resource, active: false },
            )
        }),
{
    lemma_changes(seat.inhibitors@, final(seat).inhibitors@);
}

} // verus!
