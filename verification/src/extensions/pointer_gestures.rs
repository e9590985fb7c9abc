//! Clients that want touchpad gestures or raw pointer motion.

use vstd::prelude::*;
use crate::seqs::{remove_value, without};

verus! {

/// A kind of touchpad gesture.
#[derive(Debug, Clone, Copy, PartialEq, Eq, Structural)]
pub enum PointerGestureKind {
    Swipe,
    Pinch,
    Hold,
}

/// What asking for gestures leads to.
#[derive(Debug, Clone, Copy, PartialEq, Eq, Structural)]
pub enum GestureAnswer {
    /// The pointer belongs to another client.
    ForeignPointer,
    /// The pointer's seat cannot be used; nothing happens.
    Ignored,
    Created,
}

/// The objects through which clients get gestures and raw motion of a seat.
#[derive(Debug)]
pub struct PointerListeners {
    pub swipes: Vec<u64>,
    pub pinches: Vec<u64>,
    pub holds: Vec<u64>,
    pub relative_pointers: Vec<u64>,
}

impl PointerListeners {
    /// None.
    pub fn new() -> (listeners: PointerListeners)
        ensures
            listeners.swipes@.len() == 0 && listeners.pinches@.len() == 0,
            listeners.holds@.len() == 0 && listeners.relative_pointers@.len() == 0,
    {
        PointerListeners {
            swipes: Vec::new(),
            pinches: Vec::new(),
            holds: Vec::new(),
            relative_pointers: Vec::new(),
        }
    }

    /// The objects that get a kind of gesture.
    pub open spec fn of_kind(self, kind: PointerGestureKind) -> Seq<u64> {
        match kind {
            PointerGestureKind::Swipe => self.swipes@,
            PointerGestureKind::Pinch => self.pinches@,
            PointerGestureKind::Hold => self.holds@,
        }
    }

    /// A client asks for a kind of gesture of one of its pointers.
    pub fn create_gesture(
        &mut self,
        client: u64,
        resource: u64,
        pointer_client: Option<u64>,
        seat_usable: bool,
        kind: PointerGestureKind,
    ) -> (answer: GestureAnswer)
        ensures
            answer == if pointer_client != Some(client) {
                GestureAnswer::ForeignPointer
            } else if !seat_usable {
                GestureAnswer::Ignored
            } else {
                GestureAnswer::Created
            },
            final(self).relative_pointers == old(self).relative_pointers,
            forall|other: PointerGestureKind| #[trigger]
                final(self).of_kind(other) == if answer == GestureAnswer::Created && other == kind {
                    old(self).of_kind(other).push(resource)
                } else {
                    old(self).of_kind(other)
                },
    {
        let own = match pointer_client {
            Some(owner) => owner == client,
            None => false,
        };
        if !own {
            return GestureAnswer::ForeignPointer;
        }
        if !seat_usable {
            return GestureAnswer::Ignored;
        }
        match kind {
            PointerGestureKind::Swipe => self.swipes.push(resource),
            PointerGestureKind::Pinch => self.pinches.push(resource),
            PointerGestureKind::Hold => self.holds.push(resource),
        }
        GestureAnswer::Created
    }

    /// An object that got a kind of gesture was destroyed.
    pub fn destroy_gesture(&mut self, resource: u64, kind: PointerGestureKind)
        ensures
            final(self).relative_pointers == old(self).relative_pointers,
            forall|other: PointerGestureKind| #[trigger]
                final(self).of_kind(other) == if other == kind {
                    without(old(self).of_kind(other), resource)
                } else {
                    old(self).of_kind(other)
                },
    {
        match kind {
            PointerGestureKind::Swipe => remove_value(&mut self.swipes, resource),
            PointerGestureKind::Pinch => remove_value(&mut self.pinches, resource),
            PointerGestureKind::Hold => remove_value(&mut self.holds, resource),
        }
    }

    /// A client asks for raw motion of a pointer. The answer says whether it
    /// gets it: the pointer's seat must be usable.
    pub fn create_relative_pointer(&mut self, resource: u64, seat_usable: bool) -> (created: bool)
        ensures
            created == seat_usable,
            final(self).relative_pointers@ == if seat_usable {
                old(self).relative_pointers@.push(resource)
            } else {
                old(self).relative_pointers@
            },
            *final(self) == (PointerListeners {
                relative_pointers: final(self).relative_pointers,
                ..*old(self)
            }),
    {
        if seat_usable {
            self.relative_pointers.push(resource);
        }
        seat_usable
    }

    /// An object that got raw motion was destroyed.
    pub fn destroy_relative_pointer(&mut self, resource: u64)
        ensures
            final(self).relative_pointers@ == without(old(self).relative_pointers@, resource),
            *final(self) == (PointerListeners {
                relative_pointers: final(self).relative_pointers,
                ..*old(self)
            }),
    {
        remove_value(&mut self.relative_pointers, resource);
    }
}

/// The seat that a routed object is told about: the one its pointer came from,
/// or else the one it is used with.
pub fn origin_seat(origin: Option<u64>, seat: u64) -> (told: u64)
    ensures
        told == match origin {
            Some(origin) => origin,
            None => seat,
        },
{
    match origin {
        Some(origin) => origin,
        None => seat,
    }
}

/// A client hears of gestures only of its own pointers, and only of the kind that it
/// asked for.
pub proof fn gestures_go_to_those_who_asked(
    listeners: &mut PointerListeners,
    client: u64,
    resource: u64,
    pointer_client: Option<u64>,
    seat_usable: bool,
    kind: PointerGestureKind,
    answer: GestureAnswer,
)
    requires
        call_ensures(
            PointerListeners::create_gesture,
            (listeners, client, resource, pointer_client, seat_usable, kind),
            answer,
        ),
    ensures
        answer == GestureAnswer::ForeignPointer <==> pointer_client != Some(client),
        answer == GestureAnswer::Created <==> pointer_client == Some(client) && seat_usable,
        final(listeners).relative_pointers@ == old(listeners).relative_pointers@,
        answer == GestureAnswer::Created && kind == PointerGestureKind::Swipe ==> {
            &&& final(listeners).swipes@ == old(listeners).swipes@.push(resource)
            &&& final(listeners).pinches@ == old(listeners).pinches@
            &&& final(listeners).holds@ == old(listeners).holds@
        },
        answer == GestureAnswer::Created && kind == PointerGestureKind::Pinch ==> {
            &&& final(listeners).pinches@ == old(listeners).pinches@.push(resource)
            &&& final(listeners).swipes@ == old(listeners).swipes@
            &&& final(listeners).holds@ == old(listeners).holds@
        },
        answer == GestureAnswer::Created && kind == PointerGestureKind::Hold ==> {
            &&& final(listeners).holds@ == old(listeners).holds@.push(resource)
            &&& final(listeners).swipes@ == old(listeners).swipes@
            &&& final(listeners).pinches@ == old(listeners).pinches@
        },
        answer != GestureAnswer::Created ==> {
            &&& final(listeners).swipes@ == old(listeners).swipes@
            &&& final(listeners).pinches@ == old(listeners).pinches@
            &&& final(listeners).holds@ == old(listeners).holds@
        },
{
    let after = *final(listeners);
    assert(after.of_kind(PointerGestureKind::Swipe) == after.swipes@);
    assert(after.of_kind(PointerGestureKind::Pinch) == after.pinches@);
    assert(after.of_kind(PointerGestureKind::Hold) == after.holds@);
}

} // verus!
