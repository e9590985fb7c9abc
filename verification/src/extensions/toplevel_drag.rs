//! Windows that follow a drag.

use vstd::prelude::*;
use crate::geometry::Point;

verus! {

/// A window attached to a drag's data source.
#[derive(Debug, Clone, Copy, PartialEq, Eq)]
pub struct ToplevelDrag {
    pub source: u64,
    pub attached_toplevel: Option<u64>,
    /// The point of the window that the pointer holds.
    pub offset: (i32, i32),
    pub ended: bool,
}

/// The drag in progress, as far as windows are concerned.
#[derive(Debug, Clone, Copy, PartialEq, Eq)]
pub struct DragInProgress {
    pub source: u64,
    pub attached_toplevel: Option<u64>,
    pub toplevel_offset: (i32, i32),
}

/// What asking for a window drag leads to.
#[derive(Debug, Clone, Copy, PartialEq, Eq, Structural)]
pub enum GetDragAnswer {
    /// The data source is not the client's; nothing happens.
    Ignored,
    /// The data source is used already, or unknown.
    InvalidSource,
    Created,
}

/// A request on a window drag that the protocol forbids.
#[derive(Debug, Clone, Copy, PartialEq, Eq, Structural)]
pub enum DragError {
    /// The drag is still going on.
    OngoingDrag,
    /// A window is attached already.
    ToplevelAttached,
}

/// Decide whether a client gets a window drag for a data source.
pub fn get_drag(client: u64, source_client: Option<u64>, source_known: bool, source_used: bool) -> (
    answer: GetDragAnswer)
    ensures
        answer == if source_client != Some(client) {
            GetDragAnswer::Ignored
        } else if !source_known || source_used {
            GetDragAnswer::InvalidSource
        } else {
            GetDragAnswer::Created
        },
{
    let own = match source_client {
        Some(owner) => owner == client,
        None => false,
    };
    if !own {
        return GetDragAnswer::Ignored;
    }
    if !source_known || source_used {
        return GetDragAnswer::InvalidSource;
    }
    GetDragAnswer::Created
}

impl ToplevelDrag {
    /// A window drag without a window.
    pub fn new(source: u64) -> (drag: ToplevelDrag)
        ensures
            drag == (ToplevelDrag {
                source,
                attached_toplevel: None,
                offset: (0, 0),
                ended: false,
            }),
    {
        ToplevelDrag { source, attached_toplevel: None, offset: (0, 0), ended: false }
    }

    /// Whether the client may destroy the window drag: only once the drag ended.
    pub fn check_destroy(&self) -> (result: Result<(), DragError>)
        ensures
            result == if self.ended {
                Ok::<(), DragError>(())
            } else {
                Err::<(), DragError>(DragError::OngoingDrag)
            },
    {
        if self.ended {
            Ok(())
        } else {
            Err(DragError::OngoingDrag)
        }
    }

    /// Whether an attached window joins the drag in progress.
    pub open spec fn joins(self, drag: Option<DragInProgress>) -> bool {
        drag matches Some(drag) && drag.source == self.source
    }

    /// A client attaches a window. It joins the drag in progress if that has the
    /// same data source; then the answer says where the window goes, given the
    /// position of the pointer or finger that drags.
    pub fn attach(
        &mut self,
        drag: &mut Option<DragInProgress>,
        client: u64,
        toplevel: u64,
        toplevel_client: Option<u64>,
        offset: (i32, i32),
        cursor: (i32, i32),
    ) -> (result: Result<Option<Point>, DragError>)
        requires
            old(self).attached_toplevel is None && toplevel_client == Some(client)
                && old(self).joins(*old(drag)) ==> i32::MIN <= cursor.0 - offset.0 <= i32::MAX
                    && i32::MIN
                <= cursor.1 - offset.1 <= i32::MAX,
        ensures
            old(self).attached_toplevel is Some ==> result == Err::<Option<Point>, DragError>(
                DragError::ToplevelAttached,
            ) && *final(self) == *old(self) && *final(drag) == *old(drag),
            old(self).attached_toplevel is None && toplevel_client != Some(client) ==> result
                == Ok::<Option<Point>, DragError>(None) && *final(self) == *old(self)
                && *final(drag) == *old(drag),
            old(self).attached_toplevel is None && toplevel_client == Some(client) ==> {
                &&& *final(self) == (ToplevelDrag {
                    attached_toplevel: Some(toplevel),
                    offset,
                    ..*old(self)
                })
                &&& *final(drag) == if old(self).joins(*old(drag)) {
                    Some(
                        DragInProgress {
                            source: old(self).source,
                            attached_toplevel: Some(toplevel),
                            toplevel_offset: offset,
                        },
                    )
                } else {
                    *old(drag)
                }
                &&& result == Ok::<Option<Point>, DragError>(
                    if old(self).joins(*old(drag)) {
                        Some(
                            Point {
                                x: (cursor.0 - offset.0) as i32,
                                y: (cursor.1 - offset.1) as i32,
                            },
                        )
                    } else {
                        None
                    },
                )
            },
    {
        if self.attached_toplevel.is_some() {
            return Err(DragError::ToplevelAttached);
        }
        let own = match toplevel_client {
            Some(owner) => owner == client,
            None => false,
        };
        if !own {
            return Ok(None);
        }
        self.attached_toplevel = Some(toplevel);
        self.offset = offset;
        if let Some(current) = *drag {
            if current.source == self.source {
                *drag = Some(
                    DragInProgress {
                        source: current.source,
                        attached_toplevel: Some(toplevel),
                        toplevel_offset: offset,
                    },
                );
                return Ok(Some(Point { x: cursor.0 - offset.0, y: cursor.1 - offset.1 }));
            }
        }
        Ok(None)
    }

    /// The window drag was destroyed: its window, if it has the one of the drag
    /// in progress, leaves that.
    pub fn detach(&self, drag: &mut Option<DragInProgress>)
        ensures
            *final(drag) == match *old(drag) {
                Some(current) if current.attached_toplevel == self.attached_toplevel => Some(
                    DragInProgress { attached_toplevel: None, ..current },
                ),
                other => other,
            },
    {
        if let Some(current) = *drag {
            let same = match (current.attached_toplevel, self.attached_toplevel) {
                (Some(left), Some(right)) => left == right,
                (None, None) => true,
                _ => false,
            };
            if same {
                *drag = Some(DragInProgress { attached_toplevel: None, ..current });
            }
        }
    }
}

/// An attached window hangs on the pointer by the point that the client named: it is
/// placed so that this point is under the pointer. It joins only a drag of the same
/// data source, and only one window is attached.
pub proof fn dragged_windows_hang_on_the_pointer(
    window: &mut ToplevelDrag,
    drag: &mut Option<DragInProgress>,
    client: u64,
    toplevel: u64,
    offset: (i32, i32),
    cursor: (i32, i32),
    result: Result<Option<Point>, DragError>,
)
    requires
        i32::MIN <= cursor.0 - offset.0 <= i32::MAX,
        i32::MIN <= cursor.1 - offset.1 <= i32::MAX,
        call_ensures(
            ToplevelDrag::attach,
            (window, drag, client, toplevel, Some(client), offset, cursor),
            result,
        ),
    ensures
        result is Err <==> old(window).attached_toplevel is Some,
        result is Err ==> *final(window) == *old(window) && *final(drag) == *old(drag),
        result matches Ok(place) ==> {
            &&& final(window).attached_toplevel == Some(toplevel)
            &&& final(window).offset == offset
            &&& final(window).source == old(window).source
            &&& place is Some <==> *old(drag) is Some
                && (*old(drag))->0.source == old(window).source
            &&& place matches Some(at) ==> {
                &&& at.x + offset.0 == cursor.0
                &&& at.y + offset.1 == cursor.1
                &&& *final(drag) is Some
                &&& (*final(drag))->0.attached_toplevel == Some(toplevel)
                &&& (*final(drag))->0.toplevel_offset == offset
                &&& (*final(drag))->0.source == old(window).source
            }
            &&& place is None ==> *final(drag) == *old(drag)
        },
{
}

/// A client attaches only windows of its own.
pub proof fn foreign_windows_are_not_dragged(
    window: &mut ToplevelDrag,
    drag: &mut Option<DragInProgress>,
    client: u64,
    toplevel: u64,
    owner: Option<u64>,
    offset: (i32, i32),
    cursor: (i32, i32),
    result: Result<Option<Point>, DragError>,
)
    requires
        owner != Some(client),
        call_ensures(
            ToplevelDrag::attach,
            (window, drag, client, toplevel, owner, offset, cursor),
            result,
        ),
    ensures
        *final(window) == *old(window),
        *final(drag) == *old(drag),
        result matches Ok(place) ==> place is None,
{
}

/// A window that leaves the drag no longer hangs on it; the drag itself, and the
/// window of another, go on.
pub proof fn detached_windows_leave_the_drag(window: ToplevelDrag, drag: &mut Option<DragInProgress>)
    requires
        call_ensures(ToplevelDrag::detach, (&window, drag), ()),
    ensures
        *old(drag) is Some <==> *final(drag) is Some,
        *old(drag) is Some ==> (*final(drag))->0.source == (*old(drag))->0.source,
        *old(drag) is Some && (*old(drag))->0.attached_toplevel == window.attached_toplevel
            ==> (*final(drag))->0.attached_toplevel is None,
        *old(drag) is Some && (*old(drag))->0.attached_toplevel != window.attached_toplevel
            ==> *final(drag)
            == *old(drag),
{
}

/// A window drag can be had once for each data source, by the source's own client, and
/// is given up only after the drag.
pub proof fn window_drags_are_had_once(
    client: u64,
    source_client: Option<u64>,
    known: bool,
    used: bool,
    answer: GetDragAnswer,
    window: ToplevelDrag,
    result: Result<(), DragError>,
)
    requires
        call_ensures(get_drag, (client, source_client, known, used), answer),
        call_ensures(ToplevelDrag::check_destroy, (&window,), result),
    ensures
        answer == GetDragAnswer::Created <==> source_client == Some(client) && known && !used,
        answer == GetDragAnswer::Ignored <==> source_client != Some(client),
        result is Ok <==> window.ended,
{
}

} // verus!
