//! Where the popups of input methods go.

use vstd::prelude::*;
use crate::extensions::text_input::TextInputCursorAnchor;
use crate::geometry::{
    held_between, hold_between, larger, saturating_add, saturating_sub, saturating_sum, Point, Rect,
    Size,
};

verus! {

/// The last place on one axis at which a popup is wholly on the output, or the
/// output's start where it does not fit.
pub open spec fn last_start(start: int, extent: int, popup: int) -> int {
    let slack = saturating_sum(extent, -popup);
    saturating_sum(
        start,
        if slack < 0 {
            0
        } else {
            slack
        },
    )
}

/// Where a popup goes: below the text cursor if there is room, else above it,
/// and always on the output as far as it fits.
pub open spec fn popup_place(anchor: Rect, popup: Size, output: Rect) -> (int, int) {
    let below = saturating_sum(anchor.origin.y as int, anchor.size.h as int);
    let above = saturating_sum(anchor.origin.y as int, -(popup.h as int));
    let bottom = saturating_sum(output.origin.y as int, output.size.h as int);
    let y = if saturating_sum(below, popup.h as int) <= bottom {
        below
    } else {
        above
    };
    (
        held_between(
            anchor.origin.x as int,
            output.origin.x as int,
            last_start(output.origin.x as int, output.size.w as int, popup.w as int),
        ),
        held_between(
            y,
            output.origin.y as int,
            last_start(output.origin.y as int, output.size.h as int, popup.h as int),
        ),
    )
}

/// Find the place of a popup.
pub fn input_popup_position(anchor: Rect, popup_size: Size, output: Rect) -> (place: Point)
    ensures
        (place.x as int, place.y as int) == popup_place(anchor, popup_size, output),
{
    let max_x: i32 = saturating_add(
        output.origin.x,
        larger(saturating_sub(output.size.w, popup_size.w), 0),
    );
    let max_y: i32 = saturating_add(
        output.origin.y,
        larger(saturating_sub(output.size.h, popup_size.h), 0),
    );
    let below: i32 = saturating_add(anchor.origin.y, anchor.size.h);
    let above: i32 = saturating_sub(anchor.origin.y, popup_size.h);
    let output_bottom: i32 = saturating_add(output.origin.y, output.size.h);
    let popup_y: i32 = if saturating_add(below, popup_size.h) <= output_bottom {
        below
    } else {
        above
    };
    Point {
        x: hold_between(anchor.origin.x, output.origin.x, max_x),
        y: hold_between(popup_y, output.origin.y, max_y),
    }
}

/// A popup that fits on the output is wholly on it, as long as the output lies
/// within the coordinate range.
pub proof fn popups_stay_on_the_output(anchor: Rect, popup: Size, output: Rect)
    requires
        0 <= popup.w <= output.size.w,
        0 <= popup.h <= output.size.h,
        output.origin.x + output.size.w <= i32::MAX,
        output.origin.y + output.size.h <= i32::MAX,
    ensures
        output.origin.x <= popup_place(anchor, popup, output).0,
        popup_place(anchor, popup, output).0 + popup.w <= output.origin.x + output.size.w,
        output.origin.y <= popup_place(anchor, popup, output).1,
        popup_place(anchor, popup, output).1 + popup.h <= output.origin.y + output.size.h,
{
}

/// A popup does not cover the text cursor where there is room below or above it.
pub proof fn popups_leave_the_cursor_free(anchor: Rect, popup: Size, output: Rect)
    requires
        0 <= popup.w <= output.size.w,
        0 <= popup.h <= output.size.h,
        output.origin.x + output.size.w <= i32::MAX,
        output.origin.y + output.size.h < i32::MAX,
        0 <= anchor.size.h,
        output.origin.y <= anchor.origin.y,
        anchor.origin.y + anchor.size.h <= output.origin.y + output.size.h,
        anchor.origin.y + anchor.size.h + popup.h <= output.origin.y + output.size.h
            || output.origin.y <= anchor.origin.y - popup.h,
    ensures
        ({
            let y = popup_place(anchor, popup, output).1;
            y >= anchor.origin.y + anchor.size.h || y + popup.h <= anchor.origin.y
        }),
{
}

/// The rectangle that a popup is placed by, given the text cursor on a surface
/// and the surface's place and size. Without a text cursor the whole surface
/// counts.
pub open spec fn anchor_rect(rect: Option<(i32, i32, i32, i32)>, origin: Point, size: Size) -> Rect {
    match rect {
        Some((x, y, width, height)) => Rect {
            origin: Point {
                x: saturating_sum(x as int, origin.x as int) as i32,
                y: saturating_sum(y as int, origin.y as int) as i32,
            },
            size: Size {
                w: if width > 1 {
                    width
                } else {
                    1
                },
                h: if height > 1 {
                    height
                } else {
                    1
                },
            },
        },
        None => Rect {
            origin,
            size: Size {
                w: if size.w > 1 {
                    size.w
                } else {
                    1
                },
                h: if size.h > 1 {
                    size.h
                } else {
                    1
                },
            },
        },
    }
}

/// Find the rectangle that a popup is placed by.
pub fn input_popup_anchor(
    rect: Option<(i32, i32, i32, i32)>,
    surface_origin: Point,
    surface_size: Size,
) -> (anchor: Rect)
    ensures
        anchor == anchor_rect(rect, surface_origin, surface_size),
{
    match rect {
        Some((x, y, width, height)) => Rect::new(
            saturating_add(x, surface_origin.x),
            saturating_add(y, surface_origin.y),
            larger(width, 1),
            larger(height, 1),
        ),
        None => Rect::new(
            surface_origin.x,
            surface_origin.y,
            larger(surface_size.w, 1),
            larger(surface_size.h, 1),
        ),
    }
}

/// What popups are placed by: a rectangle, and the text cursor on the desktop
/// where there is one.
#[derive(Debug, Clone, Copy, PartialEq, Eq)]
pub struct PopupContext {
    pub anchor: Rect,
    pub cursor_rectangle: Option<(i32, i32, i32, i32)>,
}

/// What popups are placed by. `surface` is the place and size of the anchor's
/// surface, while that exists.
pub open spec fn context_of(
    cursor_anchor: Option<TextInputCursorAnchor>,
    surface: Option<(Point, Size)>,
    desktop_rect: Option<(i32, i32, i32, i32)>,
) -> Option<PopupContext> {
    match cursor_anchor {
        Some(anchor) => match surface {
            None => None,
            Some((origin, size)) => Some(
                PopupContext {
                    anchor: anchor_rect(anchor.rect, origin, size),
                    cursor_rectangle: match anchor.rect {
                        Some((x, y, width, height)) => Some(
                            (
                                saturating_sum(x as int, origin.x as int) as i32,
                                saturating_sum(y as int, origin.y as int) as i32,
                                width,
                                height,
                            ),
                        ),
                        None => None,
                    },
                },
            ),
        },
        None => match desktop_rect {
            None => None,
            Some(rect) => Some(
                PopupContext {
                    anchor: anchor_rect(Some(rect), Point { x: 0, y: 0 }, Size { w: 1, h: 1 }),
                    cursor_rectangle: Some(rect),
                },
            ),
        },
    }
}

/// Find what popups are placed by.
pub fn popup_context(
    cursor_anchor: Option<TextInputCursorAnchor>,
    surface: Option<(Point, Size)>,
    desktop_rect: Option<(i32, i32, i32, i32)>,
) -> (context: Option<PopupContext>)
    ensures
        context == context_of(cursor_anchor, surface, desktop_rect),
{
    match cursor_anchor {
        Some(anchor) => match surface {
            None => None,
            Some((origin, size)) => {
                let cursor_rectangle = match anchor.rect {
                    Some((x, y, width, height)) => Some(
                        (saturating_add(x, origin.x), saturating_add(y, origin.y), width, height),
                    ),
                    None => None,
                };
                Some(
                    PopupContext {
                        anchor: input_popup_anchor(anchor.rect, origin, size),
                        cursor_rectangle,
                    },
                )
            },
        },
        None => match desktop_rect {
            None => None,
            Some(rect) => Some(
                PopupContext {
                    anchor: input_popup_anchor(
                        Some(rect),
                        Point { x: 0, y: 0 },
                        Size { w: 1, h: 1 },
                    ),
                    cursor_rectangle: Some(rect),
                },
            ),
        },
    }
}

/// The output that a point is on: the first that covers it, or else the one
/// given for that case.
pub open spec fn output_at(outputs: Seq<Rect>, point: Point, otherwise: Rect) -> Rect
    decreases outputs.len(),
{
    if outputs.len() == 0 {
        otherwise
    } else if outputs[0].covers(point.x as int, point.y as int) {
        outputs[0]
    } else {
        output_at(outputs.drop_first(), point, otherwise)
    }
}

/// Find the output that a point is on.
pub fn find_output(outputs: &[Rect], point: Point, otherwise: Rect) -> (output: Rect)
    ensures
        output == output_at(outputs@, point, otherwise),
{
    let mut index: usize = 0;
    assert(outputs@.skip(0) =~= outputs@);
    while index < outputs.len()
        invariant
            index <= outputs.len(),
            output_at(outputs@, point, otherwise) == output_at(
                outputs@.skip(index as int),
                point,
                otherwise,
            ),
        decreases outputs.len() - index,
    {
        if outputs[index].contains(point) {
            return outputs[index];
        }
        assert(outputs@.skip(index as int).drop_first() =~= outputs@.skip(index as int + 1));
        index += 1;
    }
    otherwise
}

/// A popup of an input method.
#[derive(Debug, Clone, Copy, PartialEq, Eq)]
pub struct InputPopup {
    pub resource: u64,
    /// The popup's surface, until it is destroyed.
    pub surface: Option<u64>,
    /// The text cursor that the input method was last told, relative to the
    /// popup.
    pub last_text_input_rectangle: Option<(i32, i32, i32, i32)>,
}

/// Where a popup goes, and what the input method is told of the text cursor.
#[derive(Debug, Clone, Copy, PartialEq, Eq)]
pub struct PopupPlacement {
    pub resource: u64,
    pub surface: u64,
    pub position: Point,
    pub text_input_rectangle: Option<(i32, i32, i32, i32)>,
}

/// The text cursor relative to a popup.
pub open spec fn relative_cursor(cursor: (i32, i32, i32, i32), place: Point) -> (i32, i32, i32, i32) {
    (
        saturating_sum(cursor.0 as int, -(place.x as int)) as i32,
        saturating_sum(cursor.1 as int, -(place.y as int)) as i32,
        cursor.2,
        cursor.3,
    )
}

/// Whether the input method is told of a text cursor: when it asked, or when it
/// was told another one before.
pub open spec fn told(popup: InputPopup, cursor: (i32, i32, i32, i32), force: bool) -> bool {
    force || popup.last_text_input_rectangle != Some(cursor)
}

/// Place one popup. The input method is told of the text cursor when it must be,
/// or when it changed. Without a text cursor, what was told is forgotten.
pub fn place_popup(
    popup: &mut InputPopup,
    size: Size,
    context: PopupContext,
    output: Rect,
    force_notify: bool,
) -> (placement: Option<PopupPlacement>)
    ensures
        old(popup).surface is None ==> placement is None && *final(popup) == *old(popup),
        old(popup).surface is Some ==> {
            let place = placement->0.position;
            &&& placement is Some
            &&& (place.x as int, place.y as int) == popup_place(context.anchor, size, output)
            &&& placement->0.resource == old(popup).resource
            &&& Some(placement->0.surface) == old(popup).surface
            &&& placement->0.text_input_rectangle == match context.cursor_rectangle {
                Some(cursor) if told(
                    *old(popup),
                    relative_cursor(cursor, place),
                    force_notify,
                ) => Some(relative_cursor(cursor, place)),
                _ => None,
            }
            &&& *final(popup) == (InputPopup {
                last_text_input_rectangle: match context.cursor_rectangle {
                    Some(cursor) => Some(relative_cursor(cursor, place)),
                    None => None,
                },
                ..*old(popup)
            })
        },
{
    match popup.surface {
        None => None,
        Some(surface) => {
            let position = input_popup_position(context.anchor, size, output);
            let mut told_rectangle: Option<(i32, i32, i32, i32)> = None;
            match context.cursor_rectangle {
                Some((x, y, width, height)) => {
                    let left: i32 = saturating_sub(x, position.x);
                    let top: i32 = saturating_sub(y, position.y);
                    let known = match popup.last_text_input_rectangle {
                        Some((a, b, c, d)) => a == left && b == top && c == width && d == height,
                        None => false,
                    };
                    if force_notify || !known {
                        told_rectangle = Some((left, top, width, height));
                        popup.last_text_input_rectangle = told_rectangle;
                    }
                },
                None => {
                    popup.last_text_input_rectangle = None;
                },
            }
            Some(
                PopupPlacement {
                    resource: popup.resource,
                    surface,
                    position,
                    text_input_rectangle: told_rectangle,
                },
            )
        },
    }
}

/// Within the coordinate range, a popup is placed right below the text cursor if
/// there is room there, right above it otherwise, and level with its left edge, all
/// as far as the output allows.
pub proof fn popups_are_placed_by_the_cursor(anchor: Rect, popup: Size, output: Rect, place: Point)
    requires
        call_ensures(input_popup_position, (anchor, popup, output), place),
        0 <= popup.w <= output.size.w,
        0 <= popup.h <= output.size.h,
        output.origin.x + output.size.w <= i32::MAX,
        output.origin.y + output.size.h < i32::MAX,
        0 <= anchor.size.w && 0 <= anchor.size.h,
        output.origin.x <= anchor.origin.x,
        output.origin.y <= anchor.origin.y,
        anchor.origin.y + anchor.size.h <= output.origin.y + output.size.h,
    ensures
        anchor.origin.x + popup.w <= output.origin.x + output.size.w ==> place.x == anchor.origin.x,
        anchor.origin.x + popup.w > output.origin.x + output.size.w ==> place.x + popup.w
            == output.origin.x + output.size.w,
        anchor.origin.y + anchor.size.h + popup.h <= output.origin.y + output.size.h ==> place.y
            == anchor.origin.y + anchor.size.h,
        anchor.origin.y + anchor.size.h + popup.h > output.origin.y + output.size.h
            && anchor.origin.y - popup.h >= output.origin.y ==> place.y + popup.h
            == anchor.origin.y,
        output.origin.x <= place.x && place.x + popup.w <= output.origin.x + output.size.w,
        output.origin.y <= place.y && place.y + popup.h <= output.origin.y + output.size.h,
{
}

/// The rectangle that a popup is placed by is the text cursor, moved by the place of
/// its surface, or the surface itself; it has at least one pixel.
pub proof fn anchors_are_where_the_text_is(
    rect: Option<(i32, i32, i32, i32)>,
    origin: Point,
    size: Size,
    anchor: Rect,
)
    requires
        call_ensures(input_popup_anchor, (rect, origin, size), anchor),
    ensures
        anchor.size.w >= 1 && anchor.size.h >= 1,
        rect matches Some((x, y, width, height)) ==> {
            &&& i32::MIN <= x + origin.x <= i32::MAX ==> anchor.origin.x - origin.x == x
            &&& i32::MIN <= y + origin.y <= i32::MAX ==> anchor.origin.y - origin.y == y
            &&& width >= 1 ==> anchor.size.w == width
            &&& height >= 1 ==> anchor.size.h == height
        },
        rect is None ==> {
            &&& anchor.origin.x == origin.x && anchor.origin.y == origin.y
            &&& size.w >= 1 ==> anchor.size.w == size.w
            &&& size.h >= 1 ==> anchor.size.h == size.h
        },
{
}

/// A text cursor on a surface counts before one that was told for the desktop, and
/// is moved by the surface's place. Without either, popups have no place.
pub proof fn popups_go_by_the_surface_first(
    cursor_anchor: Option<TextInputCursorAnchor>,
    surface: Option<(Point, Size)>,
    desktop_rect: Option<(i32, i32, i32, i32)>,
    context: Option<PopupContext>,
)
    requires
        call_ensures(popup_context, (cursor_anchor, surface, desktop_rect), context),
    ensures
        context is Some <==> (cursor_anchor is Some && surface is Some) || (cursor_anchor is None
            && desktop_rect is Some),
        cursor_anchor is None && desktop_rect is Some ==> context->0.cursor_rectangle
            == desktop_rect && context->0.anchor.origin.x == (desktop_rect->0).0
            && context->0.anchor.origin.y == (desktop_rect->0).1,
        cursor_anchor is Some && surface is Some ==> {
            let (origin, size) = surface->0;
            &&& context->0.cursor_rectangle is Some <==> cursor_anchor->0.rect is Some
            &&& cursor_anchor->0.rect matches Some((x, y, width, height)) ==> {
                let told = context->0.cursor_rectangle->0;
                &&& told.2 == width && told.3 == height
                &&& i32::MIN <= x + origin.x <= i32::MAX ==> told.0 - origin.x == x
                    && context->0.anchor.origin.x == told.0
                &&& i32::MIN <= y + origin.y <= i32::MAX ==> told.1 - origin.y == y
                    && context->0.anchor.origin.y == told.1
            }
        },
{
}

proof fn lemma_output_at(outputs: Seq<Rect>, point: Point, otherwise: Rect)
    ensures
        (exists|i: int|
            0 <= i < outputs.len() && (#[trigger] outputs[i]).covers(
                point.x as int,
                point.y as int,
            )) ==> outputs.contains(output_at(outputs, point, otherwise)) && output_at(
            outputs,
            point,
            otherwise,
        ).covers(point.x as int, point.y as int),
        (forall|i: int|
            0 <= i < outputs.len() ==> !(#[trigger] outputs[i]).covers(
                point.x as int,
                point.y as int,
            )) ==> output_at(outputs, point, otherwise) == otherwise,
    decreases outputs.len(),
{
    if outputs.len() > 0 {
        let rest = outputs.drop_first();
        let x = point.x as int;
        let y = point.y as int;
        lemma_output_at(rest, point, otherwise);
        if outputs[0].covers(x, y) {
            assert(outputs.contains(outputs[0]));
        } else {
            if exists|i: int| 0 <= i < outputs.len() && (#[trigger] outputs[i]).covers(x, y) {
                let i = choose|i: int|
                    0 <= i < outputs.len() && (#[trigger] outputs[i]).covers(x, y);
                assert(rest[i - 1] == outputs[i]);
                let found = output_at(rest, point, otherwise);
                let k = rest.index_of(found);
                assert(outputs[k + 1] == found);
            }
            if forall|i: int| 0 <= i < outputs.len() ==> !(#[trigger] outputs[i]).covers(x, y) {
                assert forall|i: int| 0 <= i < rest.len() implies !(#[trigger] rest[i]).covers(
                    x,
                    y,
                ) by {
                    assert(rest[i] == outputs[i + 1]);
                }
            }
        }
    }
}

/// The output of a point is one of the outputs and covers the point, wherever one
/// does.
pub proof fn points_are_on_their_output(
    outputs: &[Rect],
    point: Point,
    otherwise: Rect,
    output: Rect,
)
    requires
        call_ensures(find_output, (outputs, point, otherwise), output),
    ensures
        (exists|i: int|
            0 <= i < outputs@.len() && (#[trigger] outputs@[i]).covers(
                point.x as int,
                point.y as int,
            )) ==> {
            &&& outputs@.contains(output)
            &&& output.origin.x <= point.x && point.x < output.origin.x + output.size.w
            &&& output.origin.y <= point.y && point.y < output.origin.y + output.size.h
        },
        (forall|i: int|
            0 <= i < outputs@.len() ==> !(#[trigger] outputs@[i]).covers(
                point.x as int,
                point.y as int,
            )) ==> output == otherwise,
{
    lemma_output_at(outputs@, point, otherwise);
}

/// The input method is told the text cursor counted from the popup's corner, when it
/// asked or when it was told something else before; a popup whose surface is gone is
/// not placed.
pub proof fn input_methods_hear_of_cursor_changes(
    popup: &mut InputPopup,
    size: Size,
    context: PopupContext,
    output: Rect,
    force: bool,
    placement: Option<PopupPlacement>,
)
    requires
        call_ensures(place_popup, (popup, size, context, output, force), placement),
    ensures
        placement is Some <==> old(popup).surface is Some,
        placement matches Some(placed) ==> {
            &&& placed.resource == old(popup).resource
            &&& Some(placed.surface) == old(popup).surface
            &&& final(popup).surface == old(popup).surface
                && final(popup).resource == old(popup).resource
            &&& context.cursor_rectangle is None
                ==> placed.text_input_rectangle is None
                    && final(popup).last_text_input_rectangle is None
            &&& context.cursor_rectangle matches Some((x, y, width, height)) ==> {
                let known = final(popup).last_text_input_rectangle->0;
                &&& final(popup).last_text_input_rectangle is Some
                &&& i32::MIN <= x - placed.position.x <= i32::MAX ==> known.0 + placed.position.x
                    == x
                &&& i32::MIN <= y - placed.position.y <= i32::MAX ==> known.1 + placed.position.y
                    == y
                &&& known.2 == width && known.3 == height
                &&& placed.text_input_rectangle is Some <==> force
                    || old(popup).last_text_input_rectangle
                        != final(popup).last_text_input_rectangle
                &&& placed.text_input_rectangle is Some
                    ==> placed.text_input_rectangle == final(popup).last_text_input_rectangle
            }
        },
{
}

} // verus!
