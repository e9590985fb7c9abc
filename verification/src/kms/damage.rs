//! Damage hints for display updates.

use vstd::prelude::*;
use crate::geometry::{larger, saturating_add, saturating_sum, smaller, Rect};

verus! {

/// The left, top, right and bottom edge of an output on the desktop.
pub open spec fn output_edges(
    output_x: u32,
    output_y: u32,
    width: u32,
    height: u32,
) -> Seq<i32> {
    seq![
        output_x as i32,
        output_y as i32,
        (output_x + width) as i32,
        (output_y + height) as i32,
    ]
}

/// The edges of the part of `rect` that lies on the output with edges `full`.
pub open spec fn clip_edges(rect: Rect, full: Seq<i32>) -> Seq<i32> {
    let right = saturating_sum(rect.origin.x as int, rect.size.w as int) as i32;
    let bottom = saturating_sum(rect.origin.y as int, rect.size.h as int) as i32;
    seq![
        if rect.origin.x >= full[0] {
            rect.origin.x
        } else {
            full[0]
        },
        if rect.origin.y >= full[1] {
            rect.origin.y
        } else {
            full[1]
        },
        if right <= full[2] {
            right
        } else {
            full[2]
        },
        if bottom <= full[3] {
            bottom
        } else {
            full[3]
        },
    ]
}

/// Whether edges enclose at least one pixel.
pub open spec fn encloses_pixels(edges: Seq<i32>) -> bool {
    edges[2] > edges[0] && edges[3] > edges[1]
}

/// The clips of each damaged rectangle that touches the output, in order.
pub open spec fn damage_clips(rects: Seq<Rect>, full: Seq<i32>) -> Seq<Seq<i32>>
    decreases rects.len(),
{
    if rects.len() == 0 {
        Seq::empty()
    } else {
        let earlier = damage_clips(rects.drop_last(), full);
        let clip = clip_edges(rects.last(), full);
        if encloses_pixels(clip) {
            earlier.push(clip)
        } else {
            earlier
        }
    }
}

/// The clips that an update reports for an output: the whole output where the
/// damage is unknown.
pub open spec fn output_clips(damage: Option<Seq<Rect>>, full: Seq<i32>) -> Seq<Seq<i32>> {
    match damage {
        None => seq![full],
        Some(rects) => damage_clips(rects, full),
    }
}

/// The rectangles of an optional list.
pub open spec fn known_damage(damage: Option<&[Rect]>) -> Option<Seq<Rect>> {
    match damage {
        None => None,
        Some(rects) => Some(rects@),
    }
}

/// The edges of a list of clips.
pub open spec fn clip_views(clips: Seq<[i32; 4]>) -> Seq<Seq<i32>> {
    clips.map_values(|c: [i32; 4]| c@)
}

/// Clip desktop-wide damage to one output, as left, top, right and bottom edges.
///
/// Unknown damage covers the whole output. An empty answer means that the
/// damage leaves the output alone. Each rectangle is clipped on its own, so
/// separate regions stay separate.
pub fn damage_clip_for_output(
    damage: Option<&[Rect]>,
    output_x: u32,
    output_y: u32,
    width: u32,
    height: u32,
) -> (clips: Vec<[i32; 4]>)
    requires
        output_x + width <= i32::MAX,
        output_y + height <= i32::MAX,
    ensures
        clip_views(clips@) == output_clips(
            known_damage(damage),
            output_edges(output_x, output_y, width, height),
        ),
{
    let left: i32 = output_x as i32;
    let top: i32 = output_y as i32;
    let right: i32 = left + width as i32;
    let bottom: i32 = top + height as i32;
    let ghost full = output_edges(output_x, output_y, width, height);
    let mut clips: Vec<[i32; 4]> = Vec::new();
    match damage {
        None => {
            clips.push([left, top, right, bottom]);
            assert(clips@[0]@ =~= full);
            assert(clip_views(clips@) =~= seq![full]);
        },
        Some(rects) => {
            let mut index: usize = 0;
            assert(clip_views(clips@) =~= damage_clips(rects@.take(0), full));
            while index < rects.len()
                invariant
                    index <= rects.len(),
                    full == seq![left, top, right, bottom],
                    clip_views(clips@) == damage_clips(rects@.take(index as int), full),
                decreases rects.len() - index,
            {
                let rect: Rect = rects[index];
                let x1: i32 = larger(rect.origin.x, left);
                let y1: i32 = larger(rect.origin.y, top);
                let x2: i32 = smaller(saturating_add(rect.origin.x, rect.size.w), right);
                let y2: i32 = smaller(saturating_add(rect.origin.y, rect.size.h), bottom);
                let ghost before = clips@;
                assert(rects@.take(index + 1).drop_last() =~= rects@.take(index as int));
                assert(clip_edges(rect, full) =~= seq![x1, y1, x2, y2]);
                if x2 > x1 && y2 > y1 {
                    let clip = [x1, y1, x2, y2];
                    clips.push(clip);
                    assert(clip@ =~= clip_edges(rect, full));
                    assert(clip_views(clips@) =~= clip_views(before).push(clip@));
                }
                index += 1;
            }
            assert(rects@.take(rects.len() as int) =~= rects@);
        },
    }
    clips
}

/// Whether edges enclose the pixel at `(x, y)`.
pub open spec fn edges_cover(edges: Seq<i32>, x: int, y: int) -> bool {
    edges[0] <= x < edges[2] && edges[1] <= y < edges[3]
}

/// Every clip encloses pixels of the output, and only damaged ones.
pub proof fn clips_stay_within_damage(rects: Seq<Rect>, full: Seq<i32>, clip: int, x: int, y: int)
    requires
        0 <= clip < damage_clips(rects, full).len(),
        edges_cover(damage_clips(rects, full)[clip], x, y),
    ensures
        encloses_pixels(damage_clips(rects, full)[clip]),
        edges_cover(full, x, y),
        exists|i: int| 0 <= i < rects.len() && (#[trigger] rects[i]).covers(x, y),
    decreases rects.len(),
{
    if rects.len() > 0 {
        let earlier = damage_clips(rects.drop_last(), full);
        if clip < earlier.len() {
            clips_stay_within_damage(rects.drop_last(), full, clip, x, y);
            let i = choose|i: int|
                0 <= i < rects.drop_last().len() && (#[trigger] rects.drop_last()[i]).covers(x, y);
            assert(rects[i].covers(x, y));
        } else {
            let last = rects.last();
            assert(rects[rects.len() - 1].covers(x, y));
        }
    }
}

/// No damaged pixel of the output is missing from the clips.
pub proof fn clips_cover_all_damage(rects: Seq<Rect>, full: Seq<i32>, x: int, y: int)
    requires
        edges_cover(full, x, y),
        exists|i: int| 0 <= i < rects.len() && (#[trigger] rects[i]).covers(x, y),
    ensures
        exists|c: int|
            0 <= c < damage_clips(rects, full).len() && #[trigger] edges_cover(
                damage_clips(rects, full)[c],
                x,
                y,
            ),
    decreases rects.len(),
{
    let clips = damage_clips(rects, full);
    let earlier = damage_clips(rects.drop_last(), full);
    if rects.last().covers(x, y) {
        let clip = clip_edges(rects.last(), full);
        assert(edges_cover(clip, x, y));
        assert(clips.last() == clip);
        assert(edges_cover(clips[clips.len() - 1], x, y));
    } else {
        let i = choose|i: int| 0 <= i < rects.len() && (#[trigger] rects[i]).covers(x, y);
        assert(rects.drop_last()[i].covers(x, y));
        clips_cover_all_damage(rects.drop_last(), full, x, y);
        let c = choose|c: int|
            0 <= c < earlier.len() && #[trigger] edges_cover(earlier[c], x, y);
        assert(clips[c] == earlier[c]);
        assert(edges_cover(clips[c], x, y));
    }
}

/// A desktop pixel is in a clip exactly if it is on the output and damaged; where the damage
/// is unknown, exactly if it is on the output.
pub proof fn clips_hold_the_damaged_pixels(
    damage: Option<&[Rect]>,
    output_x: u32,
    output_y: u32,
    width: u32,
    height: u32,
    clips: Vec<[i32; 4]>,
    x: int,
    y: int,
)
    requires
        output_x + width <= i32::MAX,
        output_y + height <= i32::MAX,
        call_ensures(damage_clip_for_output, (damage, output_x, output_y, width, height), clips),
        damage matches Some(rects) ==> forall|i: int|
            0 <= i < rects@.len() ==> (#[trigger] rects@[i]).size.w >= 0 && rects@[i].size.h >= 0,
    ensures
        (exists|c: int|
            #![trigger clips@[c]]
            0 <= c < clips@.len() && clips@[c]@[0] <= x < clips@[c]@[2] && clips@[c]@[1] <= y
                < clips@[c]@[3]) <==> output_x <= x < output_x + width && output_y <= y < output_y
            + height && (damage matches Some(rects) ==> exists|i: int|
            0 <= i < rects@.len() && (#[trigger] rects@[i]).covers(x, y)),
{
    let full = output_edges(output_x, output_y, width, height);
    assert(clip_views(clips@).len() == clips@.len());
    if damage is None {
        assert(clip_views(clips@)[0] == clips@[0]@);
        assert(clips@.len() == 1);
        assert(clips@[0]@[0] == output_x);
    } else {
        let rects = damage->0@;
        let parts = damage_clips(rects, full);
        if exists|c: int|
            #![trigger clips@[c]]
            0 <= c < clips@.len() && clips@[c]@[0] <= x < clips@[c]@[2] && clips@[c]@[1] <= y
                < clips@[c]@[3] {
            let c = choose|c: int|
                #![trigger clips@[c]]
                0 <= c < clips@.len() && clips@[c]@[0] <= x < clips@[c]@[2] && clips@[c]@[1] <= y
                    < clips@[c]@[3];
            assert(clip_views(clips@)[c] == clips@[c]@);
            clips_stay_within_damage(rects, full, c, x, y);
        }
        if output_x <= x < output_x + width && output_y <= y < output_y + height && exists|i: int|
            0 <= i < rects.len() && (#[trigger] rects[i]).covers(x, y) {
            clips_cover_all_damage(rects, full, x, y);
            let c = choose|c: int| 0 <= c < parts.len() && #[trigger] edges_cover(parts[c], x, y);
            assert(clip_views(clips@)[c] == clips@[c]@);
            assert(clips@[c]@[0] <= x);
        }
    }
}

} // verus!
