//! The hardware cursor: sprite validation, the sprite buffers, and placement.

use vstd::prelude::*;
use crate::host::HardwareCursor;
use crate::kms::error::DrmError;

verus! {

/// How many distinct sprites are kept as display buffers.
pub const MAX_CURSOR_BUFFERS: usize = 64;

/// A sprite that has been uploaded to a display buffer of fixed extent.
#[derive(Debug)]
pub struct CursorBuffer {
    /// The framebuffer that shows the sprite.
    pub framebuffer: u32,
    /// The size of the display buffer; the sprite sits in its corner.
    pub extent: (u32, u32),
    /// The sprite's pixels.
    pub pixels: Vec<u8>,
    /// The sprite's own size.
    pub content_size: (u32, u32),
    /// The number of bytes in the sprite.
    pub len: usize,
}

/// The sprite that is shown, where, and by which point it is held.
#[derive(Debug, Clone, Copy, PartialEq, Eq)]
pub struct CursorState {
    /// The index of the sprite's buffer.
    pub buffer: usize,
    /// The desktop pixel that the hotspot is on.
    pub position: (i32, i32),
    /// The pixel of the sprite that points.
    pub hotspot: (u32, u32),
}

/// The placement of a sprite on one output: the part of the buffer shown, and
/// where on the output it goes.
#[derive(Debug, Clone, Copy, PartialEq, Eq)]
pub struct CursorPlaneRect {
    pub src: (u32, u32, u32, u32),
    pub dst: (i32, i32, u32, u32),
}

impl CursorBuffer {
    /// Whether the buffer holds the given sprite.
    pub open spec fn holds(self, size: (u32, u32), pixels: Seq<u8>) -> bool {
        self.content_size == size && self.len == pixels.len() && self.pixels@ == pixels
    }

    /// Whether the buffer holds the given sprite.
    pub fn matches(&self, size: (u32, u32), pixels: &[u8]) -> (same: bool)
        ensures
            same == self.holds(size, pixels@),
    {
        if self.content_size.0 != size.0 || self.content_size.1 != size.1 || self.len
            != pixels.len() || self.pixels.len() != pixels.len() {
            return false;
        }
        let mut index: usize = 0;
        while index < pixels.len()
            invariant
                index <= pixels.len(),
                self.pixels.len() == pixels.len(),
                forall|i: int| 0 <= i < index ==> self.pixels@[i] == pixels@[i],
            decreases pixels.len() - index,
        {
            if self.pixels[index] != pixels[index] {
                return false;
            }
            index += 1;
        }
        assert(self.pixels@ =~= pixels@);
        true
    }
}

/// Whether a sprite of the given size, held by its hotspot at `position`,
/// overlaps the output.
pub open spec fn sprite_overlaps(
    position: (i32, i32),
    hotspot: (u32, u32),
    image_size: (u32, u32),
    output_origin: (u32, u32),
    output_size: (u32, u32),
) -> bool {
    let left = position.0 - hotspot.0;
    let top = position.1 - hotspot.1;
    &&& left + image_size.0 > output_origin.0
    &&& top + image_size.1 > output_origin.1
    &&& left < output_origin.0 + output_size.0
    &&& top < output_origin.1 + output_size.1
}

/// Place a sprite on an output, if the two overlap.
///
/// The whole sprite is shown: cursor planes take the full source, and the
/// display clips what hangs over an edge. A sprite that straddles two outputs
/// is placed on both.
pub fn cursor_plane_rect(
    position: (i32, i32),
    hotspot: (u32, u32),
    image_size: (u32, u32),
    output_origin: (u32, u32),
    output_size: (u32, u32),
) -> (placement: Option<CursorPlaneRect>)
    ensures
        placement == if sprite_overlaps(
            position,
            hotspot,
            image_size,
            output_origin,
            output_size,
        ) {
            Some(
                CursorPlaneRect {
                    src: (0, 0, image_size.0, image_size.1),
                    dst: (
                        (position.0 - hotspot.0 - output_origin.0) as i32,
                        (position.1 - hotspot.1 - output_origin.1) as i32,
                        image_size.0,
                        image_size.1,
                    ),
                },
            )
        } else {
            None
        },
{
    let left: i64 = position.0 as i64 - hotspot.0 as i64;
    let top: i64 = position.1 as i64 - hotspot.1 as i64;
    let right: i64 = left + image_size.0 as i64;
    let bottom: i64 = top + image_size.1 as i64;
    let output_left: i64 = output_origin.0 as i64;
    let output_top: i64 = output_origin.1 as i64;
    let output_right: i64 = output_left + output_size.0 as i64;
    let output_bottom: i64 = output_top + output_size.1 as i64;
    if right <= output_left || bottom <= output_top || left >= output_right || top >= output_bottom {
        return None;
    }
    Some(
        CursorPlaneRect {
            src: (0, 0, image_size.0, image_size.1),
            dst: (
                (left - output_left) as i32,
                (top - output_top) as i32,
                image_size.0,
                image_size.1,
            ),
        },
    )
}

/// What is wrong with a sprite for a display that shows sprites up to `extent`,
/// if anything. Problems are reported in this order.
pub open spec fn sprite_fault(cursor: HardwareCursor, extent: (u32, u32)) -> Option<&'static str> {
    let width = cursor.size.0;
    let height = cursor.size.1;
    if width * height * 4 > u32::MAX {
        Some("sprite size overflows")
    } else if width == 0 || height == 0 || cursor.pixels@.len() != width * height * 4 {
        Some("sprite must be non-empty tightly packed BGRA8")
    } else if width > extent.0 || height > extent.1 {
        Some("sprite exceeds the DRM cursor-size capability")
    } else if cursor.hotspot.0 >= width || cursor.hotspot.1 >= height {
        Some("hotspot lies outside the sprite")
    } else {
        None
    }
}

/// Check a sprite before it is uploaded.
pub fn check_sprite(cursor: &HardwareCursor<'_>, extent: (u32, u32)) -> (result: Result<
    (),
    DrmError,
>)
    ensures
        match sprite_fault(*cursor, extent) {
            Some(fault) => result == Err::<(), DrmError>(DrmError::CursorUnsupported(fault)),
            None => result is Ok,
        },
{
    let width: u32 = cursor.size.0;
    let height: u32 = cursor.size.1;
    let expected: u32 = match width.checked_mul(height) {
        Some(count) => match count.checked_mul(4) {
            Some(bytes) => bytes,
            None => return Err(DrmError::CursorUnsupported("sprite size overflows")),
        },
        None => {
            assert(width * height * 4 > u32::MAX) by (nonlinear_arith)
                requires
                    width * height > u32::MAX,
            ;
            return Err(DrmError::CursorUnsupported("sprite size overflows"));
        },
    };
    if width == 0 || height == 0 || cursor.pixels.len() != expected as usize {
        return Err(
            DrmError::CursorUnsupported("sprite must be non-empty tightly packed BGRA8"),
        );
    }
    if width > extent.0 || height > extent.1 {
        return Err(DrmError::CursorUnsupported("sprite exceeds the DRM cursor-size capability"));
    }
    if cursor.hotspot.0 >= width || cursor.hotspot.1 >= height {
        return Err(DrmError::CursorUnsupported("hotspot lies outside the sprite"));
    }
    Ok(())
}

/// The byte at `at` of a display buffer with rows of `pitch` bytes that shows a
/// sprite with rows of `row_bytes` bytes in its corner and nothing else.
pub open spec fn sprite_byte(pixels: Seq<u8>, row_bytes: int, pitch: int, at: int) -> u8 {
    let row = at / pitch;
    let column = at % pitch;
    if column < row_bytes && row * row_bytes + column < pixels.len() {
        pixels[row * row_bytes + column]
    } else {
        0
    }
}

/// Copy a sprite into the rows of a cleared display buffer.
pub fn sprite_image(pixels: &[u8], row_bytes: usize, pitch: usize, len: usize) -> (image: Vec<u8>)
    requires
        0 < row_bytes <= pitch,
    ensures
        image.len() == len,
        forall|at: int|
            0 <= at < len ==> #[trigger] image@[at] == sprite_byte(
                pixels@,
                row_bytes as int,
                pitch as int,
                at,
            ),
{
    let mut image: Vec<u8> = Vec::new();
    let mut row_start: usize = 0;
    let mut column: usize = 0;
    let ghost mut row: int = 0;
    while image.len() < len
        invariant
            image.len() <= len,
            0 < row_bytes <= pitch,
            0 <= column < pitch,
            row >= 0,
            image.len() == row * pitch + column,
            row_start <= pixels.len(),
            row * row_bytes < pixels.len() ==> row_start == row * row_bytes,
            row * row_bytes >= pixels.len() ==> row_start == pixels.len(),
            forall|at: int|
                0 <= at < image.len() ==> #[trigger] image@[at] == sprite_byte(
                    pixels@,
                    row_bytes as int,
                    pitch as int,
                    at,
                ),
        decreases len - image.len(),
    {
        let ghost at = image@.len() as int;
        proof {
            vstd::arithmetic::div_mod::lemma_fundamental_div_mod_converse(
                at,
                pitch as int,
                row,
                column as int,
            );
        }
        let byte: u8 = if column < row_bytes && column < pixels.len() - row_start {
            pixels[row_start + column]
        } else {
            0
        };
        assert(byte == sprite_byte(pixels@, row_bytes as int, pitch as int, at));
        image.push(byte);
        column += 1;
        if column == pitch {
            column = 0;
            proof {
                assert((row + 1) * pitch == row * pitch + pitch) by (nonlinear_arith);
                assert((row + 1) * row_bytes == row * row_bytes + row_bytes) by (nonlinear_arith);
                row = row + 1;
            }
            row_start = if pixels.len() - row_start > row_bytes {
                row_start + row_bytes
            } else {
                pixels.len()
            };
        }
    }
    image
}

/// The sprite buffers, the most recently used first.
#[derive(Debug)]
pub struct CursorCache {
    pub buffers: Vec<CursorBuffer>,
}

/// Whether `index` is the first buffer that holds the sprite.
pub open spec fn first_holding(
    buffers: Seq<CursorBuffer>,
    size: (u32, u32),
    pixels: Seq<u8>,
    index: int,
) -> bool {
    &&& 0 <= index < buffers.len()
    &&& buffers[index].holds(size, pixels)
    &&& forall|i: int| 0 <= i < index ==> !(#[trigger] buffers[i]).holds(size, pixels)
}

/// The buffers with the one at `index` moved to the front.
pub open spec fn promoted(buffers: Seq<CursorBuffer>, index: int) -> Seq<CursorBuffer> {
    seq![buffers[index]] + buffers.remove(index)
}

impl CursorCache {
    /// A cache without buffers.
    pub fn new() -> (cache: CursorCache)
        ensures
            cache.buffers@.len() == 0,
    {
        CursorCache { buffers: Vec::new() }
    }

    /// Find the buffer of a sprite and move it to the front. The answer says
    /// whether there is one; where there is none, nothing changes.
    pub fn promote(&mut self, size: (u32, u32), pixels: &[u8]) -> (found: bool)
        ensures
            found ==> exists|index: int| #[trigger]
                first_holding(old(self).buffers@, size, pixels@, index) && final(self).buffers@
                    == promoted(old(self).buffers@, index),
            !found ==> final(self).buffers@ == old(self).buffers@ && forall|i: int|
                0 <= i < old(self).buffers@.len() ==> !(#[trigger] old(self).buffers@[i]).holds(
                    size,
                    pixels@,
                ),
    {
        let mut index: usize = 0;
        while index < self.buffers.len()
            invariant
                index <= self.buffers.len(),
                self.buffers@ == old(self).buffers@,
                forall|i: int|
                    0 <= i < index ==> !(#[trigger] self.buffers@[i]).holds(size, pixels@),
            decreases self.buffers.len() - index,
        {
            if self.buffers[index].matches(size, pixels) {
                let ghost before = self.buffers@;
                assert(first_holding(before, size, pixels@, index as int));
                let entry = self.buffers.remove(index);
                self.buffers.insert(0, entry);
                assert(self.buffers@ =~= promoted(before, index as int));
                return true;
            }
            index += 1;
        }
        false
    }

    /// Put a freshly uploaded sprite in front and hand back the buffers that no
    /// longer fit, the least recently used first.
    pub fn insert(&mut self, buffer: CursorBuffer) -> (evicted: Vec<CursorBuffer>)
        ensures
            final(self).buffers@ == (seq![buffer] + old(self).buffers@).take(
                if old(self).buffers@.len() < MAX_CURSOR_BUFFERS {
                    old(self).buffers@.len() as int + 1
                } else {
                    MAX_CURSOR_BUFFERS as int
                },
            ),
            evicted@ == (seq![buffer] + old(self).buffers@).skip(
                final(self).buffers@.len() as int,
            ).reverse(),
    {
        let ghost all = seq![buffer] + self.buffers@;
        self.buffers.insert(0, buffer);
        assert(self.buffers@ =~= all);
        let mut evicted: Vec<CursorBuffer> = Vec::new();
        assert(all.skip(all.len() as int).reverse() =~= evicted@);
        while self.buffers.len() > MAX_CURSOR_BUFFERS
            invariant
                self.buffers.len() <= all.len(),
                all.len() <= MAX_CURSOR_BUFFERS ==> self.buffers.len() == all.len(),
                all.len() > MAX_CURSOR_BUFFERS ==> self.buffers.len() >= MAX_CURSOR_BUFFERS,
                self.buffers@ == all.take(self.buffers.len() as int),
                evicted@ == all.skip(self.buffers.len() as int).reverse(),
            decreases self.buffers.len(),
        {
            let ghost len = self.buffers@.len() as int;
            if let Some(last) = self.buffers.pop() {
                evicted.push(last);
            }
            proof {
                assert(self.buffers@ =~= all.take(len - 1));
                assert(all.skip(len - 1) =~= seq![all[len - 1]] + all.skip(len));
                assert(evicted@ =~= all.skip(len - 1).reverse());
            }
        }
        evicted
    }

    /// Forget every buffer and hand them back.
    pub fn clear(&mut self) -> (buffers: Vec<CursorBuffer>)
        ensures
            buffers@ == old(self).buffers@,
            final(self).buffers@.len() == 0,
    {
        let mut buffers: Vec<CursorBuffer> = Vec::new();
        std::mem::swap(&mut buffers, &mut self.buffers);
        buffers
    }
}

/// Whether a buffer for the sprite is in front.
pub open spec fn in_front(buffers: Seq<CursorBuffer>, size: (u32, u32), pixels: Seq<u8>) -> bool {
    buffers.len() > 0 && buffers[0].holds(size, pixels)
}

/// Moving a sprite's buffer to the front puts the sprite there and loses no
/// buffer.
pub proof fn promotion_keeps_every_buffer(
    buffers: Seq<CursorBuffer>,
    size: (u32, u32),
    pixels: Seq<u8>,
    index: int,
)
    requires
        first_holding(buffers, size, pixels, index),
    ensures
        in_front(promoted(buffers, index), size, pixels),
        promoted(buffers, index).len() == buffers.len(),
        promoted(buffers, index).to_multiset() == buffers.to_multiset(),
{
    let rest = buffers.remove(index);
    broadcast use vstd::seq_lib::group_to_multiset_ensures;

    assert(seq![buffers[index]] + rest =~= rest.insert(0, buffers[index]));
    vstd::seq_lib::to_multiset_remove(buffers, index);
    vstd::seq_lib::to_multiset_insert(rest, 0, buffers[index]);
    assert(promoted(buffers, index).to_multiset() =~= buffers.to_multiset());
}

/// A sprite is placed on an output exactly where the two have a desktop pixel in common,
/// and then so that its hotspot is at the pointer.
pub proof fn sprites_are_held_by_their_hotspot(
    position: (i32, i32),
    hotspot: (u32, u32),
    image_size: (u32, u32),
    output_origin: (u32, u32),
    output_size: (u32, u32),
    placement: Option<CursorPlaneRect>,
)
    requires
        0 < image_size.0 <= i32::MAX && 0 < image_size.1 <= i32::MAX,
        0 < output_size.0 && 0 < output_size.1,
        output_origin.0 + output_size.0 <= i32::MAX,
        output_origin.1 + output_size.1 <= i32::MAX,
        call_ensures(
            cursor_plane_rect,
            (position, hotspot, image_size, output_origin, output_size),
            placement,
        ),
    ensures
        placement is Some <==> exists|x: int, y: int|
            #![trigger in_box(x, y, output_origin.0 as int, output_origin.1 as int, output_size)]
            in_box(x, y, output_origin.0 as int, output_origin.1 as int, output_size) && in_box(
                x,
                y,
                position.0 - hotspot.0,
                position.1 - hotspot.1,
                image_size,
            ),
        placement matches Some(rect) ==> {
            &&& output_origin.0 + rect.dst.0 + hotspot.0 == position.0
            &&& output_origin.1 + rect.dst.1 + hotspot.1 == position.1
            &&& rect.dst.2 == image_size.0 && rect.dst.3 == image_size.1
            &&& rect.src.0 == 0 && rect.src.1 == 0
            &&& rect.src.2 == image_size.0 && rect.src.3 == image_size.1
        },
{
    let left = position.0 - hotspot.0;
    let top = position.1 - hotspot.1;
    if placement is Some {
        let x = if left > output_origin.0 {
            left
        } else {
            output_origin.0 as int
        };
        let y = if top > output_origin.1 {
            top
        } else {
            output_origin.1 as int
        };
        assert(in_box(x, y, output_origin.0 as int, output_origin.1 as int, output_size));
        assert(in_box(x, y, left, top, image_size));
    }
}

/// Whether a pixel is in a box, given the box's corner and size.
pub open spec fn in_box(x: int, y: int, left: int, top: int, size: (u32, u32)) -> bool {
    left <= x < left + size.0 && top <= y < top + size.1
}

/// A sprite passes exactly if it has pixels, four bytes for each of them, fits the display,
/// and is held by a pixel of its own.
pub proof fn sound_sprites_pass(
    cursor: HardwareCursor<'_>,
    extent: (u32, u32),
    result: Result<(), DrmError>,
)
    requires
        call_ensures(check_sprite, (&cursor, extent), result),
    ensures
        result is Ok <==> {
            &&& 0 < cursor.size.0 <= extent.0 && 0 < cursor.size.1 <= extent.1
            &&& cursor.size.0 * cursor.size.1 * 4 <= u32::MAX
            &&& cursor.pixels@.len() == cursor.size.0 * cursor.size.1 * 4
            &&& cursor.hotspot.0 < cursor.size.0 && cursor.hotspot.1 < cursor.size.1
        },
        result is Err ==> result->Err_0 is CursorUnsupported,
{
}

/// The pixel byte in a given row and column of a sprite stands in the same row and column
/// of its display buffer; what is beside or below the sprite is cleared.
pub proof fn sprites_stand_in_the_corner(
    pixels: &[u8],
    row_bytes: usize,
    pitch: usize,
    len: usize,
    image: Vec<u8>,
    row: int,
    column: int,
)
    requires
        0 < row_bytes <= pitch,
        call_ensures(sprite_image, (pixels, row_bytes, pitch, len), image),
        0 <= row && 0 <= column < pitch,
        row * pitch + column < len,
    ensures
        image@.len() == len,
        column < row_bytes && row * row_bytes + column < pixels@.len() ==> image@[row * pitch
            + column] == pixels@[row * row_bytes + column],
        column >= row_bytes || row * row_bytes + column >= pixels@.len() ==> image@[row * pitch
            + column] == 0,
{
    assert(row * pitch >= 0) by (nonlinear_arith)
        requires
            row >= 0,
            pitch >= 0,
    ;
    let at = row * pitch + column;
    vstd::arithmetic::div_mod::lemma_fundamental_div_mod_converse(at, pitch as int, row, column);
    assert(image@[at] == sprite_byte(pixels@, row_bytes as int, pitch as int, at));
}

/// A sprite that was just inserted or found is in front, and no other sprite's buffer is
/// lost by looking.
pub proof fn found_sprites_come_to_the_front(
    cache: &mut CursorCache,
    size: (u32, u32),
    pixels: &[u8],
    found: bool,
    other: CursorBuffer,
)
    requires
        call_ensures(CursorCache::promote, (cache, size, pixels), found),
    ensures
        found ==> final(cache).buffers@.len() > 0 && final(cache).buffers@[0].content_size == size
            && final(cache).buffers@[0].pixels@ == pixels@,
        found <==> exists|i: int|
            0 <= i < old(cache).buffers@.len()
                && (#[trigger] old(cache).buffers@[i]).content_size == size
                && old(cache).buffers@[i].pixels@ == pixels@
                    && old(cache).buffers@[i].len == pixels@.len(),
        final(cache).buffers@.len() == old(cache).buffers@.len(),
        final(cache).buffers@.contains(other) <==> old(cache).buffers@.contains(other),
{
    let all = cache.buffers@;
    if found {
        let index = choose|index: int| #[trigger]
            first_holding(all, size, pixels@, index) && final(cache).buffers@ == promoted(
                all,
                index,
            );
        promotion_keeps_every_buffer(all, size, pixels@, index);
        let after = final(cache).buffers@;
        if all.contains(other) {
            let i = all.index_of(other);
            if i == index {
                assert(after[0] == other);
            } else if i < index {
                assert(after[i + 1] == other);
            } else {
                assert(after[i] == other);
            }
        }
        if after.contains(other) {
            let i = after.index_of(other);
            if i == 0 {
                assert(all[index] == other);
            } else if i <= index {
                assert(all[i - 1] == other);
            } else {
                assert(all[i] == other);
            }
        }
    } else if exists|i: int|
        0 <= i < all.len() && (#[trigger] all[i]).content_size == size && all[i].pixels@ == pixels@
            && all[i].len == pixels@.len() {
        let i = choose|i: int|
            0 <= i < all.len() && (#[trigger] all[i]).content_size == size && all[i].pixels@
                == pixels@ && all[i].len == pixels@.len();
        assert(all[i].holds(size, pixels@));
    }
}

/// A new sprite goes in front; up to sixty-four sprites are kept, and the one that was
/// used least recently goes first.
pub proof fn least_recent_sprites_go(
    cache: &mut CursorCache,
    buffer: CursorBuffer,
    evicted: Vec<CursorBuffer>,
    index: int,
)
    requires
        call_ensures(CursorCache::insert, (cache, buffer), evicted),
        0 <= index < cache.buffers@.len(),
    ensures
        final(cache).buffers@[0] == buffer,
        index < 63 ==> final(cache).buffers@[index + 1] == old(cache).buffers@[index],
        old(cache).buffers@.len() < 64 ==> evicted@.len() == 0,
        old(cache).buffers@.len() >= 64 ==> final(cache).buffers@.len() == 64 && evicted@.len()
            == old(cache).buffers@.len() - 63 && evicted@[0] == old(cache).buffers@.last(),
{
}

} // verus!
