//! Pixel formats and the memory layouts a plane can scan out.

use vstd::prelude::*;
use crate::kms::error::DrmError;
use crate::seqs::{contains_u64, insert_sorted, lemma_insert_contains, strictly_increasing};

verus! {

/// 32-bit RGB without alpha (`XR24`).
pub const XRGB8888: u32 = 0x3432_5258;

/// 32-bit RGB with alpha (`AR24`).
pub const ARGB8888: u32 = 0x3432_5241;

/// 32-bit BGR without alpha (`XB24`).
pub const XBGR8888: u32 = 0x3432_4258;

/// 32-bit BGR with alpha (`AB24`).
pub const ABGR8888: u32 = 0x3432_4241;

/// 10-bit-per-channel BGR without alpha (`XB30`).
pub const XBGR2101010: u32 = 0x3033_4258;

/// 10-bit-per-channel BGR with alpha (`AB30`).
pub const ABGR2101010: u32 = 0x3033_4241;

/// The modifier of plain row-by-row memory.
pub const MODIFIER_LINEAR: u64 = 0;

/// The modifier that stands for "no explicit layout".
pub const MODIFIER_INVALID: u64 = 0x00ff_ffff_ffff_ffff;

/// Bytes before the arrays of a format table.
pub const FORMATS_HEADER: usize = 24;

/// Bytes of one modifier record in a format table.
pub const MODIFIER_RECORD: usize = 24;

/// The order in which a machine stores the bytes of an integer.
#[derive(Debug, Clone, Copy, PartialEq, Eq, Structural)]
pub enum ByteOrder {
    Little,
    Big,
}

/// The 32-bit integer stored at `at`.
pub open spec fn u32_at(order: ByteOrder, bytes: Seq<u8>, at: int) -> int {
    match order {
        ByteOrder::Little => bytes[at] + 0x100 * bytes[at + 1] + 0x1_0000 * bytes[at + 2]
            + 0x100_0000 * bytes[at + 3],
        ByteOrder::Big => bytes[at + 3] + 0x100 * bytes[at + 2] + 0x1_0000 * bytes[at + 1]
            + 0x100_0000 * bytes[at],
    }
}

/// The 64-bit integer stored at `at`.
pub open spec fn u64_at(order: ByteOrder, bytes: Seq<u8>, at: int) -> int {
    match order {
        ByteOrder::Little => u32_at(order, bytes, at) + 0x1_0000_0000 * u32_at(
            order,
            bytes,
            at + 4,
        ),
        ByteOrder::Big => u32_at(order, bytes, at + 4) + 0x1_0000_0000 * u32_at(order, bytes, at),
    }
}

/// Read the 32-bit integer at `at`.
fn read_u32(order: ByteOrder, bytes: &[u8], at: usize) -> (value: u32)
    requires
        at + 4 <= bytes.len(),
    ensures
        value == u32_at(order, bytes@, at as int),
{
    let a: u32 = bytes[at] as u32;
    let b: u32 = bytes[at + 1] as u32;
    let c: u32 = bytes[at + 2] as u32;
    let d: u32 = bytes[at + 3] as u32;
    match order {
        ByteOrder::Little => a + 0x100 * b + 0x1_0000 * c + 0x100_0000 * d,
        ByteOrder::Big => d + 0x100 * c + 0x1_0000 * b + 0x100_0000 * a,
    }
}

/// Read the 64-bit integer at `at`.
fn read_u64(order: ByteOrder, bytes: &[u8], at: usize) -> (value: u64)
    requires
        at + 8 <= bytes.len(),
    ensures
        value == u64_at(order, bytes@, at as int),
{
    let first: u64 = read_u32(order, bytes, at) as u64;
    let second: u64 = read_u32(order, bytes, at + 4) as u64;
    match order {
        ByteOrder::Little => first + 0x1_0000_0000 * second,
        ByteOrder::Big => second + 0x1_0000_0000 * first,
    }
}

/// The number of formats that a format table announces.
pub open spec fn format_count(order: ByteOrder, blob: Seq<u8>) -> int {
    u32_at(order, blob, 8)
}

/// Where a format table's format array begins.
pub open spec fn formats_offset(order: ByteOrder, blob: Seq<u8>) -> int {
    u32_at(order, blob, 12)
}

/// The number of modifier records that a format table announces.
pub open spec fn record_count(order: ByteOrder, blob: Seq<u8>) -> int {
    u32_at(order, blob, 16)
}

/// Where a format table's modifier records begin.
pub open spec fn records_offset(order: ByteOrder, blob: Seq<u8>) -> int {
    u32_at(order, blob, 20)
}

/// What is wrong with a format table, if anything. Problems are reported in
/// this order.
pub open spec fn table_fault(order: ByteOrder, blob: Seq<u8>) -> Option<&'static str> {
    let formats_end = formats_offset(order, blob) + 4 * format_count(order, blob);
    let records_end = records_offset(order, blob) + MODIFIER_RECORD * record_count(order, blob);
    if blob.len() < FORMATS_HEADER {
        Some("short header")
    } else if formats_end > usize::MAX {
        Some("format array overflow")
    } else if records_end > usize::MAX {
        Some("modifier array overflow")
    } else if formats_offset(order, blob) < FORMATS_HEADER || formats_end > blob.len() {
        Some("format array outside blob")
    } else if records_offset(order, blob) < FORMATS_HEADER || records_end > blob.len() {
        Some("modifier array outside blob")
    } else {
        None
    }
}

/// The format at `index` of a table's format array.
pub open spec fn format_at(order: ByteOrder, blob: Seq<u8>, index: int) -> int {
    u32_at(order, blob, formats_offset(order, blob) + 4 * index)
}

/// Whether `index` is the first place where the table lists `format`.
pub open spec fn first_format_index(
    order: ByteOrder,
    blob: Seq<u8>,
    format: u32,
    index: int,
) -> bool {
    &&& 0 <= index < format_count(order, blob)
    &&& format_at(order, blob, index) == format
    &&& forall|i: int| 0 <= i < index ==> format_at(order, blob, i) != format
}

/// Where modifier record `record` begins.
pub open spec fn record_at(order: ByteOrder, blob: Seq<u8>, record: int) -> int {
    records_offset(order, blob) + MODIFIER_RECORD * record
}

/// Whether bit `bit` of `mask` is set.
pub open spec fn bit_set(mask: u64, bit: int) -> bool {
    mask & (1u64 << (bit as u64)) != 0
}

/// Whether modifier record `record` covers the format at `index`: the record
/// holds a window of 64 formats, one bit each, that begins at its own offset.
pub open spec fn record_covers(order: ByteOrder, blob: Seq<u8>, record: int, index: int) -> bool {
    let base = record_at(order, blob, record);
    let mask = u64_at(order, blob, base) as u64;
    let offset = u32_at(order, blob, base + 8);
    offset <= index < offset + 64 && bit_set(mask, index - offset)
}

/// The modifier of modifier record `record`.
pub open spec fn record_modifier(order: ByteOrder, blob: Seq<u8>, record: int) -> int {
    u64_at(order, blob, record_at(order, blob, record) + 16)
}

/// Whether the first `records` modifier records accept `modifier` for the
/// format at `index`.
pub open spec fn records_accept(
    order: ByteOrder,
    blob: Seq<u8>,
    records: int,
    index: int,
    modifier: u64,
) -> bool {
    modifier != MODIFIER_INVALID && exists|r: int|
        0 <= r < records && #[trigger] record_covers(order, blob, r, index) && record_modifier(
            order,
            blob,
            r,
        ) == modifier
}

/// Whether the table accepts `modifier` for `format`. Only the format's first
/// entry counts.
pub open spec fn table_accepts(
    order: ByteOrder,
    blob: Seq<u8>,
    format: u32,
    modifier: u64,
) -> bool {
    exists|index: int| #[trigger]
        first_format_index(order, blob, format, index) && records_accept(
            order,
            blob,
            record_count(order, blob),
            index,
            modifier,
        )
}

/// Native layouts come first, in increasing order; linear memory comes last.
pub open spec fn preferred_before(left: u64, right: u64) -> bool {
    left != MODIFIER_LINEAR && (right == MODIFIER_LINEAR || left < right)
}

/// Every modifier is preferred to the ones after it.
pub open spec fn preference_ordered(s: Seq<u64>) -> bool {
    forall|i: int, j: int|
        #![trigger s[i], s[j]]
        0 <= i < j < s.len() ==> preferred_before(s[i], s[j])
}

/// The list of the modifiers that a sound table accepts for `format`: each
/// once, in order of preference.
pub open spec fn is_accepted_list(
    order: ByteOrder,
    blob: Seq<u8>,
    format: u32,
    list: Seq<u64>,
) -> bool {
    &&& preference_ordered(list)
    &&& forall|m: u64| #[trigger]
        list.contains(m) <==> table_accepts(order, blob, format, m)
}

/// What reading a format table gives: its first fault, or the accepted list.
pub open spec fn parsed(
    order: ByteOrder,
    blob: Seq<u8>,
    format: u32,
    result: Result<Vec<u64>, DrmError>,
) -> bool {
    match table_fault(order, blob) {
        Some(fault) => result == Err::<Vec<u64>, DrmError>(DrmError::MalformedFormats(fault)),
        None => result is Ok && is_accepted_list(order, blob, format, result->Ok_0@),
    }
}

/// Add a modifier to a preference-ordered list unless it is there.
fn insert_preferred(values: &mut Vec<u64>, value: u64)
    requires
        preference_ordered(old(values)@),
    ensures
        preference_ordered(final(values)@),
        forall|v: u64| #[trigger]
            final(values)@.contains(v) <==> old(values)@.contains(v) || v == value,
{
    let mut index: usize = 0;
    while index < values.len() && values[index] != MODIFIER_LINEAR && (value == MODIFIER_LINEAR
        || values[index] < value)
        invariant
            index <= values.len(),
            values@ == old(values)@,
            forall|i: int| 0 <= i < index ==> preferred_before(values@[i], value),
        decreases values.len() - index,
    {
        index += 1;
    }
    if index < values.len() && values[index] == value {
        assert(values@.contains(value));
        return;
    }
    let ghost before = values@;
    values.insert(index, value);
    proof {
        assert(values@ =~= before.insert(index as int, value));
        lemma_insert_contains(before, index as int, value);
    }
}

/// Read the modifiers that a plane's format table, stored in the given byte
/// order, accepts for `format`.
///
/// Bounds and arithmetic are checked before anything is read, so a table that
/// points outside itself is an error.
pub fn parse_format_modifiers_in(order: ByteOrder, blob: &[u8], format: u32) -> (result: Result<
    Vec<u64>,
    DrmError,
>)
    ensures
        parsed(order, blob@, format, result),
{
    if blob.len() < FORMATS_HEADER {
        return Err(DrmError::MalformedFormats("short header"));
    }
    let count_formats: usize = read_u32(order, blob, 8) as usize;
    let offset_formats: usize = read_u32(order, blob, 12) as usize;
    let count_modifiers: usize = read_u32(order, blob, 16) as usize;
    let offset_modifiers: usize = read_u32(order, blob, 20) as usize;
    let formats_end: usize = match count_formats.checked_mul(4) {
        Some(size) => match offset_formats.checked_add(size) {
            Some(end) => end,
            None => return Err(DrmError::MalformedFormats("format array overflow")),
        },
        None => return Err(DrmError::MalformedFormats("format array overflow")),
    };
    let modifiers_end: usize = match count_modifiers.checked_mul(MODIFIER_RECORD) {
        Some(size) => match offset_modifiers.checked_add(size) {
            Some(end) => end,
            None => return Err(DrmError::MalformedFormats("modifier array overflow")),
        },
        None => return Err(DrmError::MalformedFormats("modifier array overflow")),
    };
    if offset_formats < FORMATS_HEADER || formats_end > blob.len() {
        return Err(DrmError::MalformedFormats("format array outside blob"));
    }
    if offset_modifiers < FORMATS_HEADER || modifiers_end > blob.len() {
        return Err(DrmError::MalformedFormats("modifier array outside blob"));
    }
    let mut format_index: usize = 0;
    while format_index < count_formats && read_u32(
        order,
        blob,
        offset_formats + format_index * 4,
    ) != format
        invariant
            format_index <= count_formats,
            count_formats == format_count(order, blob@),
            offset_formats == formats_offset(order, blob@),
            offset_formats + 4 * count_formats <= blob.len(),
            forall|i: int| 0 <= i < format_index ==> format_at(order, blob@, i) != format,
        decreases count_formats - format_index,
    {
        format_index += 1;
    }
    let mut modifiers: Vec<u64> = Vec::new();
    if format_index == count_formats {
        return Ok(modifiers);
    }
    assert(first_format_index(order, blob@, format, format_index as int));
    let mut index: usize = 0;
    while index < count_modifiers
        invariant
            index <= count_modifiers,
            count_modifiers == record_count(order, blob@),
            offset_modifiers == records_offset(order, blob@),
            offset_modifiers + MODIFIER_RECORD * count_modifiers <= blob.len(),
            preference_ordered(modifiers@),
            forall|m: u64|
                modifiers@.contains(m) <==> records_accept(
                    order,
                    blob@,
                    index as int,
                    format_index as int,
                    m,
                ),
        decreases count_modifiers - index,
    {
        let base: usize = offset_modifiers + index * MODIFIER_RECORD;
        let mask: u64 = read_u64(order, blob, base);
        let offset: usize = read_u32(order, blob, base + 8) as usize;
        let modifier: u64 = read_u64(order, blob, base + 16);
        let covered = format_index >= offset && format_index - offset < 64 && mask & (1u64 << (
        (format_index - offset) as u64)) != 0;
        assert(covered == record_covers(order, blob@, index as int, format_index as int));
        if covered && modifier != MODIFIER_INVALID {
            insert_preferred(&mut modifiers, modifier);
        }
        proof {
            assert forall|m: u64|
                modifiers@.contains(m) <==> records_accept(
                    order,
                    blob@,
                    index + 1,
                    format_index as int,
                    m,
                ) by {
                if records_accept(order, blob@, index + 1, format_index as int, m) {
                    let r = choose|r: int|
                        0 <= r < index + 1 && #[trigger] record_covers(
                            order,
                            blob@,
                            r,
                            format_index as int,
                        ) && record_modifier(order, blob@, r) == m;
                    if r < index {
                        assert(records_accept(order, blob@, index as int, format_index as int, m));
                    }
                }
            }
        }
        index += 1;
    }
    proof {
        assert forall|m: u64|
            modifiers@.contains(m) <==> table_accepts(order, blob@, format, m) by {
            if table_accepts(order, blob@, format, m) {
                let other = choose|other: int| #[trigger]
                    first_format_index(order, blob@, format, other) && records_accept(
                        order,
                        blob@,
                        record_count(order, blob@),
                        other,
                        m,
                    );
                assert(other == format_index);
            }
        }
    }
    Ok(modifiers)
}

/// The bytes of the 16-bit integer one, as this machine stores them
/// (`u16::to_ne_bytes`): either the low byte comes first or the high byte does.
/// Which of the two depends on the machine and is not stated.
#[verifier::external_body]
fn native_one() -> (bytes: [u8; 2])
    ensures
        bytes@ == seq![1u8, 0u8] || bytes@ == seq![0u8, 1u8],
{
    1u16.to_ne_bytes()
}

/// The byte order of a machine that stores the 16-bit integer one as `one`.
pub fn byte_order_of(one: [u8; 2]) -> (order: ByteOrder)
    requires
        one@ == seq![1u8, 0u8] || one@ == seq![0u8, 1u8],
    ensures
        order == if one@[0] == 1 {
            ByteOrder::Little
        } else {
            ByteOrder::Big
        },
{
    if one[0] == 1 {
        ByteOrder::Little
    } else {
        ByteOrder::Big
    }
}

/// Read the modifiers that a plane's format table, as the kernel hands it over
/// in the machine's own byte order, accepts for `format`.
pub fn parse_format_modifiers(blob: &[u8], format: u32) -> (result: Result<Vec<u64>, DrmError>)
    ensures
        exists|order: ByteOrder| #[trigger] parsed(order, blob@, format, result),
{
    let order = byte_order_of(native_one());
    parse_format_modifiers_in(order, blob, format)
}

/// Two preference-ordered lists of the same modifiers are the same list: what a
/// table accepts fixes the answer.
pub proof fn preference_order_is_unique(left: Seq<u64>, right: Seq<u64>)
    requires
        preference_ordered(left),
        preference_ordered(right),
        forall|m: u64| left.contains(m) <==> right.contains(m),
    ensures
        left == right,
    decreases left.len(),
{
    if left.len() == 0 {
        if right.len() > 0 {
            assert(right.contains(right[0]));
        }
    } else {
        assert(left.contains(left[0]));
        assert(right.contains(left[0]));
        let k = choose|k: int| 0 <= k < right.len() && right[k] == left[0];
        assert(right.contains(right[0]));
        assert(left.contains(right[0]));
        let l = choose|l: int| 0 <= l < left.len() && left[l] == right[0];
        assert(left[0] == right[0]);
        let left_rest = left.skip(1);
        let right_rest = right.skip(1);
        assert forall|m: u64| left_rest.contains(m) <==> right_rest.contains(m) by {
            if left_rest.contains(m) {
                let i = choose|i: int| 0 <= i < left_rest.len() && left_rest[i] == m;
                assert(left[i + 1] == m);
                assert(left.contains(m));
                let j = choose|j: int| 0 <= j < right.len() && right[j] == m;
                assert(right_rest[j - 1] == m);
            }
            if right_rest.contains(m) {
                let i = choose|i: int| 0 <= i < right_rest.len() && right_rest[i] == m;
                assert(right[i + 1] == m);
                assert(right.contains(m));
                let j = choose|j: int| 0 <= j < left.len() && left[j] == m;
                assert(left_rest[j - 1] == m);
            }
        }
        preference_order_is_unique(left_rest, right_rest);
        assert(left =~= seq![left[0]] + left_rest);
        assert(right =~= seq![right[0]] + right_rest);
    }
}

/// Linear memory, where it is accepted at all, is the last choice.
pub proof fn linear_is_the_last_choice(list: Seq<u64>)
    requires
        preference_ordered(list),
        list.contains(MODIFIER_LINEAR),
    ensures
        list.last() == MODIFIER_LINEAR,
        forall|i: int| 0 <= i < list.len() - 1 ==> list[i] != MODIFIER_LINEAR,
{
    let last = list.len() - 1;
    let k = choose|k: int| 0 <= k < list.len() && list[k] == MODIFIER_LINEAR;
    if k < last {
        assert(preferred_before(list[k], list[last]));
    }
    assert forall|i: int| 0 <= i < last implies list[i] != MODIFIER_LINEAR by {
        assert(preferred_before(list[i], list[last]));
    }
}

/// Whether every one of `sets` holds `modifier`.
pub open spec fn in_every_set(sets: Seq<Vec<u64>>, modifier: u64) -> bool {
    forall|i: int| 0 <= i < sets.len() ==> (#[trigger] sets[i])@.contains(modifier)
}

/// The modifiers that every one of `sets` holds, in increasing order. No sets
/// share nothing.
pub fn intersect_modifier_sets(sets: &[Vec<u64>]) -> (shared: Vec<u64>)
    ensures
        strictly_increasing(shared@),
        forall|m: u64| shared@.contains(m) <==> sets.len() > 0 && in_every_set(sets@, m),
{
    let mut shared: Vec<u64> = Vec::new();
    if sets.len() == 0 {
        return shared;
    }
    let first = &sets[0];
    let mut index: usize = 0;
    while index < first.len()
        invariant
            index <= first.len(),
            sets.len() > 0,
            *first == sets@[0],
            strictly_increasing(shared@),
            forall|m: u64|
                shared@.contains(m) <==> in_every_set(sets@, m) && first@.take(
                    index as int,
                ).contains(m),
        decreases first.len() - index,
    {
        let modifier: u64 = first[index];
        let mut everywhere = true;
        let mut other: usize = 1;
        while other < sets.len() && everywhere
            invariant
                1 <= other <= sets.len(),
                sets@[0]@.contains(modifier),
                everywhere ==> forall|i: int|
                    0 <= i < other ==> (#[trigger] sets@[i])@.contains(modifier),
                !everywhere ==> !in_every_set(sets@, modifier),
            decreases sets.len() - other,
        {
            if !contains_u64(sets[other].as_slice(), modifier) {
                everywhere = false;
            }
            other += 1;
        }
        assert(everywhere == in_every_set(sets@, modifier));
        if everywhere {
            insert_sorted(&mut shared, modifier);
        }
        proof {
            assert(first@.take(index + 1) =~= first@.take(index as int).push(modifier));
            crate::seqs::lemma_push_contains(first@.take(index as int), modifier);
        }
        index += 1;
    }
    assert(first@.take(first.len() as int) =~= first@);
    proof {
        assert forall|m: u64| shared@.contains(m) <==> in_every_set(sets@, m) by {
            if in_every_set(sets@, m) {
                assert(sets@[0]@.contains(m));
            }
        }
    }
    shared
}

/// The number that bytes from `at` on store.
pub open spec fn stored(order: ByteOrder, bytes: Seq<u8>, at: int, count: nat) -> int
    decreases count,
{
    if count == 0 {
        0
    } else {
        match order {
            ByteOrder::Little => bytes[at] + 0x100 * stored(
                order,
                bytes,
                at + 1,
                (count - 1) as nat,
            ),
            ByteOrder::Big => 0x100 * stored(order, bytes, at, (count - 1) as nat) + bytes[at
                + count - 1],
        }
    }
}

proof fn lemma_stored(order: ByteOrder, bytes: Seq<u8>, at: int)
    ensures
        stored(order, bytes, at, 4) == u32_at(order, bytes, at),
        stored(order, bytes, at, 8) == u64_at(order, bytes, at),
{
    reveal_with_fuel(stored, 9);
}

/// Whether a record of a table says that the format at `index` can have a layout: the
/// record covers sixty-four formats from its own offset on, with a bit for each.
pub open spec fn record_says(
    order: ByteOrder,
    blob: Seq<u8>,
    record: int,
    index: int,
    modifier: u64,
) -> bool {
    let base = stored(order, blob, 20, 4) + 24 * record;
    let offset = stored(order, blob, base + 8, 4);
    &&& 0 <= record < stored(order, blob, 16, 4)
    &&& offset <= index < offset + 64
    &&& (stored(order, blob, base, 8) as u64) & (1u64 << ((index - offset) as u64)) != 0
    &&& stored(order, blob, base + 16, 8) == modifier
}

/// Whether a table lists the format at `index`, and not before.
pub open spec fn listed_first(order: ByteOrder, blob: Seq<u8>, format: u32, index: int) -> bool {
    &&& 0 <= index < stored(order, blob, 8, 4)
    &&& stored(order, blob, stored(order, blob, 12, 4) + 4 * index, 4) == format
    &&& forall|i: int|
        0 <= i < index ==> #[trigger] stored(
            order,
            blob,
            stored(order, blob, 12, 4) + 4 * i,
            4,
        ) != format
}

proof fn lemma_table(order: ByteOrder, blob: Seq<u8>, format: u32, index: int, record: int, modifier: u64)
    ensures
        listed_first(order, blob, format, index) <==> first_format_index(
            order,
            blob,
            format,
            index,
        ),
        record_says(order, blob, record, index, modifier) <==> 0 <= record < record_count(
            order,
            blob,
        ) && record_covers(order, blob, record, index) && record_modifier(order, blob, record)
            == modifier,
{
    lemma_stored(order, blob, 8);
    lemma_stored(order, blob, 12);
    lemma_stored(order, blob, 16);
    lemma_stored(order, blob, 20);
    let base = record_at(order, blob, record);
    lemma_stored(order, blob, base);
    lemma_stored(order, blob, base + 8);
    lemma_stored(order, blob, base + 16);
    assert forall|i: int|
        stored(order, blob, stored(order, blob, 12, 4) + 4 * i, 4) == #[trigger] format_at(
            order,
            blob,
            i,
        ) by {
        lemma_stored(order, blob, formats_offset(order, blob) + 4 * i);
    }
    lemma_stored(order, blob, formats_offset(order, blob) + 4 * index);
    if first_format_index(order, blob, format, index) {
        assert forall|i: int| 0 <= i < index implies #[trigger] stored(
            order,
            blob,
            stored(order, blob, 12, 4) + 4 * i,
            4,
        ) != format by {
            assert(format_at(order, blob, i) != format);
        }
    }
    if listed_first(order, blob, format, index) {
        assert forall|i: int| 0 <= i < index implies format_at(order, blob, i) != format by {
            assert(stored(order, blob, stored(order, blob, 12, 4) + 4 * i, 4) == format_at(
                order,
                blob,
                i,
            ));
        }
    }
}

/// A sound table's answer for a format is the layouts of the records that cover the
/// format's first place, but for the layout that stands for none.
pub proof fn tables_are_read_as_stored(
    order: ByteOrder,
    blob: &[u8],
    format: u32,
    list: Vec<u64>,
    modifier: u64,
    index: int,
    record: int,
)
    requires
        call_ensures(parse_format_modifiers_in, (order, blob, format), Ok(list)),
    ensures
        listed_first(order, blob@, format, index) && record_says(
            order,
            blob@,
            record,
            index,
            modifier,
        ) && modifier != 0x00ff_ffff_ffff_ffff ==> list@.contains(modifier),
        list@.contains(modifier) ==> modifier != 0x00ff_ffff_ffff_ffff && exists|i: int, r: int|
            #![trigger record_says(order, blob@, r, i, modifier)]
            listed_first(order, blob@, format, i) && record_says(order, blob@, r, i, modifier),
{
    lemma_table(order, blob@, format, index, record, modifier);
    if listed_first(order, blob@, format, index) && record_says(
        order,
        blob@,
        record,
        index,
        modifier,
    ) && modifier != 0x00ff_ffff_ffff_ffff {
        assert(record_covers(order, blob@, record, index));
        assert(records_accept(order, blob@, record_count(order, blob@), index, modifier));
        assert(table_accepts(order, blob@, format, modifier));
    }
    if list@.contains(modifier) {
        assert(table_accepts(order, blob@, format, modifier));
        let i = choose|i: int| #[trigger]
            first_format_index(order, blob@, format, i) && records_accept(
                order,
                blob@,
                record_count(order, blob@),
                i,
                modifier,
            );
        let r = choose|r: int|
            0 <= r < record_count(order, blob@) && #[trigger] record_covers(order, blob@, r, i)
                && record_modifier(order, blob@, r) == modifier;
        lemma_table(order, blob@, format, i, r, modifier);
        assert(record_says(order, blob@, r, i, modifier));
    }
}

/// A table is sound if and only if both its arrays lie behind its header and within it; the
/// answer is in increasing order but for plain memory, which comes last.
pub proof fn tables_stay_within_themselves(
    order: ByteOrder,
    blob: &[u8],
    format: u32,
    result: Result<Vec<u64>, DrmError>,
    i: int,
    j: int,
)
    requires
        blob@.len() <= usize::MAX,
        call_ensures(parse_format_modifiers_in, (order, blob, format), result),
    ensures
        result is Ok <==> {
            &&& blob@.len() >= 24
            &&& stored(order, blob@, 12, 4) >= 24
            &&& stored(order, blob@, 12, 4) + 4 * stored(order, blob@, 8, 4) <= blob@.len()
            &&& stored(order, blob@, 20, 4) >= 24
            &&& stored(order, blob@, 20, 4) + 24 * stored(order, blob@, 16, 4) <= blob@.len()
        },
        result is Ok && 0 <= i < j < result->Ok_0@.len() ==> result->Ok_0@[i] != 0 && (
        result->Ok_0@[j] == 0 || result->Ok_0@[i] < result->Ok_0@[j]),
        result is Err ==> result->Err_0 is MalformedFormats,
{
    lemma_stored(order, blob@, 8);
    lemma_stored(order, blob@, 12);
    lemma_stored(order, blob@, 16);
    lemma_stored(order, blob@, 20);
    if result is Ok && 0 <= i < j < result->Ok_0@.len() {
        let list = result->Ok_0@;
        assert(preference_ordered(list));
        assert(preferred_before(list[i], list[j]));
    }
}

/// The layouts that sets share are those in every one of them, each once.
pub proof fn shared_layouts_are_in_every_set(
    sets: &[Vec<u64>],
    shared: Vec<u64>,
    modifier: u64,
    i: int,
    j: int,
)
    requires
        call_ensures(intersect_modifier_sets, (sets,), shared),
    ensures
        shared@.contains(modifier) <==> sets@.len() > 0 && forall|k: int|
            0 <= k < sets@.len() ==> (#[trigger] sets@[k])@.contains(modifier),
        0 <= i < j < shared@.len() ==> shared@[i] < shared@[j],
{
    assert(shared@.contains(modifier) <==> sets@.len() > 0 && in_every_set(sets@, modifier));
}

/// The code of a pixel format is its name of four characters, the first one lowest.
pub open spec fn spelled(a: char, b: char, c: char, d: char) -> int {
    a as int + 0x100 * (b as int) + 0x1_0000 * (c as int) + 0x100_0000 * (d as int)
}

/// Every pixel format has the code of its name.
pub proof fn formats_are_named_by_their_code()
    ensures
        XRGB8888 == spelled('X', 'R', '2', '4'),
        ARGB8888 == spelled('A', 'R', '2', '4'),
        XBGR8888 == spelled('X', 'B', '2', '4'),
        ABGR8888 == spelled('A', 'B', '2', '4'),
        XBGR2101010 == spelled('X', 'B', '3', '0'),
        ABGR2101010 == spelled('A', 'B', '3', '0'),
{
}

} // verus!
