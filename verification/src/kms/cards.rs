//! Which display cards to try.

use vstd::prelude::*;
use crate::text::{decimal, decimal_text, decimals_read_back, read_decimal, texts};

verus! {

/// How many card numbers are tried.
pub const CARD_COUNT: usize = 16;

/// The path of a card.
pub open spec fn card_name(index: nat) -> Seq<char> {
    "/dev/dri/card"@ + decimal(index)
}

/// The path of a card.
pub fn card_path(index: u32) -> (path: String)
    ensures
        path@ == card_name(index as nat),
{
    let mut path = "/dev/dri/card".to_owned();
    let number = decimal_text(index);
    path.append(number.as_str());
    path
}

/// The paths of the cards that exist among the first `count`.
pub open spec fn present_cards(present: Seq<bool>, count: nat) -> Seq<Seq<char>>
    decreases count,
{
    if count == 0 {
        Seq::empty()
    } else {
        let before = present_cards(present, (count - 1) as nat);
        if present[count - 1] {
            before.push(card_name((count - 1) as nat))
        } else {
            before
        }
    }
}

/// The cards to try, in order: the configured one, or else those of the sixteen
/// numbered ones that exist.
pub fn candidate_cards_with_override(
    override_path: Option<String>,
    present: &[bool; 16],
) -> (paths: Vec<String>)
    ensures
        texts(paths@) == match override_path {
            Some(path) => seq![path@],
            None => present_cards(present@, 16),
        },
{
    let mut paths: Vec<String> = Vec::new();
    if let Some(path) = override_path {
        paths.push(path);
        assert(texts(paths@) =~= seq![path@]);
        return paths;
    }
    let mut index: usize = 0;
    assert(texts(paths@) =~= Seq::<Seq<char>>::empty());
    while index < CARD_COUNT
        invariant
            index <= 16,
            texts(paths@) == present_cards(present@, index as nat),
        decreases 16 - index,
    {
        if present[index] {
            let path = card_path(index as u32);
            let ghost before = paths@;
            paths.push(path);
            assert(texts(paths@) =~= texts(before).push(path@));
        }
        index += 1;
    }
    paths
}

/// Texts with a separator between each two.
pub open spec fn joined(parts: Seq<Seq<char>>, separator: Seq<char>) -> Seq<char>
    decreases parts.len(),
{
    if parts.len() == 0 {
        Seq::empty()
    } else if parts.len() == 1 {
        parts[0]
    } else {
        joined(parts.drop_last(), separator) + separator + parts.last()
    }
}

/// What to report when no card can be used: the ones tried.
pub fn tried_cards(candidates: &[String]) -> (text: String)
    ensures
        text@ == if joined(texts(candidates@), ", "@).len() == 0 {
            "/dev/dri/card[0-15] (none exist)"@
        } else {
            joined(texts(candidates@), ", "@)
        },
{
    let mut text = String::new();
    let mut index: usize = 0;
    assert(texts(candidates@.take(0)) =~= Seq::<Seq<char>>::empty());
    while index < candidates.len()
        invariant
            index <= candidates.len(),
            text@ == joined(texts(candidates@.take(index as int)), ", "@),
        decreases candidates.len() - index,
    {
        let ghost before = text@;
        if index > 0 {
            text.append(", ");
        }
        text.append(candidates[index].as_str());
        proof {
            let all = texts(candidates@.take(index as int + 1));
            assert(all.drop_last() =~= texts(candidates@.take(index as int)));
            assert(all.last() == candidates@[index as int]@);
            if index == 0 {
                assert(before + candidates@[0]@ =~= candidates@[0]@);
            }
        }
        index += 1;
    }
    assert(candidates@.take(candidates.len() as int) =~= candidates@);
    if text.as_str().unicode_len() == 0 {
        return "/dev/dri/card[0-15] (none exist)".to_owned();
    }
    text
}

/// The largest cursor on one axis that a card supports: 64 where it does not
/// say, at least one, and no more than fits.
pub open spec fn cursor_limit(reported: Option<u64>) -> u32 {
    match reported {
        None => 64,
        Some(limit) => if limit < 1 {
            1
        } else if limit > u32::MAX {
            u32::MAX
        } else {
            limit as u32
        },
    }
}

fn one_cursor_limit(reported: Option<u64>) -> (limit: u32)
    ensures
        limit == cursor_limit(reported),
{
    match reported {
        None => 64,
        Some(limit) => if limit < 1 {
            1
        } else if limit > 0xffff_ffff {
            u32::MAX
        } else {
            limit as u32
        },
    }
}

/// The largest cursor that a card supports.
pub fn cursor_extent(width: Option<u64>, height: Option<u64>) -> (extent: (u32, u32))
    ensures
        extent == (cursor_limit(width), cursor_limit(height)),
{
    (one_cursor_limit(width), one_cursor_limit(height))
}

/// Without a configured card the ones that exist are tried, in order of number; with one
/// it is the only one.
pub proof fn configured_cards_are_tried_alone(
    path: String,
    present: [bool; 16],
    paths: Vec<String>,
)
    requires
        call_ensures(candidate_cards_with_override, (Some(path), &present), paths),
    ensures
        paths@.len() == 1,
        paths@[0]@ == path@,
{
    assert(texts(paths@).len() == paths@.len());
    assert(texts(paths@)[0] == paths@[0]@);
}

proof fn lemma_present_cards(present: Seq<bool>, count: nat, index: nat)
    requires
        index < count,
        count <= present.len(),
    ensures
        present[index as int] ==> present_cards(present, count).contains(card_name(index)),
        present_cards(present, count).len() <= count,
    decreases count,
{
    let before = present_cards(present, (count - 1) as nat);
    let all = present_cards(present, count);
    if index < count - 1 {
        lemma_present_cards(present, (count - 1) as nat, index);
        if present[index as int] {
            let k = before.index_of(card_name(index));
            assert(all[k] == card_name(index));
        }
    } else {
        if count > 1 {
            lemma_present_cards(present, (count - 1) as nat, 0);
        }
        if present[index as int] {
            assert(all.last() == card_name(index));
        }
    }
}

/// Every card that exists is tried, under its path.
pub proof fn existing_cards_are_tried(present: [bool; 16], paths: Vec<String>, index: nat)
    requires
        call_ensures(candidate_cards_with_override, (None, &present), paths),
        index < 16,
        present@[index as int],
    ensures
        exists|k: int|
            0 <= k < paths@.len() && (#[trigger] paths@[k])@ == "/dev/dri/card"@ + decimal(index),
{
    lemma_present_cards(present@, 16, index);
    let k = texts(paths@).index_of(card_name(index));
    assert(texts(paths@)[k] == paths@[k]@);
}

/// A cursor is as large as the card reports, sixty-four pixels where it does not, and
/// never without pixels.
pub proof fn cursors_are_as_large_as_reported(
    width: Option<u64>,
    height: Option<u64>,
    extent: (u32, u32),
)
    requires
        call_ensures(cursor_extent, (width, height), extent),
    ensures
        extent.0 > 0 && extent.1 > 0,
        width is None ==> extent.0 == 64,
        height is None ==> extent.1 == 64,
        width is Some && 0 < width->0 <= u32::MAX ==> extent.0 == width->0,
        height is Some && 0 < height->0 <= u32::MAX ==> extent.1 == height->0,
{
}

/// A card's path ends in its number.
pub proof fn card_paths_end_in_their_number(index: u32, path: String)
    requires
        call_ensures(card_path, (index,), path),
    ensures
        path@.len() > "/dev/dri/card"@.len(),
        path@.take("/dev/dri/card"@.len() as int) == "/dev/dri/card"@,
        read_decimal(path@.skip("/dev/dri/card"@.len() as int)) == index,
{
    let front = "/dev/dri/card"@;
    decimals_read_back(index as nat);
    assert(path@.take(front.len() as int) =~= front);
    assert(path@.skip(front.len() as int) =~= decimal(index as nat));
}

/// The report lists the cards that were tried, one after the other.
pub proof fn tried_cards_are_listed(
    earlier: &[String],
    all: &[String],
    before: String,
    text: String,
)
    requires
        earlier@.len() > 0,
        all@.len() == earlier@.len() + 1,
        all@.drop_last() == earlier@,
        call_ensures(tried_cards, (earlier,), before),
        call_ensures(tried_cards, (all,), text),
        earlier@[0]@.len() > 0,
    ensures
        text@ == before@ + ", "@ + all@.last()@,
{
    assert(texts(all@).drop_last() =~= texts(earlier@));
    assert(texts(all@).last() == all@.last()@);
    lemma_joined_is_not_empty(texts(earlier@), ", "@);
    reveal_strlit(", ");
}

proof fn lemma_joined_is_not_empty(parts: Seq<Seq<char>>, separator: Seq<char>)
    requires
        parts.len() > 0,
        parts[0].len() > 0,
    ensures
        joined(parts, separator).len() > 0,
    decreases parts.len(),
{
    if parts.len() > 1 {
        lemma_joined_is_not_empty(parts.drop_last(), separator);
    }
}

} // verus!
