//! Verified helpers over text.

use vstd::prelude::*;

verus! {

/// Whether two texts are the same.
pub fn text_equal(left: &str, right: &str) -> (same: bool)
    ensures
        same == (left@ == right@),
{
    let count: usize = left.unicode_len();
    if count != right.unicode_len() {
        return false;
    }
    let mut index: usize = 0;
    while index < count
        invariant
            index <= count,
            count == left@.len(),
            count == right@.len(),
            forall|i: int| 0 <= i < index ==> left@[i] == right@[i],
        decreases count - index,
    {
        if left.get_char(index) != right.get_char(index) {
            return false;
        }
        index += 1;
    }
    assert(left@ =~= right@);
    true
}

/// Whether `left` comes before `right` in the order of their characters.
pub open spec fn text_before(left: Seq<char>, right: Seq<char>) -> bool
    decreases left.len(),
{
    if right.len() == 0 {
        false
    } else if left.len() == 0 {
        true
    } else if left[0] != right[0] {
        left[0] < right[0]
    } else {
        text_before(left.skip(1), right.skip(1))
    }
}

/// No text comes before itself, and of two different texts one comes before the
/// other.
pub proof fn text_order_is_total(left: Seq<char>, right: Seq<char>)
    ensures
        left == right ==> !text_before(left, right),
        left != right ==> (text_before(left, right) <==> !text_before(right, left)),
    decreases left.len(),
{
    if left.len() > 0 && right.len() > 0 && left[0] == right[0] {
        text_order_is_total(left.skip(1), right.skip(1));
        if left.skip(1) == right.skip(1) {
            assert(left =~= seq![left[0]] + left.skip(1));
            assert(right =~= seq![right[0]] + right.skip(1));
        }
    } else if left.len() == 0 && right.len() == 0 {
        assert(left =~= right);
    }
}

/// The order of texts is transitive.
pub proof fn text_order_is_transitive(left: Seq<char>, middle: Seq<char>, right: Seq<char>)
    requires
        text_before(left, middle),
        text_before(middle, right),
    ensures
        text_before(left, right),
    decreases left.len(),
{
    if left.len() > 0 && left[0] == middle[0] && middle[0] == right[0] {
        text_order_is_transitive(left.skip(1), middle.skip(1), right.skip(1));
    }
}

/// Whether `left` comes before `right` in the order of their characters.
pub fn text_less(left: &str, right: &str) -> (before: bool)
    ensures
        before == text_before(left@, right@),
{
    let left_len: usize = left.unicode_len();
    let right_len: usize = right.unicode_len();
    let mut index: usize = 0;
    assert(left@.skip(0) =~= left@);
    assert(right@.skip(0) =~= right@);
    while index < left_len && index < right_len
        invariant
            index <= left_len,
            index <= right_len,
            left_len == left@.len(),
            right_len == right@.len(),
            text_before(left@, right@) == text_before(
                left@.skip(index as int),
                right@.skip(index as int),
            ),
        decreases left_len - index,
    {
        let a: char = left.get_char(index);
        let b: char = right.get_char(index);
        assert(left@.skip(index as int)[0] == a);
        assert(right@.skip(index as int)[0] == b);
        if a != b {
            return a < b;
        }
        assert(left@.skip(index as int).skip(1) =~= left@.skip(index + 1));
        assert(right@.skip(index as int).skip(1) =~= right@.skip(index + 1));
        index += 1;
    }
    index < right_len
}

/// The texts of a list.
pub open spec fn texts(list: Seq<String>) -> Seq<Seq<char>> {
    list.map_values(|s: String| s@)
}

/// Every text comes before the ones after it.
pub open spec fn texts_increase(list: Seq<Seq<char>>) -> bool {
    forall|i: int, j: int|
        #![trigger list[i], list[j]]
        0 <= i < j < list.len() ==> text_before(list[i], list[j])
}

/// Add a text to an increasing list unless it is there.
pub fn insert_text(list: &mut Vec<String>, text: &str)
    requires
        texts_increase(texts(old(list)@)),
    ensures
        texts_increase(texts(final(list)@)),
        forall|t: Seq<char>| #[trigger]
            texts(final(list)@).contains(t) <==> texts(old(list)@).contains(t) || t == text@,
{
    let ghost before = texts(list@);
    let mut index: usize = 0;
    while index < list.len() && text_less(list[index].as_str(), text)
        invariant
            index <= list.len(),
            texts(list@) == before,
            forall|i: int|
                #![trigger before[i]]
                0 <= i < index ==> text_before(before[i], text@),
        decreases list.len() - index,
    {
        assert(before[index as int] == list@[index as int]@);
        index += 1;
    }
    if index < list.len() && text_equal(list[index].as_str(), text) {
        assert(before[index as int] == text@);
        assert(before.contains(text@));
        return;
    }
    let owned = text.to_owned();
    list.insert(index, owned);
    proof {
        let after = texts(list@);
        assert(after =~= before.insert(index as int, text@));
        crate::seqs::lemma_insert_contains(before, index as int, text@);
        assert forall|i: int, j: int|
            #![trigger after[i], after[j]]
            0 <= i < j < after.len() implies text_before(after[i], after[j]) by {
            let bi = if i < index {
                i
            } else {
                i - 1
            };
            let bj = if j < index {
                j
            } else {
                j - 1
            };
            if i == index {
                assert(after[j] == before[bj]);
                text_order_is_total(before[index as int], text@);
                if bj > index {
                    assert(text_before(before[index as int], before[bj]));
                    text_order_is_transitive(text@, before[index as int], before[bj]);
                }
            } else if j == index {
                assert(after[i] == before[i]);
            } else {
                assert(after[i] == before[bi] && after[j] == before[bj]);
            }
        }
    }
}

/// Whether a text holds a zero character, which ends text in some protocols.
pub fn text_has_nul(text: &str) -> (found: bool)
    ensures
        found == text@.contains('\0'),
{
    let count: usize = text.unicode_len();
    let mut index: usize = 0;
    while index < count
        invariant
            index <= count,
            count == text@.len(),
            forall|i: int| 0 <= i < index ==> text@[i] != '\0',
        decreases count - index,
    {
        if text.get_char(index) == '\0' {
            return true;
        }
        index += 1;
    }
    false
}

/// The decimal digit of a number below ten.
pub open spec fn digit(value: nat) -> char {
    if value == 0 {
        '0'
    } else if value == 1 {
        '1'
    } else if value == 2 {
        '2'
    } else if value == 3 {
        '3'
    } else if value == 4 {
        '4'
    } else if value == 5 {
        '5'
    } else if value == 6 {
        '6'
    } else if value == 7 {
        '7'
    } else if value == 8 {
        '8'
    } else {
        '9'
    }
}

/// A number in decimal, without leading zeros.
pub open spec fn decimal(value: nat) -> Seq<char>
    decreases value,
{
    if value < 10 {
        seq![digit(value)]
    } else {
        decimal(value / 10).push(digit(value % 10))
    }
}

/// The text of a decimal digit.
fn digit_text(value: u32) -> (text: &'static str)
    requires
        value < 10,
    ensures
        text@ == seq![digit(value as nat)],
{
    proof {
        reveal_strlit("0");
        reveal_strlit("1");
        reveal_strlit("2");
        reveal_strlit("3");
        reveal_strlit("4");
        reveal_strlit("5");
        reveal_strlit("6");
        reveal_strlit("7");
        reveal_strlit("8");
        reveal_strlit("9");
    }
    let text = if value == 0 {
        "0"
    } else if value == 1 {
        "1"
    } else if value == 2 {
        "2"
    } else if value == 3 {
        "3"
    } else if value == 4 {
        "4"
    } else if value == 5 {
        "5"
    } else if value == 6 {
        "6"
    } else if value == 7 {
        "7"
    } else if value == 8 {
        "8"
    } else {
        "9"
    };
    assert(text@ =~= seq![digit(value as nat)]);
    text
}

/// A number in decimal.
pub fn decimal_text(value: u32) -> (text: String)
    ensures
        text@ == decimal(value as nat),
    decreases value,
{
    if value < 10 {
        digit_text(value).to_owned()
    } else {
        let mut text = decimal_text(value / 10);
        let last = digit_text(value % 10);
        proof {
            assert(text@ + last@ =~= text@.push(digit((value % 10) as nat)));
        }
        text.append(last);
        text
    }
}

/// The number that decimal digits stand for.
pub open spec fn read_decimal(text: Seq<char>) -> int
    decreases text.len(),
{
    if text.len() == 0 {
        0
    } else {
        10 * read_decimal(text.drop_last()) + (text.last() as int - '0' as int)
    }
}

/// Decimal text reads back as the number it was made from, and has no needless zero.
pub proof fn decimals_read_back(value: nat)
    ensures
        read_decimal(decimal(value)) == value,
        decimal(value).len() > 0,
        value > 0 ==> decimal(value)[0] != '0',
    decreases value,
{
    reveal_with_fuel(read_decimal, 2);
    if value < 10 {
        assert(seq![digit(value)].drop_last() =~= Seq::<char>::empty());
    } else {
        decimals_read_back(value / 10);
        let rest = decimal(value / 10);
        assert(rest.push(digit(value % 10)).drop_last() =~= rest);
    }
}

/// A number written out reads back as itself.
pub proof fn written_numbers_read_back(value: u32, text: String)
    requires
        call_ensures(decimal_text, (value,), text),
    ensures
        read_decimal(text@) == value,
        value > 0 ==> text@[0] != '0',
{
    decimals_read_back(value as nat);
}

/// A list of texts gains just the text that is added, and stays in order.
pub proof fn added_texts_are_there(list: &mut Vec<String>, text: &str, other: Seq<char>)
    requires
        texts_increase(texts(list@)),
        call_ensures(insert_text, (list, text), ()),
    ensures
        exists|i: int| 0 <= i < final(list)@.len() && (#[trigger] final(list)@[i])@ == text@,
        other != text@ ==> ((exists|i: int|
            0 <= i < final(list)@.len() && (#[trigger] final(list)@[i])@ == other) <==> exists|
            i: int,
        |
            0 <= i < old(list)@.len() && (#[trigger] old(list)@[i])@ == other),
{
    let before = texts(list@);
    let after = texts(final(list)@);
    assert(after.contains(text@));
    let k = after.index_of(text@);
    assert(final(list)@[k]@ == text@);
    if exists|i: int| 0 <= i < final(list)@.len() && (#[trigger] final(list)@[i])@ == other {
        let i = choose|i: int| 0 <= i < final(list)@.len()
            && (#[trigger] final(list)@[i])@ == other;
        assert(after[i] == other);
        assert(after.contains(other));
        if other != text@ {
            assert(before.contains(other));
            let j = before.index_of(other);
            assert(list@[j]@ == other);
        }
    }
    if exists|i: int| 0 <= i < list@.len() && (#[trigger] list@[i])@ == other {
        let i = choose|i: int| 0 <= i < list@.len() && (#[trigger] list@[i])@ == other;
        assert(before[i] == other);
        assert(before.contains(other));
        assert(after.contains(other));
        let j = after.index_of(other);
        assert(final(list)@[j]@ == other);
    }
}

} // verus!
