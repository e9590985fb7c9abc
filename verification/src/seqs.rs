//! Small verified helpers over vectors of integers.

use vstd::prelude::*;

verus! {

/// Every element is smaller than the ones after it.
pub open spec fn strictly_increasing(s: Seq<u64>) -> bool {
    forall|i: int, j: int| 0 <= i < j < s.len() ==> s[i] < s[j]
}

/// Whether `values` holds `wanted`.
pub fn contains_u64(values: &[u64], wanted: u64) -> (found: bool)
    ensures
        found == values@.contains(wanted),
{
    let mut index: usize = 0;
    while index < values.len()
        invariant
            index <= values.len(),
            forall|i: int| 0 <= i < index ==> values@[i] != wanted,
        decreases values.len() - index,
    {
        if values[index] == wanted {
            return true;
        }
        index += 1;
    }
    false
}

/// Whether `values` holds `wanted`.
pub fn contains_u32(values: &[u32], wanted: u32) -> (found: bool)
    ensures
        found == values@.contains(wanted),
{
    let mut index: usize = 0;
    while index < values.len()
        invariant
            index <= values.len(),
            forall|i: int| 0 <= i < index ==> values@[i] != wanted,
        decreases values.len() - index,
    {
        if values[index] == wanted {
            return true;
        }
        index += 1;
    }
    false
}

/// A copy of `values`.
pub fn copy_u64s(values: &[u64]) -> (copy: Vec<u64>)
    ensures
        copy@ == values@,
{
    let mut copy: Vec<u64> = Vec::new();
    let mut index: usize = 0;
    while index < values.len()
        invariant
            index <= values.len(),
            copy@ == values@.take(index as int),
        decreases values.len() - index,
    {
        copy.push(values[index]);
        index += 1;
    }
    copy
}

/// Whether two slices hold the same values in the same order.
pub fn equal_u64s(left: &[u64], right: &[u64]) -> (same: bool)
    ensures
        same == (left@ == right@),
{
    if left.len() != right.len() {
        return false;
    }
    let mut index: usize = 0;
    while index < left.len()
        invariant
            index <= left.len(),
            left.len() == right.len(),
            forall|i: int| 0 <= i < index ==> left@[i] == right@[i],
        decreases left.len() - index,
    {
        if left[index] != right[index] {
            return false;
        }
        index += 1;
    }
    assert(left@ =~= right@);
    true
}

/// Add `value` to a strictly increasing vector, keeping it strictly
/// increasing. A value that is already there is not added again.
pub fn insert_sorted(values: &mut Vec<u64>, value: u64)
    requires
        strictly_increasing(old(values)@),
    ensures
        strictly_increasing(final(values)@),
        forall|v: u64| #[trigger]
            final(values)@.contains(v) <==> old(values)@.contains(v) || v == value,
{
    let mut index: usize = 0;
    while index < values.len() && values[index] < value
        invariant
            index <= values.len(),
            values@ == old(values)@,
            forall|i: int| 0 <= i < index ==> values@[i] < value,
        decreases values.len() - index,
    {
        index += 1;
    }
    if index < values.len() && values[index] == value {
        assert(values@.contains(value));
        return;
    }
    let ghost before = values@;
    values.insert(index, value);
    proof {
        lemma_insert_contains(before, index as int, value);
    }
}

/// Inserting adds exactly the inserted element.
pub proof fn lemma_insert_contains<T>(s: Seq<T>, index: int, value: T)
    requires
        0 <= index <= s.len(),
    ensures
        forall|v: T|
            #![trigger s.insert(index, value).contains(v)]
            #![trigger s.contains(v)]
            s.insert(index, value).contains(v) <==> s.contains(v) || v == value,
{
    let t = s.insert(index, value);
    assert forall|v: T| t.contains(v) <==> s.contains(v) || v == value by {
        if t.contains(v) {
            let k = choose|k: int| 0 <= k < t.len() && t[k] == v;
            if k < index {
                assert(s[k] == v);
            } else if k > index {
                assert(s[k - 1] == v);
            }
        }
        if s.contains(v) {
            let k = choose|k: int| 0 <= k < s.len() && s[k] == v;
            if k < index {
                assert(t[k] == v);
            } else {
                assert(t[k + 1] == v);
            }
        }
        if v == value {
            assert(t[index] == v);
        }
    }
}

/// Pushing adds exactly the pushed element.
pub proof fn lemma_push_contains<T>(s: Seq<T>, value: T)
    ensures
        forall|v: T|
            #![trigger s.push(value).contains(v)]
            #![trigger s.contains(v)]
            s.push(value).contains(v) <==> s.contains(v) || v == value,
{
    assert(s.push(value) =~= s.insert(s.len() as int, value));
    lemma_insert_contains(s, s.len() as int, value);
}

/// The first element of a list that is wanted.
pub open spec fn first_where<T>(list: Seq<T>, wanted: spec_fn(T) -> bool) -> Option<int>
    decreases list.len(),
{
    if list.len() == 0 {
        None
    } else {
        match first_where(list.drop_last(), wanted) {
            Some(index) => Some(index),
            None => if wanted(list.last()) {
                Some(list.len() - 1)
            } else {
                None
            },
        }
    }
}

/// Where no element is wanted, there is no first one.
pub proof fn lemma_none_where<T>(list: Seq<T>, wanted: spec_fn(T) -> bool)
    requires
        forall|i: int| 0 <= i < list.len() ==> !wanted(#[trigger] list[i]),
    ensures
        first_where(list, wanted) is None,
    decreases list.len(),
{
    if list.len() > 0 {
        let rest = list.drop_last();
        assert forall|i: int| 0 <= i < rest.len() implies !wanted(#[trigger] rest[i]) by {
            assert(rest[i] == list[i]);
        }
        lemma_none_where(rest, wanted);
    }
}

/// A wanted element before which none is wanted is the first one.
pub proof fn lemma_first_where<T>(list: Seq<T>, wanted: spec_fn(T) -> bool, index: int)
    requires
        0 <= index < list.len(),
        wanted(list[index]),
        forall|i: int| 0 <= i < index ==> !wanted(#[trigger] list[i]),
    ensures
        first_where(list, wanted) == Some(index),
    decreases list.len(),
{
    let rest = list.drop_last();
    assert forall|i: int| 0 <= i < rest.len() && i < index implies !wanted(#[trigger] rest[i]) by {
        assert(rest[i] == list[i]);
    }
    if index < list.len() - 1 {
        lemma_first_where(rest, wanted, index);
    } else {
        lemma_none_where(rest, wanted);
    }
}

/// A list without a number.
pub open spec fn without(list: Seq<u64>, value: u64) -> Seq<u64> {
    list.filter(|v: u64| v != value)
}

/// Remove a number from a list, wherever it is.
pub fn remove_value(list: &mut Vec<u64>, value: u64)
    ensures
        final(list)@ == without(old(list)@, value),
{
    let mut kept: Vec<u64> = Vec::new();
    let mut index: usize = 0;
    proof {
        reveal(Seq::filter);
        assert(without(list@.take(0), value) =~= Seq::<u64>::empty());
    }
    while index < list.len()
        invariant
            index <= list.len(),
            list@ == old(list)@,
            kept@ == without(list@.take(index as int), value),
        decreases list.len() - index,
    {
        proof {
            reveal(Seq::filter);
            assert(list@.take(index as int + 1).drop_last() =~= list@.take(index as int));
        }
        if list[index] != value {
            kept.push(list[index]);
        }
        index += 1;
    }
    assert(list@.take(list.len() as int) =~= list@);
    *list = kept;
}

} // verus!
