//! Assignment of display controllers and primary planes to connectors.

use vstd::prelude::*;
use crate::seqs::{contains_u64, copy_u64s};

verus! {

/// One way of driving a connector: a controller, one of its primary planes, and
/// the memory layouts that the plane accepts for the framebuffer format.
#[derive(Debug)]
pub struct OutputChoice {
    pub crtc: u32,
    pub plane: u32,
    pub modifiers: Vec<u64>,
}

/// A way of driving a connector, with its layouts as a sequence.
pub struct ChoiceView {
    pub crtc: u32,
    pub plane: u32,
    pub modifiers: Seq<u64>,
}

impl View for OutputChoice {
    type V = ChoiceView;

    open spec fn view(&self) -> ChoiceView {
        ChoiceView { crtc: self.crtc, plane: self.plane, modifiers: self.modifiers@ }
    }
}

/// The choices of each connector.
pub open spec fn choice_views(candidates: Seq<Vec<OutputChoice>>) -> Seq<Seq<ChoiceView>> {
    Seq::new(candidates.len(), |c: int| choice_list(candidates[c]@))
}

/// The choices of one connector.
pub open spec fn choice_list(choices: Seq<OutputChoice>) -> Seq<ChoiceView> {
    Seq::new(choices.len(), |i: int| choices[i]@)
}

/// The choice picked for a connector.
pub open spec fn picked(
    candidates: Seq<Seq<ChoiceView>>,
    picks: Seq<int>,
    connector: int,
) -> ChoiceView {
    candidates[connector][picks[connector]]
}

/// The layouts of the first picked choice that every other picked choice
/// accepts too, in the first one's order.
pub open spec fn shared_modifiers(
    candidates: Seq<Seq<ChoiceView>>,
    picks: Seq<int>,
) -> Seq<u64>
    decreases picks.len(),
{
    if picks.len() == 0 {
        Seq::empty()
    } else {
        let last = picked(candidates, picks, picks.len() - 1).modifiers;
        if picks.len() == 1 {
            last
        } else {
            shared_modifiers(candidates, picks.drop_last()).filter(|m: u64| last.contains(m))
        }
    }
}

/// Whether `picks` drives the first connectors: each by one of its choices, no
/// controller or plane used twice, and some layout accepted by all.
pub open spec fn compatible(candidates: Seq<Seq<ChoiceView>>, picks: Seq<int>) -> bool {
    &&& picks.len() <= candidates.len()
    &&& forall|i: int|
        #![trigger picks[i]]
        0 <= i < picks.len() ==> 0 <= picks[i] < candidates[i].len()
    &&& forall|i: int, j: int|
        #![trigger picks[i], picks[j]]
        0 <= i < j < picks.len() ==> picked(candidates, picks, i).crtc != picked(
            candidates,
            picks,
            j,
        ).crtc && picked(candidates, picks, i).plane != picked(candidates, picks, j).plane
    &&& picks.len() > 0 ==> shared_modifiers(candidates, picks).len() > 0
}

/// Whether `picks` drives every connector.
pub open spec fn is_assignment(candidates: Seq<Seq<ChoiceView>>, picks: Seq<int>) -> bool {
    picks.len() == candidates.len() && compatible(candidates, picks)
}

/// Whether every connector can be driven at once.
pub open spec fn assignable(candidates: Seq<Seq<ChoiceView>>) -> bool {
    exists|picks: Seq<int>| #[trigger] is_assignment(candidates, picks)
}

/// Whether `left` is `right`, or prefers an earlier choice for the first
/// connector on which the two differ.
pub open spec fn at_least_as_early(left: Seq<int>, right: Seq<int>) -> bool {
    left == right || exists|k: int| #[trigger] earlier_at(left, right, k)
}

/// Whether `left` and `right` first differ at `k`, where `left` has the
/// smaller index.
pub open spec fn earlier_at(left: Seq<int>, right: Seq<int>, k: int) -> bool {
    &&& 0 <= k < left.len()
    &&& k < right.len()
    &&& left.take(k) == right.take(k)
    &&& left[k] < right[k]
}

/// Whether `picks` is the assignment that comes first: any other prefers a
/// later choice for the first connector on which the two differ.
pub open spec fn is_first_assignment(
    candidates: Seq<Seq<ChoiceView>>,
    picks: Seq<int>,
) -> bool {
    &&& is_assignment(candidates, picks)
    &&& forall|other: Seq<int>| #[trigger]
        is_assignment(candidates, other) ==> at_least_as_early(picks, other)
}

/// Whether `selected` holds the picked choices.
pub open spec fn selects(
    candidates: Seq<Seq<ChoiceView>>,
    picks: Seq<int>,
    selected: Seq<OutputChoice>,
) -> bool {
    &&& selected.len() == picks.len()
    &&& forall|i: int|
        #![trigger selected[i]]
        0 <= i < selected.len() ==> selected[i]@ == picked(candidates, picks, i)
}

/// Every beginning of a compatible selection is compatible.
proof fn lemma_prefix(candidates: Seq<Seq<ChoiceView>>, picks: Seq<int>, len: int)
    requires
        compatible(candidates, picks),
        0 <= len <= picks.len(),
    ensures
        compatible(candidates, picks.take(len)),
    decreases picks.len() - len,
{
    if len == picks.len() {
        assert(picks.take(len) =~= picks);
    } else {
        lemma_prefix(candidates, picks, len + 1);
        let longer = picks.take(len + 1);
        let shorter = picks.take(len);
        assert(longer.drop_last() =~= shorter);
        assert forall|i: int| 0 <= i < shorter.len() implies #[trigger] shorter[i]
            == longer[i] by {}
        if len > 0 {
            let last = picked(candidates, longer, len).modifiers;
            let all = shared_modifiers(candidates, shorter);
            all.lemma_filter_len(|m: u64| last.contains(m));
        }
    }
}

/// The modifiers of `current` that `accepted` holds, in order.
fn retain_modifiers(current: &[u64], accepted: &[u64]) -> (kept: Vec<u64>)
    ensures
        kept@ == current@.filter(|m: u64| accepted@.contains(m)),
{
    let mut kept: Vec<u64> = Vec::new();
    let mut index: usize = 0;
    let ghost test = |m: u64| accepted@.contains(m);
    assert(current@.take(0).filter(test) =~= Seq::<u64>::empty()) by {
        reveal(Seq::filter);
    }
    while index < current.len()
        invariant
            index <= current.len(),
            test == (|m: u64| accepted@.contains(m)),
            kept@ == current@.take(index as int).filter(test),
        decreases current.len() - index,
    {
        let modifier: u64 = current[index];
        proof {
            assert(current@.take(index + 1).drop_last() =~= current@.take(index as int));
            reveal(Seq::filter);
        }
        if contains_u64(accepted, modifier) {
            kept.push(modifier);
        }
        index += 1;
    }
    assert(current@.take(current.len() as int) =~= current@);
    kept
}

/// Whether one of the picked choices already uses the controller or the plane.
fn in_use(
    candidates: &[Vec<OutputChoice>],
    picks: &[usize],
    crtc: u32,
    plane: u32,
    Ghost(ghost_picks): Ghost<Seq<int>>,
) -> (used: bool)
    requires
        picks.len() <= candidates.len(),
        ghost_picks == picks@.map_values(|p: usize| p as int),
        compatible(choice_views(candidates@), ghost_picks),
    ensures
        used == exists|i: int|
            0 <= i < picks.len() && ((#[trigger] picked(choice_views(candidates@), ghost_picks, i)).crtc == crtc
                || picked(choice_views(candidates@), ghost_picks, i).plane == plane),
{
    let mut index: usize = 0;
    while index < picks.len()
        invariant
            index <= picks.len() <= candidates.len(),
            ghost_picks == picks@.map_values(|p: usize| p as int),
            compatible(choice_views(candidates@), ghost_picks),
            forall|i: int|
                0 <= i < index ==> (#[trigger] picked(choice_views(candidates@), ghost_picks, i)).crtc != crtc
                    && picked(choice_views(candidates@), ghost_picks, i).plane != plane,
        decreases picks.len() - index,
    {
        assert(ghost_picks[index as int] == picks@[index as int]);
        let choice = &candidates[index][picks[index]];
        assert(choice@ == picked(choice_views(candidates@), ghost_picks, index as int));
        if choice.crtc == crtc || choice.plane == plane {
            return true;
        }
        index += 1;
    }
    false
}

/// Complete the assignment whose first picks are in `picks`, trying each
/// connector's choices in order and going back where none leads on.
fn complete_assignment(
    candidates: &[Vec<OutputChoice>],
    picks: &mut Vec<usize>,
    shared: Vec<u64>,
) -> (result: Option<Vec<u64>>)
    requires
        old(picks).len() <= candidates.len(),
        compatible(choice_views(candidates@), old(picks)@.map_values(|p: usize| p as int)),
        shared@ == shared_modifiers(
            choice_views(candidates@),
            old(picks)@.map_values(|p: usize| p as int),
        ),
    ensures
        match result {
            None => final(picks)@ == old(picks)@ && forall|other: Seq<int>| #[trigger]
                is_assignment(choice_views(candidates@), other)
                    ==> other.take(old(picks).len() as int)
                    != old(picks)@.map_values(|p: usize| p as int),
            Some(modifiers) => {
                let start = old(picks)@.map_values(|p: usize| p as int);
                let found = final(picks)@.map_values(|p: usize| p as int);
                &&& is_assignment(choice_views(candidates@), found)
                &&& found.take(start.len() as int) == start
                &&& modifiers@ == shared_modifiers(choice_views(candidates@), found)
                &&& forall|other: Seq<int>| #[trigger]
                    is_assignment(choice_views(candidates@), other)
                        && other.take(start.len() as int) == start
                        ==> at_least_as_early(found, other)
            },
        },
    decreases candidates.len() - old(picks).len(),
{
    let ghost start = picks@.map_values(|p: usize| p as int);
    let connector: usize = picks.len();
    if connector == candidates.len() {
        assert(start.take(start.len() as int) =~= start);
        assert forall|other: Seq<int>| #[trigger]
            is_assignment(choice_views(candidates@), other) && other.take(start.len() as int)
                == start implies at_least_as_early(start, other) by {
            assert(other.take(start.len() as int) =~= other);
        }
        return Some(shared);
    }
    let ghost picks0 = picks@;
    let mut index: usize = 0;
    while index < candidates[connector].len()
        invariant
            picks@ == picks0,
            picks0 == old(picks)@,
            start == picks0.map_values(|p: usize| p as int),
            connector == picks0.len(),
            connector < candidates.len(),
            index <= candidates@[connector as int].len(),
            compatible(choice_views(candidates@), start),
            shared@ == shared_modifiers(choice_views(candidates@), start),
            forall|other: Seq<int>| #[trigger]
                is_assignment(choice_views(candidates@), other)
                    && other.take(connector as int) == start
                    ==> index <= other[connector as int],
        decreases candidates@[connector as int].len() - index,
    {
        let choice = &candidates[connector][index];
        let ghost next = start.push(index as int);
        assert(next.drop_last() =~= start);
        assert(picked(choice_views(candidates@), next, connector as int) == choice@);
        let used = in_use(candidates, picks.as_slice(), choice.crtc, choice.plane, Ghost(start));
        let next_shared: Vec<u64> = if connector == 0 {
            copy_u64s(choice.modifiers.as_slice())
        } else {
            retain_modifiers(shared.as_slice(), choice.modifiers.as_slice())
        };
        assert(next_shared@ == shared_modifiers(choice_views(candidates@), next));
        assert(compatible(choice_views(candidates@), next)
            <==> !used && next_shared@.len() > 0) by {
            assert forall|i: int| 0 <= i < connector implies #[trigger] picked(
                choice_views(candidates@),
                next,
                i,
            ) == picked(choice_views(candidates@), start, i) by {
                assert(next[i] == start[i]);
            }
            if compatible(choice_views(candidates@), next) {
                if used {
                    let i = choose|i: int|
                        0 <= i < connector && ((#[trigger] picked(choice_views(candidates@), start, i)).crtc
                            == choice.crtc || picked(choice_views(candidates@), start, i).plane == choice.plane);
                    assert(picked(choice_views(candidates@), next, i)
                        == picked(choice_views(candidates@), start, i));
                    let a = next[i];
                    let b = next[connector as int];
                    assert(false);
                }
            }
            if !used && next_shared@.len() > 0 {
                assert forall|i: int, j: int|
                    #![trigger next[i], next[j]]
                    0 <= i < j < next.len() implies picked(choice_views(candidates@), next, i).crtc != picked(
                    choice_views(candidates@),
                    next,
                    j,
                ).crtc && picked(choice_views(candidates@), next, i).plane != picked(
                    choice_views(candidates@),
                    next,
                    j,
                ).plane by {
                    assert(picked(choice_views(candidates@), next, i)
                        == picked(choice_views(candidates@), start, i));
                    if j < connector {
                        assert(picked(choice_views(candidates@), next, j)
                            == picked(choice_views(candidates@), start, j));
                        let a = start[i];
                        let b = start[j];
                    }
                }
            }
        }
        if !used && next_shared.len() > 0 {
            picks.push(index);
            assert(picks@.map_values(|p: usize| p as int) =~= next);
            let result = complete_assignment(candidates, picks, next_shared);
            if let Some(modifiers) = result {
                proof {
                    let found = picks@.map_values(|p: usize| p as int);
                    assert(found.take(next.len() as int) == next);
                    assert(found.take(connector as int) =~= next.take(connector as int));
                    assert(next.take(connector as int) =~= start);
                    assert(found[connector as int] == next[connector as int]);
                    assert forall|other: Seq<int>| #[trigger]
                        is_assignment(choice_views(candidates@), other)
                            && other.take(connector as int)
                            == start implies at_least_as_early(found, other) by {
                        if other[connector as int] == index {
                            assert(other.take(next.len() as int) =~= next);
                        } else {
                            assert(earlier_at(found, other, connector as int));
                        }
                    }
                }
                return Some(modifiers);
            }
            picks.pop();
            assert(picks@ =~= picks0);
        }
        proof {
            assert forall|other: Seq<int>| #[trigger]
                is_assignment(choice_views(candidates@), other) && other.take(connector as int)
                    == start implies index + 1 <= other[connector as int] by {
                if other[connector as int] == index {
                    assert(other.take(connector + 1) =~= next);
                    lemma_prefix(choice_views(candidates@), other, connector + 1);
                    assert(compatible(choice_views(candidates@), next));
                    assert(other.take(next.len() as int) == next);
                }
            }
        }
        index += 1;
    }
    assert forall|other: Seq<int>| #[trigger] is_assignment(choice_views(candidates@), other) implies other.take(
        connector as int,
    ) != start by {
        if other.take(connector as int) == start {
            let pick = other[connector as int];
            assert(0 <= pick < choice_views(candidates@)[connector as int].len());
        }
    }
    None
}

/// Drive every connector at once: choose for each a controller and a primary
/// plane that no other uses, such that some memory layout is accepted by all.
///
/// `candidates` lists each connector's choices in order of preference. The
/// answer is the assignment that comes first in that order, and with it the
/// layouts shared by all its planes; it is `None` exactly where no assignment
/// exists.
pub fn assign_outputs(candidates: &[Vec<OutputChoice>]) -> (result: Option<
    (Vec<OutputChoice>, Vec<u64>),
>)
    ensures
        result is Some <==> assignable(choice_views(candidates@)),
        match result {
            None => forall|picks: Seq<int>| !is_assignment(choice_views(candidates@), picks),
            Some((selected, modifiers)) => exists|picks: Seq<int>| #[trigger]
                is_first_assignment(choice_views(candidates@), picks) && selects(
                    choice_views(candidates@),
                    picks,
                    selected@,
                ) && modifiers@ == shared_modifiers(choice_views(candidates@), picks),
        },
{
    let mut picks: Vec<usize> = Vec::new();
    let nothing: Vec<u64> = Vec::new();
    let ghost start = picks@.map_values(|p: usize| p as int);
    assert(start =~= Seq::<int>::empty());
    let result = complete_assignment(candidates, &mut picks, nothing);
    match result {
        None => {
            assert forall|other: Seq<int>| !is_assignment(choice_views(candidates@), other) by {
                assert(other.take(0) =~= start);
            }
            None
        },
        Some(modifiers) => {
            let ghost found = picks@.map_values(|p: usize| p as int);
            assert(is_first_assignment(choice_views(candidates@), found)) by {
                assert forall|other: Seq<int>| #[trigger]
                    is_assignment(choice_views(candidates@), other) implies at_least_as_early(found, other) by {
                    assert(other.take(0) =~= start);
                }
            }
            let mut selected: Vec<OutputChoice> = Vec::new();
            let mut index: usize = 0;
            while index < picks.len()
                invariant
                    index <= picks.len(),
                    picks.len() == candidates.len(),
                    found == picks@.map_values(|p: usize| p as int),
                    is_assignment(choice_views(candidates@), found),
                    selected.len() == index,
                    forall|i: int|
                        #![trigger selected@[i]]
                        0 <= i < index ==> selected@[i]@ == picked(
                            choice_views(candidates@),
                            found,
                            i,
                        ),
                decreases picks.len() - index,
            {
                assert(found[index as int] == picks@[index as int]);
                let choice = &candidates[index][picks[index]];
                selected.push(
                    OutputChoice {
                        crtc: choice.crtc,
                        plane: choice.plane,
                        modifiers: copy_u64s(choice.modifiers.as_slice()),
                    },
                );
                index += 1;
            }
            Some((selected, modifiers))
        },
    }
}

/// Every layout that an assignment shares is accepted by each of its planes.
pub proof fn shared_modifiers_are_accepted_by_all(
    candidates: Seq<Seq<ChoiceView>>,
    picks: Seq<int>,
    modifier: u64,
    connector: int,
)
    requires
        shared_modifiers(candidates, picks).contains(modifier),
        0 <= connector < picks.len(),
    ensures
        picked(candidates, picks, connector).modifiers.contains(modifier),
    decreases picks.len(),
{
    if picks.len() > 1 {
        let rest = shared_modifiers(candidates, picks.drop_last());
        let last = picked(candidates, picks, picks.len() - 1).modifiers;
        let test = |m: u64| last.contains(m);
        let kept = rest.filter(test);
        let at = choose|at: int| 0 <= at < kept.len() && kept[at] == modifier;
        rest.lemma_filter_pred(test, at);
        rest.lemma_filter_contains_rev(test, modifier);
        if connector < picks.len() - 1 {
            shared_modifiers_are_accepted_by_all(
                candidates,
                picks.drop_last(),
                modifier,
                connector,
            );
        }
    }
}

/// Two first assignments are the same assignment.
pub proof fn first_assignment_is_unique(
    candidates: Seq<Seq<ChoiceView>>,
    left: Seq<int>,
    right: Seq<int>,
)
    requires
        is_first_assignment(candidates, left),
        is_first_assignment(candidates, right),
    ensures
        left == right,
{
    assert(at_least_as_early(left, right));
    assert(at_least_as_early(right, left));
    if left != right {
        let k = choose|k: int| #[trigger] earlier_at(left, right, k);
        let l = choose|l: int| #[trigger] earlier_at(right, left, l);
        if k < l {
            assert(left.take(l)[k] == right.take(l)[k]);
        } else if l < k {
            assert(left.take(k)[l] == right.take(k)[l]);
        }
    }
}

/// An assignment drives every connector by one of its own choices, uses no controller
/// and no plane twice, and shares at least one layout.
pub proof fn assignments_share_nothing_but_layouts(
    candidates: &[Vec<OutputChoice>],
    selected: Vec<OutputChoice>,
    modifiers: Vec<u64>,
    i: int,
    j: int,
)
    requires
        call_ensures(assign_outputs, (candidates,), Some((selected, modifiers))),
        0 <= i < j < candidates@.len(),
    ensures
        selected@.len() == candidates@.len(),
        modifiers@.len() > 0,
        selected@[i].crtc != selected@[j].crtc,
        selected@[i].plane != selected@[j].plane,
        exists|k: int|
            #![trigger candidates@[i]@[k]]
            0 <= k < candidates@[i]@.len() && candidates@[i]@[k].crtc == selected@[i].crtc
                && candidates@[i]@[k].plane == selected@[i].plane && candidates@[i]@[k].modifiers@
                == selected@[i].modifiers@,
        forall|m: u64| #[trigger]
            modifiers@.contains(m) ==> selected@[i].modifiers@.contains(m)
                && selected@[j].modifiers@.contains(m),
{
    let views = choice_views(candidates@);
    let picks = choose|picks: Seq<int>| #[trigger]
        is_first_assignment(views, picks) && selects(views, picks, selected@) && modifiers@
            == shared_modifiers(views, picks);
    assert(is_assignment(views, picks));
    assert(selected@[i]@ == picked(views, picks, i));
    assert(selected@[j]@ == picked(views, picks, j));
    let a = picks[i];
    let b = picks[j];
    assert(views[i][a] == candidates@[i]@[a]@);
    assert forall|m: u64| #[trigger] modifiers@.contains(m) implies selected@[i].modifiers@.contains(
        m,
    ) && selected@[j].modifiers@.contains(m) by {
        shared_modifiers_are_accepted_by_all(views, picks, m, i);
        shared_modifiers_are_accepted_by_all(views, picks, m, j);
    }
}

proof fn lemma_common_layout_is_shared(
    candidates: Seq<Seq<ChoiceView>>,
    picks: Seq<int>,
    modifier: u64,
)
    requires
        picks.len() > 0,
        forall|i: int|
            #![trigger picks[i]]
            0 <= i < picks.len() ==> picked(candidates, picks, i).modifiers.contains(modifier),
    ensures
        shared_modifiers(candidates, picks).contains(modifier),
    decreases picks.len(),
{
    let n = picks.len() - 1;
    assert(picked(candidates, picks, n).modifiers.contains(modifier)) by {
        let last = picks[n];
    }
    if picks.len() > 1 {
        let rest = picks.drop_last();
        assert forall|i: int| #![trigger rest[i]] 0 <= i < rest.len() implies picked(
            candidates,
            rest,
            i,
        ).modifiers.contains(modifier) by {
            assert(rest[i] == picks[i]);
        }
        lemma_common_layout_is_shared(candidates, rest, modifier);
        let earlier = shared_modifiers(candidates, rest);
        let last = picked(candidates, picks, n).modifiers;
        let at = earlier.index_of(modifier);
        earlier.lemma_filter_contains(|m: u64| last.contains(m), at);
    }
}

/// Wherever every connector can be driven at once, an assignment is found.
pub proof fn possible_assignments_are_found(
    candidates: &[Vec<OutputChoice>],
    result: Option<(Vec<OutputChoice>, Vec<u64>)>,
    picks: Seq<int>,
    modifier: u64,
)
    requires
        call_ensures(assign_outputs, (candidates,), result),
        picks.len() == candidates@.len() && picks.len() > 0,
        forall|i: int|
            #![trigger picks[i]]
            0 <= i < picks.len() ==> 0 <= picks[i] < candidates@[i]@.len()
                && candidates@[i]@[picks[i]].modifiers@.contains(modifier),
        forall|i: int, j: int|
            #![trigger picks[i], picks[j]]
            0 <= i < j < picks.len() ==> candidates@[i]@[picks[i]].crtc
                != candidates@[j]@[picks[j]].crtc && candidates@[i]@[picks[i]].plane
                != candidates@[j]@[picks[j]].plane,
    ensures
        result is Some,
{
    let views = choice_views(candidates@);
    assert forall|i: int| #![trigger picks[i]] 0 <= i < picks.len() implies picked(
        views,
        picks,
        i,
    ).modifiers.contains(modifier) && 0 <= picks[i] < views[i].len() by {
        assert(picked(views, picks, i) == candidates@[i]@[picks[i]]@);
    }
    lemma_common_layout_is_shared(views, picks, modifier);
    assert forall|i: int, j: int|
        #![trigger picks[i], picks[j]]
        0 <= i < j < picks.len() implies picked(views, picks, i).crtc != picked(
        views,
        picks,
        j,
    ).crtc && picked(views, picks, i).plane != picked(views, picks, j).plane by {
        assert(picked(views, picks, i) == candidates@[i]@[picks[i]]@);
        assert(picked(views, picks, j) == candidates@[j]@[picks[j]]@);
    }
    assert(is_assignment(views, picks));
    assert(assignable(views));
}

} // verus!
