//! One-to-one allocation of optional planes.

use vstd::prelude::*;
use vstd::set_lib::*;

verus! {

/// Whether `plane` is one of the planes that `consumer` may use.
pub open spec fn allowed(
    choices: Seq<Vec<usize>>,
    plane_count: int,
    consumer: int,
    plane: int,
) -> bool {
    0 <= plane < plane_count && exists|i: int|
        0 <= i < choices[consumer]@.len() && #[trigger] choices[consumer]@[i] == plane
}

/// A matching gives each consumer at most one plane that it may use, and no
/// plane to two consumers.
pub open spec fn is_matching(
    choices: Seq<Vec<usize>>,
    plane_count: int,
    matching: Seq<Option<usize>>,
) -> bool {
    &&& matching.len() == choices.len()
    &&& forall|c: int|
        0 <= c < matching.len() && (#[trigger] matching[c]) is Some ==> allowed(
            choices,
            plane_count,
            c,
            matching[c]->0 as int,
        )
    &&& forall|c: int, d: int|
        0 <= c < d < matching.len() && (#[trigger] matching[c]) is Some && (
        #[trigger] matching[d]) is Some ==> matching[c]->0 != matching[d]->0
}

/// The consumers that a matching serves.
pub open spec fn served(matching: Seq<Option<usize>>) -> Set<int> {
    Set::new(|c: int| 0 <= c < matching.len() && matching[c] is Some)
}

/// Whether some matching serves all of `consumers`.
pub open spec fn can_serve(
    choices: Seq<Vec<usize>>,
    plane_count: int,
    consumers: Set<int>,
) -> bool {
    exists|m: Seq<Option<usize>>|
        is_matching(choices, plane_count, m) && consumers.subset_of(#[trigger] served(m))
}

/// The consumers below `limit` that a matching serves.
pub open spec fn served_below(matching: Seq<Option<usize>>, limit: int) -> Set<int> {
    served(matching).filter(|c: int| c < limit)
}

/// Owners of planes, where every owner may use what it owns.
spec fn owners_ok(
    choices: Seq<Vec<usize>>,
    owners: Seq<Option<usize>>,
) -> bool {
    forall|p: int|
        0 <= p < owners.len() && (#[trigger] owners[p]) is Some ==> owners[p]->0 < choices.len()
            && allowed(choices, owners.len() as int, owners[p]->0 as int, p)
}

/// No consumer owns two planes.
spec fn owners_distinct(owners: Seq<Option<usize>>) -> bool {
    forall|p: int, q: int|
        0 <= p < owners.len() && 0 <= q < owners.len() && p != q && (#[trigger] owners[p]) is Some
            && (#[trigger] owners[q]) is Some ==> owners[p]->0 != owners[q]->0
}

/// Whether `consumer` owns some plane.
spec fn owns(owners: Seq<Option<usize>>, consumer: int) -> bool {
    exists|p: int| 0 <= p < owners.len() && #[trigger] owners[p] == Some(consumer as usize)
}

/// Whether everything that `consumer` may use lies in `planes`.
spec fn confined(
    choices: Seq<Vec<usize>>,
    plane_count: int,
    consumer: int,
    planes: Set<int>,
) -> bool {
    forall|p: int| #[trigger] allowed(choices, plane_count, consumer, p) ==> planes.contains(p)
}

/// Planes from which no free plane can be reached: each is owned by a consumer
/// that may use nothing else.
spec fn dead_end(
    choices: Seq<Vec<usize>>,
    owners: Seq<Option<usize>>,
    planes: Set<int>,
) -> bool {
    forall|p: int| #[trigger]
        planes.contains(p) ==> 0 <= p < owners.len() && owners[p] is Some && confined(
            choices,
            owners.len() as int,
            owners[p]->0 as int,
            planes,
        )
}

/// The planes marked in `visited`.
spec fn marked(visited: Seq<bool>) -> Set<int> {
    Set::new(|p: int| 0 <= p < visited.len() && visited[p])
}

/// How many entries are not marked.
spec fn unmarked(visited: Seq<bool>) -> nat
    decreases visited.len(),
{
    if visited.len() == 0 {
        0
    } else {
        unmarked(visited.drop_last()) + if visited.last() {
            0nat
        } else {
            1nat
        }
    }
}

/// Marking more entries leaves fewer unmarked.
proof fn lemma_unmarked_shrinks(before: Seq<bool>, after: Seq<bool>)
    requires
        before.len() == after.len(),
        forall|p: int| 0 <= p < before.len() && before[p] ==> after[p],
    ensures
        unmarked(after) <= unmarked(before),
        (exists|p: int| 0 <= p < before.len() && !before[p] && after[p]) ==> unmarked(after)
            < unmarked(before),
    decreases before.len(),
{
    if before.len() > 0 {
        lemma_unmarked_shrinks(before.drop_last(), after.drop_last());
        if exists|p: int| 0 <= p < before.len() && !before[p] && after[p] {
            let p = choose|p: int| 0 <= p < before.len() && !before[p] && after[p];
            if p < before.len() - 1 {
                assert(!before.drop_last()[p] && after.drop_last()[p]);
            }
        }
    }
}

/// Try to give `consumer` a plane, moving other consumers to another of their
/// planes where that frees one. Planes marked in `visited` are not tried.
fn augment(
    consumer: usize,
    choices: &[Vec<usize>],
    owners: &mut Vec<Option<usize>>,
    visited: &mut Vec<bool>,
    Ghost(dead): Ghost<Set<int>>,
) -> (found: bool)
    requires
        consumer < choices.len(),
        old(owners).len() == old(visited).len(),
        owners_ok(choices@, old(owners)@),
        owners_distinct(old(owners)@),
        forall|p: int|
            0 <= p < old(owners).len() && #[trigger] old(owners)@[p] == Some(consumer)
                ==> old(visited)@[p],
        dead_end(choices@, old(owners)@, dead),
    ensures
        final(owners).len() == old(owners).len(),
        final(visited).len() == old(visited).len(),
        forall|p: int| 0 <= p < old(visited).len() && old(visited)@[p] ==> final(visited)@[p],
        owners_ok(choices@, final(owners)@),
        confined(choices@, old(owners).len() as int, consumer as int, dead) ==> !found,
        !found ==> final(owners)@ == old(owners)@ && confined(
            choices@,
            old(owners).len() as int,
            consumer as int,
            marked(final(visited)@),
        ) && forall|p: int|
            0 <= p < old(visited).len() && !old(visited)@[p] && #[trigger] final(visited)@[p] ==> (
            old(owners)@[p] is Some && confined(
                choices@,
                old(owners).len() as int,
                old(owners)@[p]->0 as int,
                marked(final(visited)@),
            )),
        found ==> {
            &&& forall|p: int|
                0 <= p < old(owners).len() && (old(visited)@[p] || dead.contains(p)) ==> (
                #[trigger] final(owners)@[p]) == old(owners)@[p]
            &&& exists|p: int|
                0 <= p < old(owners).len() && !old(visited)@[p] && #[trigger] final(owners)@[p]
                    == Some(consumer)
            &&& forall|p: int, q: int|
                0 <= p < old(owners).len() && 0 <= q < old(owners).len() && p != q && (
                #[trigger] final(owners)@[p]) is Some && (#[trigger] final(owners)@[q]) is Some
                    && final(owners)@[p]->0 == final(owners)@[q]->0 ==> final(owners)@[p]->0
                    == consumer && (old(visited)@[p] || old(visited)@[q])
            &&& forall|c: usize|
                owns(final(owners)@, c as int) <==> owns(old(owners)@, c as int) || c == consumer
        },
    decreases unmarked(old(visited)@),
{
    let ghost owners0 = owners@;
    let ghost visited0 = visited@;
    let ghost n = owners@.len() as int;
    let mut index: usize = 0;
    while index < choices[consumer].len()
        invariant
            index <= choices@[consumer as int].len(),
            consumer < choices.len(),
            owners@ == owners0,
            owners0 == old(owners)@,
            visited0 == old(visited)@,
            n == owners0.len(),
            visited@.len() == n,
            visited0.len() == n,
            owners_ok(choices@, owners0),
            owners_distinct(owners0),
            dead_end(choices@, owners0, dead),
            forall|p: int|
                0 <= p < n && #[trigger] owners0[p] == Some(consumer) ==> visited0[p],
            forall|p: int| 0 <= p < n && visited0[p] ==> visited@[p],
            forall|i: int|
                0 <= i < index && (#[trigger] choices@[consumer as int]@[i]) < n
                    ==> visited@[choices@[consumer as int]@[i] as int],
            forall|p: int|
                0 <= p < n && !visited0[p] && #[trigger] visited@[p] ==> (owners0[p] is Some
                    && confined(choices@, n, owners0[p]->0 as int, marked(visited@))),
        decreases choices@[consumer as int].len() - index,
    {
        let plane: usize = choices[consumer][index];
        if plane < owners.len() && !visited[plane] {
            let ghost visited1 = visited@;
            visited.set(plane, true);
            let ghost visited2 = visited@;
            proof {
                assert(choices@[consumer as int]@[index as int] == plane);
                assert(allowed(choices@, n, consumer as int, plane as int));
                assert(!visited0[plane as int]);
                lemma_unmarked_shrinks(visited0, visited2);
                assert(visited2[plane as int]);
            }
            match owners[plane] {
                None => {
                    owners.set(plane, Some(consumer));
                    proof {
                        assert(owners@[plane as int] == Some(consumer));
                        assert forall|c: usize|
                            owns(owners@, c as int) <==> owns(owners0, c as int) || c
                                == consumer by {
                            if owns(owners0, c as int) {
                                let p = choose|p: int|
                                    0 <= p < owners0.len() && #[trigger] owners0[p] == Some(c);
                                assert(owners@[p] == Some(c));
                            }
                            if owns(owners@, c as int) && c != consumer {
                                let p = choose|p: int|
                                    0 <= p < owners@.len() && #[trigger] owners@[p] == Some(c);
                                assert(owners0[p] == Some(c));
                            }
                        }
                        assert(!dead.contains(plane as int));
                    }
                    return true;
                },
                Some(owner) => {
                    proof {
                        assert(owners0[plane as int] == Some(owner));
                        assert(owner != consumer);
                        assert forall|p: int|
                            0 <= p < n && #[trigger] owners0[p]
                                == Some(owner) implies visited2[p] by {
                            if p != plane {
                                assert(owners0[p] is Some && owners0[plane as int] is Some);
                            }
                        }
                    }
                    let moved = augment(owner, choices, owners, visited, Ghost(dead));
                    if moved {
                        let ghost owners3 = owners@;
                        owners.set(plane, Some(consumer));
                        proof {
                            lemma_augmented(
                                choices@,
                                owners0,
                                visited0,
                                visited2,
                                owners3,
                                owners@,
                                plane,
                                owner,
                                consumer,
                                dead,
                            );
                            assert(owners@[plane as int] == Some(consumer));
                        }
                        return true;
                    }
                    proof {
                        assert(marked(visited2).subset_of(marked(visited@)));
                        assert forall|p: int|
                            0 <= p < n && !visited0[p] && #[trigger] visited@[p] implies (
                        owners0[p] is Some && confined(
                            choices@,
                            n,
                            owners0[p]->0 as int,
                            marked(visited@),
                        )) by {
                            if p != plane && visited1[p] {
                                assert(marked(visited1).subset_of(marked(visited@)));
                                assert(confined(
                                    choices@,
                                    n,
                                    owners0[p]->0 as int,
                                    marked(visited1),
                                ));
                            }
                        }
                    }
                },
            }
        }
        index += 1;
    }
    proof {
        assert forall|p: int| #[trigger]
            allowed(choices@, n, consumer as int, p) implies marked(visited@).contains(p) by {
            let i = choose|i: int|
                0 <= i < choices@[consumer as int]@.len()
                    && #[trigger] choices@[consumer as int]@[i]
                    == p;
            assert(visited@[choices@[consumer as int]@[i] as int]);
        }
    }
    false
}

/// Handing `plane` to `consumer`, once its former owner has found another
/// plane, keeps what an allocation promises.
proof fn lemma_augmented(
    choices: Seq<Vec<usize>>,
    owners0: Seq<Option<usize>>,
    visited0: Seq<bool>,
    visited2: Seq<bool>,
    owners3: Seq<Option<usize>>,
    owners4: Seq<Option<usize>>,
    plane: usize,
    owner: usize,
    consumer: usize,
    dead: Set<int>,
)
    requires
        consumer < choices.len(),
        owners0.len() == visited0.len(),
        owners0.len() == visited2.len(),
        owners0.len() == owners3.len(),
        owners_ok(choices, owners0),
        owners_distinct(owners0),
        owners_ok(choices, owners3),
        plane < owners0.len(),
        owners0[plane as int] == Some(owner),
        owner != consumer,
        !visited0[plane as int],
        visited2[plane as int],
        forall|p: int| 0 <= p < visited0.len() && visited0[p] ==> visited2[p],
        forall|p: int|
            0 <= p < owners0.len() && #[trigger] owners0[p] == Some(consumer) ==> visited0[p],
        allowed(choices, owners0.len() as int, consumer as int, plane as int),
        dead_end(choices, owners0, dead),
        !confined(choices, owners0.len() as int, owner as int, dead),
        forall|p: int|
            0 <= p < owners0.len() && (visited2[p] || dead.contains(p)) ==> (
            #[trigger] owners3[p]) == owners0[p],
        exists|p: int|
            0 <= p < owners0.len() && !visited2[p] && #[trigger] owners3[p] == Some(owner),
        forall|p: int, q: int|
            0 <= p < owners0.len() && 0 <= q < owners0.len() && p != q && (
            #[trigger] owners3[p]) is Some && (#[trigger] owners3[q]) is Some && owners3[p]->0
                == owners3[q]->0 ==> owners3[p]->0 == owner && (visited2[p] || visited2[q]),
        forall|c: usize|
            owns(owners3, c as int) <==> owns(owners0, c as int) || c == owner,
        owners4 == owners3.update(plane as int, Some(consumer)),
    ensures
        owners_ok(choices, owners4),
        !dead.contains(plane as int),
        forall|p: int|
            0 <= p < owners0.len() && (visited0[p] || dead.contains(p)) ==> (
            #[trigger] owners4[p]) == owners0[p],
        forall|p: int, q: int|
            0 <= p < owners0.len() && 0 <= q < owners0.len() && p != q && (
            #[trigger] owners4[p]) is Some && (#[trigger] owners4[q]) is Some && owners4[p]->0
                == owners4[q]->0 ==> owners4[p]->0 == consumer && (visited0[p] || visited0[q]),
        forall|c: usize|
            owns(owners4, c as int) <==> owns(owners0, c as int) || c == consumer,
{
    let n = owners0.len() as int;
    if dead.contains(plane as int) {
        assert(confined(choices, n, owner as int, dead));
        assert(false);
    }
    let other = choose|p: int|
        0 <= p < n && !visited2[p] && #[trigger] owners3[p] == Some(owner);
    assert(other != plane);
    assert(owners4[other] == Some(owner));
    assert forall|p: int|
        0 <= p < n && #[trigger] owners3[p] == Some(consumer) implies visited0[p] && owners0[p]
        == Some(consumer) by {
        assert(owns(owners3, consumer as int));
        assert(owns(owners0, consumer as int));
        let p0 = choose|p0: int| 0 <= p0 < n && #[trigger] owners0[p0] == Some(consumer);
        assert(visited0[p0]);
        assert(owners3[p0] == owners0[p0]);
        if p != p0 {
            assert(owners3[p] is Some && owners3[p0] is Some);
            assert(false);
        }
    }
    assert forall|p: int, q: int|
        0 <= p < n && 0 <= q < n && p != q && (#[trigger] owners4[p]) is Some && (
        #[trigger] owners4[q]) is Some && owners4[p]->0 == owners4[q]->0 implies owners4[p]->0
        == consumer && (visited0[p] || visited0[q]) by {
        if p == plane {
            assert(owners3[q] == Some(consumer));
        } else if q == plane {
            assert(owners3[p] == Some(consumer));
        } else {
            assert(owners3[p] == owners4[p] && owners3[q] == owners4[q]);
            assert(owners3[p]->0 == owner);
            assert(owners3[plane as int] == Some(owner));
            if visited2[p] {
                assert(owners3[p] == owners0[p]);
                assert(owners0[p] is Some && owners0[plane as int] is Some);
                assert(false);
            } else {
                assert(owners3[q] == owners0[q]);
                assert(owners0[q] is Some && owners0[plane as int] is Some);
                assert(false);
            }
        }
    }
    assert forall|c: usize|
        owns(owners4, c as int) <==> owns(owners0, c as int) || c == consumer by {
        if owns(owners4, c as int) {
            let p = choose|p: int| 0 <= p < n && #[trigger] owners4[p] == Some(c);
            if p != plane {
                assert(owners3[p] == Some(c));
                assert(owns(owners3, c as int));
                if c == owner {
                    assert(owners0[plane as int] == Some(c));
                    assert(owns(owners0, c as int));
                }
            }
        }
        if owns(owners0, c as int) {
            assert(owns(owners3, c as int));
            let p = choose|p: int| 0 <= p < n && #[trigger] owners3[p] == Some(c);
            if p == plane {
                assert(owners3[plane as int] == owners0[plane as int]);
                assert(c == owner);
                assert(owners4[other] == Some(c));
            } else {
                assert(owners4[p] == Some(c));
            }
        }
        if c == consumer {
            assert(owners4[plane as int] == Some(c));
        }
    }
}

/// The consumers that own one of `planes`.
spec fn owner_set(owners: Seq<Option<usize>>, planes: Set<int>) -> Set<int> {
    planes.map(|p: int| owners[p]->0 as int)
}

/// A dead end has as many owners as planes.
proof fn lemma_owner_set(choices: Seq<Vec<usize>>, owners: Seq<Option<usize>>, planes: Set<int>)
    requires
        owners_distinct(owners),
        dead_end(choices, owners, planes),
    ensures
        planes.finite(),
        owner_set(owners, planes).finite(),
        owner_set(owners, planes).len() == planes.len(),
        forall|c: int| #[trigger]
            owner_set(owners, planes).contains(c) ==> 0 <= c && c <= usize::MAX && owns(owners, c)
                && confined(choices, owners.len() as int, c, planes),
{
    lemma_int_range(0, owners.len() as int);
    assert(planes.subset_of(set_int_range(0, owners.len() as int)));
    lemma_len_subset(planes, set_int_range(0, owners.len() as int));
    let f = |p: int| owners[p]->0 as int;
    assert(vstd::relations::injective_on(f, planes)) by {
        assert forall|p: int, q: int|
            planes.contains(p) && planes.contains(q) && #[trigger] f(p) == #[trigger] f(
                q,
            ) implies p == q by {
            assert(owners[p] is Some && owners[q] is Some);
        }
    }
    lemma_map_size(planes, owner_set(owners, planes), f);
    assert forall|c: int| #[trigger] owner_set(owners, planes).contains(c) implies 0 <= c && c
        <= usize::MAX && owns(owners, c) && confined(choices, owners.len() as int, c, planes) by {
        let p = choose|p: int| #[trigger] planes.contains(p) && c == f(p);
        assert(owners[p] == Some(c as usize));
    }
}

/// Consumers that are all confined to some planes cannot be more than those
/// planes, if one matching serves them all.
proof fn lemma_pigeonhole(
    choices: Seq<Vec<usize>>,
    plane_count: int,
    matching: Seq<Option<usize>>,
    consumers: Set<int>,
    planes: Set<int>,
)
    requires
        is_matching(choices, plane_count, matching),
        consumers.subset_of(served(matching)),
        forall|c: int| #[trigger]
            consumers.contains(c) ==> confined(choices, plane_count, c, planes),
        planes.finite(),
    ensures
        consumers.finite(),
        consumers.len() <= planes.len(),
{
    lemma_int_range(0, matching.len() as int);
    assert(consumers.subset_of(set_int_range(0, matching.len() as int)));
    lemma_len_subset(consumers, set_int_range(0, matching.len() as int));
    let f = |c: int| matching[c]->0 as int;
    assert(vstd::relations::injective_on(f, consumers)) by {
        assert forall|c: int, d: int|
            consumers.contains(c) && consumers.contains(d) && #[trigger] f(c) == #[trigger] f(
                d,
            ) implies c == d by {
            assert(served(matching).contains(c) && served(matching).contains(d));
            assert(matching[c] is Some && matching[d] is Some);
        }
    }
    let image = consumers.map(f);
    lemma_map_size(consumers, image, f);
    assert forall|p: int| #[trigger] image.contains(p) implies planes.contains(p) by {
        let c = choose|c: int| #[trigger] consumers.contains(c) && p == f(c);
        assert(served(matching).contains(c));
        assert(matching[c] is Some);
        assert(allowed(choices, plane_count, c, p));
    }
    lemma_len_subset(image, planes);
}

/// A matching whose unserved consumers are all confined to a dead end serves as
/// many consumers as any matching does.
proof fn lemma_maximum(
    choices: Seq<Vec<usize>>,
    owners: Seq<Option<usize>>,
    result: Seq<Option<usize>>,
    dead: Set<int>,
    other: Seq<Option<usize>>,
)
    requires
        owners_distinct(owners),
        dead_end(choices, owners, dead),
        result.len() == choices.len(),
        choices.len() <= usize::MAX,
        forall|c: int| 0 <= c < choices.len() ==> (served(result).contains(c) <==> owns(owners, c)),
        forall|p: int|
            0 <= p < owners.len() && (#[trigger] owners[p]) is Some ==> owners[p]->0
                < choices.len(),
        forall|c: int|
            0 <= c < choices.len() && !(#[trigger] served(result).contains(c)) ==> confined(
                choices,
                owners.len() as int,
                c,
                dead,
            ),
        is_matching(choices, owners.len() as int, other),
    ensures
        served(other).len() <= served(result).len(),
{
    let n = choices.len() as int;
    let everyone = set_int_range(0, n);
    lemma_int_range(0, n);
    let unserved = everyone.difference(served(result));
    lemma_owner_set(choices, owners, dead);
    let stuck_owners = owner_set(owners, dead);
    assert forall|c: int| #[trigger] stuck_owners.contains(c) implies served(result).contains(c) by {
        let p = choose|p: int|
            0 <= p < owners.len() && #[trigger] owners[p] == Some(c as usize);
        assert(owners[p] is Some);
    }
    lemma_len_subset(unserved, everyone);
    assert(served(result).subset_of(everyone));
    lemma_len_subset(served(result), everyone);
    assert(unserved.disjoint(served(result)));
    lemma_set_disjoint_lens(unserved, served(result));
    assert(unserved + served(result) =~= everyone);
    let stuck = unserved + stuck_owners;
    assert(unserved.disjoint(stuck_owners));
    lemma_set_disjoint_lens(unserved, stuck_owners);
    assert(stuck.subset_of(everyone));
    lemma_len_subset(stuck, everyone);
    let inside = served(other).intersect(stuck);
    let outside = served(other).difference(stuck);
    assert(served(other).subset_of(everyone));
    lemma_len_subset(served(other), everyone);
    lemma_pigeonhole(choices, owners.len() as int, other, inside, dead);
    let free = everyone.difference(stuck);
    lemma_len_subset(free, everyone);
    assert(free.disjoint(stuck));
    lemma_set_disjoint_lens(free, stuck);
    assert(free + stuck =~= everyone);
    assert(outside.subset_of(free));
    lemma_len_subset(outside, free);
    assert(inside.disjoint(outside));
    lemma_set_disjoint_lens(inside, outside);
    assert(inside + outside =~= served(other));
}

/// A consumer confined to a dead end whose owners all come before it cannot be
/// served together with every served consumer before it.
proof fn lemma_priority(
    choices: Seq<Vec<usize>>,
    owners: Seq<Option<usize>>,
    result: Seq<Option<usize>>,
    dead: Set<int>,
    consumer: int,
)
    requires
        owners_distinct(owners),
        dead_end(choices, owners, dead),
        forall|c: int| 0 <= c < choices.len() ==> (served(result).contains(c) <==> owns(owners, c)),
        choices.len() <= usize::MAX,
        0 <= consumer < choices.len(),
        confined(choices, owners.len() as int, consumer, dead),
        forall|p: int| #[trigger] dead.contains(p) ==> owners[p]->0 < consumer,
    ensures
        !can_serve(
            choices,
            owners.len() as int,
            served_below(result, consumer).insert(consumer),
        ),
{
    let wanted = served_below(result, consumer).insert(consumer);
    if can_serve(choices, owners.len() as int, wanted) {
        let m = choose|m: Seq<Option<usize>>|
            is_matching(choices, owners.len() as int, m) && wanted.subset_of(
                #[trigger] served(m),
            );
        lemma_owner_set(choices, owners, dead);
        let stuck_owners = owner_set(owners, dead);
        assert forall|c: int| #[trigger] stuck_owners.contains(c) implies c < consumer by {
            let p = choose|p: int| #[trigger] dead.contains(p) && c == owners[p]->0 as int;
        }
        let stuck = stuck_owners.insert(consumer);
        assert(stuck.subset_of(wanted));
        lemma_pigeonhole(choices, owners.len() as int, m, stuck, dead);
        assert(false);
    }
}

/// Give as many consumers as possible a plane of their own.
///
/// `choices` holds, for each consumer, indices into the discovered planes in
/// order of preference; indices past `plane_count` are ignored. The result is a
/// matching that no matching beats in number. Earlier consumers take
/// precedence: a consumer goes without only where serving it would take a plane
/// away from the served ones before it.
pub fn assign_optional_planes(choices: &[Vec<usize>], plane_count: usize) -> (assignments: Vec<
    Option<usize>,
>)
    ensures
        is_matching(choices@, plane_count as int, assignments@),
        forall|m: Seq<Option<usize>>|
            is_matching(choices@, plane_count as int, m) ==> (#[trigger] served(m)).len()
                <= served(assignments@).len(),
        forall|c: int|
            0 <= c < choices.len() && (#[trigger] assignments@[c]) is None ==> !can_serve(
                choices@,
                plane_count as int,
                served_below(assignments@, c).insert(c),
            ),
{
    let mut owners: Vec<Option<usize>> = Vec::new();
    let mut made: usize = 0;
    while made < plane_count
        invariant
            made <= plane_count,
            owners.len() == made,
            forall|p: int| 0 <= p < made ==> (#[trigger] owners@[p]) is None,
        decreases plane_count - made,
    {
        owners.push(None);
        made += 1;
    }
    let ghost mut dead: Set<int> = Set::empty();
    let ghost mut stuck: Seq<Set<int>> = Seq::empty();
    let mut consumer: usize = 0;
    while consumer < choices.len()
        invariant
            consumer <= choices.len(),
            owners.len() == plane_count,
            owners_ok(choices@, owners@),
            owners_distinct(owners@),
            dead_end(choices@, owners@, dead),
            forall|p: int|
                0 <= p < plane_count && (#[trigger] owners@[p]) is Some ==> owners@[p]->0
                    < consumer,
            stuck.len() == consumer,
            forall|c: int|
                #![trigger stuck[c]]
                0 <= c < consumer && !owns(owners@, c) ==> confined(
                    choices@,
                    plane_count as int,
                    c,
                    stuck[c],
                ) && stuck[c].subset_of(dead) && dead_end(choices@, owners@, stuck[c])
                    && forall|p: int| #[trigger] stuck[c].contains(p) ==> owners@[p]->0 < c,
        decreases choices.len() - consumer,
    {
        let mut visited: Vec<bool> = Vec::new();
        let mut filled: usize = 0;
        while filled < plane_count
            invariant
                filled <= plane_count,
                visited.len() == filled,
                forall|p: int| 0 <= p < filled ==> !(#[trigger] visited@[p]),
            decreases plane_count - filled,
        {
            visited.push(false);
            filled += 1;
        }
        let ghost before = owners@;
        let ghost dead0 = dead;
        let found = augment(consumer, choices, &mut owners, &mut visited, Ghost(dead));
        proof {
            if found {
                assert(owners_distinct(owners@));
                assert(dead_end(choices@, owners@, dead));
                assert forall|p: int|
                    0 <= p < plane_count && (#[trigger] owners@[p]) is Some implies owners@[p]->0
                    < consumer + 1 by {
                    let c = owners@[p]->0;
                    assert(owns(owners@, c as int));
                    if c != consumer {
                        assert(owns(before, c as int));
                        let q = choose|q: int|
                            0 <= q < before.len() && #[trigger] before[q] == Some(c);
                        assert(before[q] is Some);
                    }
                }
                assert forall|c: int| 0 <= c < consumer && !owns(owners@, c) implies (confined(
                    choices@,
                    plane_count as int,
                    c,
                    #[trigger] stuck[c],
                ) && stuck[c].subset_of(dead) && dead_end(choices@, owners@, stuck[c])
                    && forall|p: int| #[trigger] stuck[c].contains(p) ==> owners@[p]->0 < c) by {
                    assert(owns(owners@, c as usize as int) <==> owns(before, c as usize as int)
                        || c as usize == consumer);
                    assert forall|p: int| #[trigger] stuck[c].contains(p) implies owners@[p]
                        == before[p] by {
                        assert(dead.contains(p));
                    }
                }
                assert(owns(owners@, consumer as int));
                stuck = stuck.push(Set::empty());
            } else {
                dead = dead0.union(marked(visited@));
                assert(dead_end(choices@, owners@, dead)) by {
                    assert forall|p: int| #[trigger] dead.contains(p) implies 0 <= p
                        < owners@.len() && owners@[p] is Some && confined(
                        choices@,
                        owners@.len() as int,
                        owners@[p]->0 as int,
                        dead,
                    ) by {
                        if dead0.contains(p) {
                            assert(confined(
                                choices@,
                                owners@.len() as int,
                                owners@[p]->0 as int,
                                dead0,
                            ));
                        } else {
                            assert(visited@[p]);
                            assert(confined(
                                choices@,
                                owners@.len() as int,
                                owners@[p]->0 as int,
                                marked(visited@),
                            ));
                        }
                    }
                }
                assert forall|p: int| #[trigger] dead.contains(p) implies owners@[p]->0
                    < consumer by {
                    assert(owners@[p] is Some);
                }
                stuck = stuck.push(dead);
            }
        }
        consumer += 1;
    }
    let mut assignments: Vec<Option<usize>> = Vec::new();
    let mut slots: usize = 0;
    while slots < choices.len()
        invariant
            slots <= choices.len(),
            assignments.len() == slots,
            forall|c: int| 0 <= c < slots ==> (#[trigger] assignments@[c]) is None,
        decreases choices.len() - slots,
    {
        assignments.push(None);
        slots += 1;
    }
    let mut plane: usize = 0;
    while plane < owners.len()
        invariant
            plane <= owners.len(),
            owners.len() == plane_count,
            assignments.len() == choices.len(),
            owners_ok(choices@, owners@),
            owners_distinct(owners@),
            forall|c: int|
                0 <= c < choices.len() && (#[trigger] assignments@[c]) is Some
                    ==> assignments@[c]->0
                    < plane && owners@[assignments@[c]->0 as int] == Some(c as usize),
            forall|p: int|
                0 <= p < plane && (#[trigger] owners@[p]) is Some
                    ==> assignments@[owners@[p]->0 as int] == Some(p as usize),
        decreases owners.len() - plane,
    {
        if let Some(owner) = owners[plane] {
            assert(owners@[plane as int] is Some);
            assignments.set(owner, Some(plane));
        }
        plane += 1;
    }
    proof {
        assert forall|c: int| 0 <= c < choices.len() implies (served(assignments@).contains(c)
            <==> owns(owners@, c)) by {
            if served(assignments@).contains(c) {
                assert(owners@[assignments@[c]->0 as int] == Some(c as usize));
            }
            if owns(owners@, c) {
                let p = choose|p: int|
                    0 <= p < owners@.len() && #[trigger] owners@[p] == Some(c as usize);
                assert(owners@[p] is Some);
            }
        }
        assert(is_matching(choices@, plane_count as int, assignments@)) by {
            assert forall|c: int|
                0 <= c < assignments@.len() && (#[trigger] assignments@[c]) is Some implies allowed(
                choices@,
                plane_count as int,
                c,
                assignments@[c]->0 as int,
            ) by {
                assert(owners@[assignments@[c]->0 as int] is Some);
            }
        }
        assert forall|c: int|
            0 <= c < choices.len()
                && !(#[trigger] served(assignments@).contains(c)) implies confined(
            choices@,
            plane_count as int,
            c,
            dead,
        ) by {
            assert(stuck[c].subset_of(dead));
        }
        assert forall|m: Seq<Option<usize>>|
            is_matching(choices@, plane_count as int, m) implies (#[trigger] served(m)).len()
            <= served(assignments@).len() by {
            lemma_maximum(choices@, owners@, assignments@, dead, m);
        }
        assert forall|c: int|
            0 <= c < choices.len() && (#[trigger] assignments@[c]) is None implies !can_serve(
            choices@,
            plane_count as int,
            served_below(assignments@, c).insert(c),
        ) by {
            assert(!served(assignments@).contains(c));
            assert(stuck[c].subset_of(dead));
            lemma_priority(choices@, owners@, assignments@, stuck[c], c);
        }
    }
    assignments
}

/// A consumer gets a plane that it may use, no plane is given twice, and a consumer goes
/// without only where every plane it may use is given away.
pub proof fn planes_are_given_where_they_may_be_used(
    choices: &[Vec<usize>],
    plane_count: usize,
    assignments: Vec<Option<usize>>,
    i: int,
    j: int,
    plane: usize,
)
    requires
        call_ensures(assign_optional_planes, (choices, plane_count), assignments),
        0 <= i < choices@.len(),
        0 <= j < choices@.len(),
    ensures
        assignments@.len() == choices@.len(),
        assignments@[i] matches Some(own) ==> own < plane_count && choices@[i]@.contains(own),
        i != j && assignments@[i] is Some ==> assignments@[i] != assignments@[j],
        assignments@[i] is None && plane < plane_count && choices@[i]@.contains(plane) ==> exists|
            k: int,
        |
            0 <= k < assignments@.len() && #[trigger] assignments@[k] == Some(plane),
{
    let all = choices@;
    let n = plane_count as int;
    let given = assignments@;
    if given[i] is Some {
        let own = given[i]->0;
        assert(allowed(all, n, i, own as int));
        let at = choose|at: int| 0 <= at < all[i]@.len() && #[trigger] all[i]@[at] == own as int;
        assert(all[i]@[at] == own);
        if i < j {
            assert(given[j] is Some ==> given[j]->0 != given[i]->0);
        } else if j < i {
            assert(given[j] is Some ==> given[j]->0 != given[i]->0);
        }
    } else if plane < plane_count && all[i]@.contains(plane) && !(exists|k: int|
        0 <= k < given.len() && #[trigger] given[k] == Some(plane)) {
        let more = given.update(i, Some(plane));
        let at = all[i]@.index_of(plane);
        assert(all[i]@[at] == plane as int);
        assert(allowed(all, n, i, plane as int));
        assert forall|c: int| 0 <= c < more.len() && (#[trigger] more[c]) is Some implies allowed(
            all,
            n,
            c,
            more[c]->0 as int,
        ) by {
            if c != i {
                assert(given[c] is Some);
            }
        }
        assert forall|c: int, d: int|
            0 <= c < d < more.len() && (#[trigger] more[c]) is Some && (
            #[trigger] more[d]) is Some implies more[c]->0 != more[d]->0 by {
            if c == i {
                assert(given[d] != Some(plane));
            } else if d == i {
                assert(given[c] != Some(plane));
            } else {
                assert(given[c] is Some && given[d] is Some);
            }
        }
        assert(is_matching(all, n, more));
        assert(served_below(given, i).insert(i).subset_of(served(more)));
        assert(can_serve(all, n, served_below(given, i).insert(i)));
    }
}

} // verus!
