//! Giving each ingredient of a recipe an item of its own.
//!
//! An ingredient that finds every item it takes given away has one of them handed over by an
//! ingredient that takes something else, and that one by another in turn. Where no such row of
//! hand-overs ends at an item that is still there, more ingredients ask for some items than there
//! are of them, and no way of giving them out would do.
use vstd::prelude::*;
use vstd::set_lib::{lemma_int_range, lemma_len_subset, set_int_range};

use crate::hud::ints;
use crate::menus::{Allowed, Known};

verus! {

/// How many of some choices are a given one.
pub open spec fn chosen(picks: Seq<int>, at: int) -> int
    decreases picks.len(),
{
    if picks.len() == 0 {
        0
    } else {
        chosen(picks.drop_last(), at) + if picks.last() == at {
            1int
        } else {
            0int
        }
    }
}

/// Whether some choices give each ingredient an item it takes, and use no more of any kind than are
/// there.
pub open spec fn serves(
    known: Known,
    wanted: Seq<Allowed>,
    left: Seq<(u32, u64)>,
    picks: Seq<int>,
) -> bool {
    &&& picks.len() == wanted.len()
    &&& forall|k: int|
        0 <= k < wanted.len() ==> 0 <= #[trigger] picks[k] < left.len() && known.takes(
            wanted[k],
            left[picks[k]].0,
        )
    &&& forall|at: int| 0 <= at < left.len() ==> #[trigger] chosen(picks, at) <= left[at].1
}

proof fn one_more(picks: Seq<int>, pick: int, at: int)
    ensures
        chosen(picks.push(pick), at) == chosen(picks, at) + if pick == at {
            1int
        } else {
            0int
        },
{
    assert(picks.push(pick).drop_last() =~= picks);
}

proof fn no_more_than_all(picks: Seq<int>, at: int)
    ensures
        0 <= chosen(picks, at) <= picks.len(),
    decreases picks.len(),
{
    if picks.len() > 0 {
        no_more_than_all(picks.drop_last(), at);
    }
}

proof fn one_changed(picks: Seq<int>, j: int, pick: int, at: int)
    requires
        0 <= j < picks.len(),
    ensures
        chosen(picks.update(j, pick), at) == chosen(picks, at) - (if picks[j] == at {
            1int
        } else {
            0int
        }) + if pick == at {
            1int
        } else {
            0int
        },
    decreases picks.len(),
{
    let changed = picks.update(j, pick);
    if j == picks.len() - 1 {
        assert(changed.drop_last() =~= picks.drop_last());
    } else {
        one_changed(picks.drop_last(), j, pick, at);
        assert(changed.drop_last() =~= picks.drop_last().update(j, pick));
    }
}

fn used(picks: &Vec<usize>, at: usize) -> (n: u64)
    ensures
        n == chosen(ints(picks@), at as int),
{
    let mut n: u64 = 0;
    let mut i: usize = 0;
    let ghost all = ints(picks@);
    proof {
        assert(all.take(0) =~= Seq::<int>::empty());
    }
    while i < picks.len()
        invariant
            i <= picks@.len(),
            all == ints(picks@),
            n <= i,
            n == chosen(all.take(i as int), at as int),
        decreases picks@.len() - i,
    {
        let count: usize = picks.len();
        proof {
            assert(all.take(i + 1) =~= all.take(i as int).push(all[i as int]));
            one_more(all.take(i as int), all[i as int], at as int);
        }
        if picks[i] == at {
            n += 1;
        }
        i += 1;
    }
    proof {
        assert(all.take(i as int) =~= all);
    }
    n
}

fn place_of(list: &Vec<usize>, at: usize) -> (r: Option<usize>)
    ensures
        match r {
            Some(p) => p < list@.len() && list@[p as int] == at && forall|q: int|
                0 <= q < p ==> list@[q] != at,
            None => !ints(list@).contains(at as int),
        },
{
    let mut i: usize = 0;
    while i < list.len()
        invariant
            i <= list@.len(),
            forall|q: int| 0 <= q < i ==> list@[q] != at,
        decreases list@.len() - i,
    {
        if list[i] == at {
            return Some(i);
        }
        i += 1;
    }
    proof {
        if ints(list@).contains(at as int) {
            let q = ints(list@).index_of(at as int);
            assert(list@[q] == at);
        }
    }
    None
}

/// Whether a kind is among the first `n` that were reached.
spec fn before(reached: Seq<int>, n: int, at: int) -> bool {
    exists|p: int| 0 <= p < n && reached[p] == at
}

/// Whether each of the first `n` kinds that were reached is one its ingredient takes, and that
/// ingredient is the new one or has a kind that was reached before.
spec fn in_a_row(
    known: Known,
    wanted: Seq<Allowed>,
    left: Seq<(u32, u64)>,
    picks: Seq<int>,
    reached: Seq<int>,
    via: Seq<int>,
    n: int,
) -> bool {
    forall|q: int|
        0 <= q < n ==> {
            &&& 0 <= #[trigger] reached[q] < left.len()
            &&& 0 <= via[q] <= picks.len()
            &&& known.takes(wanted[via[q]], left[reached[q]].0)
            &&& via[q] < picks.len() ==> before(reached, q, picks[via[q]])
        }
}

/// Whether every kind an ingredient takes was reached.
spec fn all_reached(known: Known, wanted: Allowed, left: Seq<(u32, u64)>, reached: Seq<int>) -> bool {
    forall|at: int|
        0 <= at < left.len() && known.takes(wanted, left[at].0) ==> #[trigger] reached.contains(at)
}

proof fn reaching_further(known: Known, wanted: Allowed, left: Seq<(u32, u64)>, a: Seq<int>, b: Seq<int>)
    requires
        all_reached(known, wanted, left, a),
        a.len() <= b.len(),
        forall|q: int| 0 <= q < a.len() ==> a[q] == b[q],
    ensures
        all_reached(known, wanted, left, b),
{
    assert forall|at: int| 0 <= at < left.len() && known.takes(wanted, left[at].0) implies #[trigger] b.contains(
        at,
    ) by {
        assert(a.contains(at));
        let q = a.index_of(at);
        assert(b[q] == at);
    }
}

/// Reach every kind an ingredient takes that was not reached before.
fn reach(
    known: &Known,
    wanted: &Vec<Allowed>,
    left: &Vec<(u32, u64)>,
    j: usize,
    reached: &mut Vec<usize>,
    via: &mut Vec<usize>,
)
    requires
        j < wanted@.len(),
        old(reached)@.len() == old(via)@.len(),
        old(reached)@.no_duplicates(),
    ensures
        final(reached)@.len() == final(via)@.len(),
        final(reached)@.len() >= old(reached)@.len(),
        final(reached)@.no_duplicates(),
        forall|q: int|
            0 <= q < old(reached)@.len() ==> (#[trigger] final(reached)@[q]) == old(reached)@[q]
                && final(via)@[q] == old(via)@[q],
        forall|q: int|
            old(reached)@.len() <= q < final(reached)@.len() ==> {
                &&& (#[trigger] final(reached)@[q]) < left@.len()
                &&& final(via)@[q] == j
                &&& known.takes(wanted@[j as int], left@[final(reached)@[q] as int].0)
            },
        all_reached(*known, wanted@[j as int], left@, ints(final(reached)@)),
{
    let ghost first = reached@;
    let ghost first_via = via@;
    let mut at: usize = 0;
    while at < left.len()
        invariant
            at <= left@.len(),
            j < wanted@.len(),
            reached@.len() == via@.len(),
            reached@.len() >= first.len(),
            first.len() == first_via.len(),
            reached@.no_duplicates(),
            forall|q: int|
                0 <= q < first.len() ==> (#[trigger] reached@[q]) == first[q] && via@[q]
                    == first_via[q],
            forall|q: int|
                first.len() <= q < reached@.len() ==> {
                    &&& (#[trigger] reached@[q]) < left@.len()
                    &&& via@[q] == j
                    &&& known.takes(wanted@[j as int], left@[reached@[q] as int].0)
                },
            forall|k: int|
                0 <= k < at && known.takes(wanted@[j as int], left@[k].0)
                    ==> #[trigger] ints(reached@).contains(k),
        decreases left@.len() - at,
    {
        let ghost was = reached@;
        if known.accepts(&wanted[j], left[at].0) && place_of(reached, at).is_none() {
            proof {
                assert forall|q: int| 0 <= q < reached@.len() implies reached@[q] != at by {
                    assert(ints(reached@)[q] == reached@[q] as int);
                }
            }
            reached.push(at);
            via.push(j);
            proof {
                assert forall|k: int| ints(was).contains(k) implies #[trigger] ints(
                    reached@,
                ).contains(k) by {
                    let q = ints(was).index_of(k);
                    assert(ints(reached@)[q] == k);
                }
                assert(ints(reached@)[was.len() as int] == at as int);
            }
        } else {
            proof {
                if known.takes(wanted@[j as int], left@[at as int].0) {
                    let q = choose|q: int| 0 <= q < reached@.len() && reached@[q] == at;
                    assert(ints(reached@)[q] == at as int);
                }
            }
        }
        at += 1;
    }
}

/// Hand items over along the row that leads to a kind of which some are left, and give the new
/// ingredient the one that comes free.
fn hand_over(
    known: &Known,
    wanted: &Vec<Allowed>,
    left: &Vec<(u32, u64)>,
    reached: &Vec<usize>,
    via: &Vec<usize>,
    picks: &mut Vec<usize>,
    end: usize,
)
    requires
        old(picks)@.len() < wanted@.len(),
        serves(
            *known,
            wanted@.take(old(picks)@.len() as int),
            left@,
            ints(old(picks)@),
        ),
        reached@.no_duplicates(),
        reached@.len() == via@.len(),
        end < reached@.len(),
        in_a_row(
            *known,
            wanted@,
            left@,
            ints(old(picks)@),
            ints(reached@),
            ints(via@),
            end + 1,
        ),
        chosen(ints(old(picks)@), reached@[end as int] as int) < left@[reached@[end as int] as int].1,
    ensures
        final(picks)@.len() == old(picks)@.len() + 1,
        serves(
            *known,
            wanted@.take(final(picks)@.len() as int),
            left@,
            ints(final(picks)@),
        ),
{
    let new: usize = picks.len();
    let mut q: usize = end;
    while via[q] != new
        invariant
            picks@.len() == new < wanted@.len(),
            serves(*known, wanted@.take(new as int), left@, ints(picks@)),
            reached@.no_duplicates(),
            reached@.len() == via@.len(),
            q < reached@.len(),
            in_a_row(
                *known,
                wanted@,
                left@,
                ints(picks@),
                ints(reached@),
                ints(via@),
                q + 1,
            ),
            chosen(ints(picks@), reached@[q as int] as int) < left@[reached@[q as int] as int].1,
        decreases q,
    {
        let j: usize = via[q];
        let ghost had = ints(picks@);
        let ghost row = ints(reached@);
        proof {
            assert(row[q as int] == reached@[q as int] as int);
            assert(ints(via@)[q as int] == j as int);
            assert(before(row, q as int, had[j as int]));
            let p = choose|p: int| 0 <= p < q && row[p] == had[j as int];
            assert(reached@[p] == picks@[j as int]);
            assert(ints(reached@)[p] == picks@[j as int] as int);
            assert(ints(reached@).contains(picks@[j as int] as int));
        }
        match place_of(reached, picks[j]) {
            Some(p) => {
                picks.set(j, reached[q]);
                proof {
                    let now = ints(picks@);
                    assert(now =~= had.update(j as int, row[q as int]));
                    assert(row[p as int] == had[j as int]);
                    assert(p < q);
                    assert(row[p as int] != row[q as int]) by {
                        assert(reached@[p as int] != reached@[q as int]);
                    }
                    assert forall|at: int| 0 <= at < left@.len() implies #[trigger] chosen(now, at)
                        <= left@[at].1 by {
                        one_changed(had, j as int, row[q as int], at);
                        assert(chosen(had, at) <= left@[at].1);
                    }
                    one_changed(had, j as int, row[q as int], row[p as int]);
                    assert(0 <= had[j as int] < left@.len());
                    assert(chosen(had, had[j as int]) <= left@[had[j as int]].1);
                    assert forall|k: int| 0 <= k < new implies 0 <= #[trigger] now[k] < left@.len()
                        && known.takes(wanted@.take(new as int)[k], left@[now[k]].0) by {
                        assert(0 <= had[k] < left@.len());
                    }
                    assert forall|i: int| 0 <= i < p + 1 implies {
                        &&& 0 <= #[trigger] row[i] < left@.len()
                        &&& 0 <= ints(via@)[i] <= now.len()
                        &&& known.takes(wanted@[ints(via@)[i]], left@[row[i]].0)
                        &&& ints(via@)[i] < now.len() ==> before(row, i, now[ints(via@)[i]])
                    } by {
                        let other = ints(via@)[i];
                        assert(0 <= ints(reached@)[i] < left@.len());
                        if other < new {
                            assert(other < had.len());
                            assert(before(row, i, had[other]));
                            if other == j {
                                let e = choose|e: int| 0 <= e < i && row[e] == had[j as int];
                                assert(reached@[e] == reached@[p as int]);
                            }
                        }
                    }
                }
                q = p;
            },
            None => {
                return;
            },
        }
    }
    let ghost had = ints(picks@);
    picks.push(reached[q]);
    proof {
        let now = ints(picks@);
        let at = reached@[q as int] as int;
        assert(ints(reached@)[q as int] == at);
        assert(ints(via@)[q as int] == new as int);
        assert(now =~= had.push(at));
        assert forall|i: int| 0 <= i < left@.len() implies #[trigger] chosen(now, i) <= left@[i].1 by {
            one_more(had, at, i);
            assert(chosen(had, i) <= left@[i].1);
        }
        assert forall|k: int| 0 <= k < new + 1 implies 0 <= #[trigger] now[k] < left@.len()
            && known.takes(wanted@.take(new + 1)[k], left@[now[k]].0) by {
            if k < new {
                assert(0 <= had[k] < left@.len());
                assert(wanted@.take(new as int)[k] == wanted@[k]);
            }
        }
    }
}

/// How many of some choices are among those of a list.
spec fn inside(picks: Seq<int>, list: Seq<int>) -> int
    decreases picks.len(),
{
    if picks.len() == 0 {
        0
    } else {
        inside(picks.drop_last(), list) + if list.contains(picks.last()) {
            1int
        } else {
            0int
        }
    }
}

/// How many of some choices are the first `n` of a list, all together.
spec fn tally(picks: Seq<int>, list: Seq<int>, n: int) -> int
    decreases n,
{
    if n <= 0 {
        0
    } else {
        tally(picks, list, n - 1) + chosen(picks, list[n - 1])
    }
}

proof fn tally_without_the_last(picks: Seq<int>, list: Seq<int>, n: int)
    requires
        picks.len() > 0,
        list.no_duplicates(),
        0 <= n <= list.len(),
    ensures
        tally(picks, list, n) == tally(picks.drop_last(), list, n) + if before(
            list,
            n,
            picks.last(),
        ) {
            1int
        } else {
            0int
        },
    decreases n,
{
    if n > 0 {
        tally_without_the_last(picks, list, n - 1);
        let last = picks.last();
        if list[n - 1] == last {
            assert(!before(list, n - 1, last));
            assert(before(list, n, last));
        } else if before(list, n, last) {
            let p = choose|p: int| 0 <= p < n && list[p] == last;
            assert(before(list, n - 1, last));
        } else {
            assert(!before(list, n - 1, last));
        }
    }
}

proof fn tally_of_nothing(list: Seq<int>, n: int)
    ensures
        tally(Seq::empty(), list, n) == 0,
    decreases n,
{
    if n > 0 {
        tally_of_nothing(list, n - 1);
    }
}

proof fn a_tally_counts_what_is_inside(picks: Seq<int>, list: Seq<int>)
    requires
        list.no_duplicates(),
    ensures
        tally(picks, list, list.len() as int) == inside(picks, list),
    decreases picks.len(),
{
    let n = list.len() as int;
    if picks.len() == 0 {
        assert(picks =~= Seq::<int>::empty());
        tally_of_nothing(list, n);
    } else {
        a_tally_counts_what_is_inside(picks.drop_last(), list);
        tally_without_the_last(picks, list, n);
        if list.contains(picks.last()) {
            let p = list.index_of(picks.last());
            assert(before(list, n, picks.last()));
        } else if before(list, n, picks.last()) {
            let p = choose|p: int| 0 <= p < n && list[p] == picks.last();
            assert(list.contains(list[p]));
        }
    }
}

proof fn no_greater_tally(a: Seq<int>, b: Seq<int>, list: Seq<int>, n: int)
    requires
        0 <= n <= list.len(),
        forall|q: int| 0 <= q < list.len() ==> chosen(a, #[trigger] list[q]) <= chosen(b, list[q]),
    ensures
        tally(a, list, n) <= tally(b, list, n),
    decreases n,
{
    if n > 0 {
        no_greater_tally(a, b, list, n - 1);
        assert(chosen(a, list[n - 1]) <= chosen(b, list[n - 1]));
    }
}

proof fn inside_together(a: Seq<int>, b: Seq<int>, list: Seq<int>)
    requires
        a.len() == b.len(),
        forall|k: int| 0 <= k < a.len() && list.contains(#[trigger] a[k]) ==> list.contains(b[k]),
    ensures
        inside(a, list) <= inside(b, list),
    decreases a.len(),
{
    if a.len() > 0 {
        let (less_a, less_b) = (a.drop_last(), b.drop_last());
        assert forall|k: int| 0 <= k < less_a.len() && list.contains(#[trigger] less_a[k]) implies list.contains(
            less_b[k],
        ) by {
            assert(list.contains(a[k]));
        }
        inside_together(less_a, less_b, list);
        assert(list.contains(a[a.len() - 1]) ==> list.contains(b[a.len() - 1]));
    }
}

proof fn inside_a_part(picks: Seq<int>, list: Seq<int>, n: int)
    requires
        0 <= n <= picks.len(),
    ensures
        inside(picks.take(n), list) <= inside(picks, list),
    decreases picks.len(),
{
    if n < picks.len() {
        inside_a_part(picks.drop_last(), list, n);
        assert(picks.drop_last().take(n) =~= picks.take(n));
    } else {
        assert(picks.take(n) =~= picks);
    }
}

/// Where everything that was reached is given away, and nothing else is taken by those that have it
/// nor by the new ingredient, no choices serve them all.
proof fn nothing_comes_free(
    known: Known,
    wanted: Seq<Allowed>,
    left: Seq<(u32, u64)>,
    picks: Seq<int>,
    reached: Seq<int>,
    other: Seq<int>,
)
    requires
        picks.len() < wanted.len(),
        reached.no_duplicates(),
        forall|q: int|
            0 <= q < reached.len() ==> 0 <= #[trigger] reached[q] < left.len() && chosen(
                picks,
                reached[q],
            ) >= left[reached[q]].1,
        forall|j: int|
            0 <= j < picks.len() && reached.contains(#[trigger] picks[j]) ==> all_reached(
                known,
                wanted[j],
                left,
                reached,
            ),
        all_reached(known, wanted[picks.len() as int], left, reached),
    ensures
        !serves(known, wanted, left, other),
{
    if serves(known, wanted, left, other) {
        let k = picks.len() as int;
        let part = other.take(k);
        assert forall|j: int| 0 <= j < k && reached.contains(#[trigger] picks[j]) implies reached.contains(
            part[j],
        ) by {
            assert(0 <= other[j] < left.len());
            assert(reached.contains(other[j]));
        }
        inside_together(picks, part, reached);
        assert(0 <= other[k] < left.len());
        assert(reached.contains(other[k]));
        assert(other.take(k + 1).drop_last() =~= part);
        assert(other.take(k + 1).last() == other[k]);
        inside_a_part(other, reached, k + 1);
        assert forall|q: int| 0 <= q < reached.len() implies chosen(other, #[trigger] reached[q])
            <= chosen(picks, reached[q]) by {
            assert(chosen(other, reached[q]) <= left[reached[q]].1);
        }
        no_greater_tally(other, picks, reached, reached.len() as int);
        a_tally_counts_what_is_inside(other, reached);
        a_tally_counts_what_is_inside(picks, reached);
        assert(false);
    }
}

proof fn distinct_fit(list: Seq<int>, n: int)
    requires
        list.no_duplicates(),
        forall|q: int| 0 <= q < list.len() ==> 0 <= #[trigger] list[q] < n,
        0 <= n,
    ensures
        list.len() <= n,
{
    list.unique_seq_to_set();
    lemma_int_range(0, n);
    assert(list.to_set().subset_of(set_int_range(0, n)));
    lemma_len_subset(list.to_set(), set_int_range(0, n));
}

/// Serve one ingredient more, handing items over between those that are served already: whether
/// that could be done.
fn serve(known: &Known, wanted: &Vec<Allowed>, left: &Vec<(u32, u64)>, picks: &mut Vec<usize>) -> (r:
    bool)
    requires
        old(picks)@.len() < wanted@.len(),
        serves(
            *known,
            wanted@.take(old(picks)@.len() as int),
            left@,
            ints(old(picks)@),
        ),
    ensures
        r ==> final(picks)@.len() == old(picks)@.len() + 1 && serves(
            *known,
            wanted@.take(final(picks)@.len() as int),
            left@,
            ints(final(picks)@),
        ),
        !r ==> forall|other: Seq<int>| !serves(*known, wanted@, left@, other),
{
    let new: usize = picks.len();
    let mut reached: Vec<usize> = Vec::new();
    let mut via: Vec<usize> = Vec::new();
    reach(known, wanted, left, new, &mut reached, &mut via);
    let mut head: usize = 0;
    while head < reached.len()
        invariant
            picks@ == old(picks)@,
            picks@.len() == new < wanted@.len(),
            serves(*known, wanted@.take(new as int), left@, ints(picks@)),
            head <= reached@.len() == via@.len(),
            reached@.no_duplicates(),
            in_a_row(
                *known,
                wanted@,
                left@,
                ints(picks@),
                ints(reached@),
                ints(via@),
                reached@.len() as int,
            ),
            all_reached(*known, wanted@[new as int], left@, ints(reached@)),
            forall|q: int|
                0 <= q < head ==> chosen(ints(picks@), #[trigger] reached@[q] as int)
                    >= left@[reached@[q] as int].1,
            forall|q: int, j: int|
                0 <= q < head && 0 <= j < new && #[trigger] reached@[q] == #[trigger] picks@[j]
                    ==> all_reached(*known, wanted@[j], left@, ints(reached@)),
        decreases left@.len() - head,
    {
        let at: usize = reached[head];
        proof {
            distinct_fit(ints(reached@), left@.len() as int);
            assert(ints(reached@)[head as int] == at as int);
        }
        if used(picks, at) < left[at].1 {
            hand_over(known, wanted, left, &reached, &via, picks, head);
            return true;
        }
        let mut j: usize = 0;
        while j < new
            invariant
                j <= new,
                at == reached@[head as int],
                picks@ == old(picks)@,
                picks@.len() == new < wanted@.len(),
                serves(*known, wanted@.take(new as int), left@, ints(picks@)),
                head < reached@.len() == via@.len(),
                reached@.no_duplicates(),
                in_a_row(
                    *known,
                    wanted@,
                    left@,
                    ints(picks@),
                    ints(reached@),
                    ints(via@),
                    reached@.len() as int,
                ),
                all_reached(*known, wanted@[new as int], left@, ints(reached@)),
                forall|q: int|
                    0 <= q <= head ==> chosen(ints(picks@), #[trigger] reached@[q] as int)
                        >= left@[reached@[q] as int].1,
                forall|q: int, i: int|
                    0 <= q < head && 0 <= i < new && #[trigger] reached@[q]
                        == #[trigger] picks@[i] ==> all_reached(
                        *known,
                        wanted@[i],
                        left@,
                        ints(reached@),
                    ),
                forall|i: int|
                    0 <= i < j && at == #[trigger] picks@[i] ==> all_reached(
                        *known,
                        wanted@[i],
                        left@,
                        ints(reached@),
                    ),
            decreases new - j,
        {
            if picks[j] == at {
                let ghost was = ints(reached@);
                let ghost was_via = ints(via@);
                let ghost list = reached@;
                reach(known, wanted, left, j, &mut reached, &mut via);
                proof {
                    let row = ints(reached@);
                    let ways = ints(via@);
                    assert forall|q: int| 0 <= q < was.len() implies #[trigger] row[q] == was[q]
                        && ways[q] == was_via[q] by {
                        assert(reached@[q] == list[q]);
                    }
                    assert forall|q: int| 0 <= q < row.len() implies {
                        &&& 0 <= #[trigger] row[q] < left@.len()
                        &&& 0 <= ways[q] <= new
                        &&& known.takes(wanted@[ways[q]], left@[row[q]].0)
                        &&& ways[q] < new ==> before(row, q, ints(picks@)[ways[q]])
                    } by {
                        if q < was.len() {
                            assert(0 <= was[q] < left@.len());
                            assert(row[q] == was[q] && ways[q] == was_via[q]);
                            if ways[q] < new {
                                assert(was_via[q] < ints(picks@).len());
                                assert(before(was, q, ints(picks@)[ways[q]]));
                                let p = choose|p: int|
                                    0 <= p < q && was[p] == ints(picks@)[ways[q]];
                                assert(row[p] == was[p]);
                            }
                        } else {
                            assert(reached@[q] < left@.len());
                            assert(row[head as int] == at as int);
                            assert(before(row, q, ints(picks@)[j as int]));
                        }
                    }
                    reaching_further(*known, wanted@[new as int], left@, was, row);
                    assert forall|i: int|
                        0 <= i < new && all_reached(*known, wanted@[i], left@, was) implies #[trigger] all_reached(
                        *known,
                        wanted@[i],
                        left@,
                        row,
                    ) by {
                        reaching_further(*known, wanted@[i], left@, was, row);
                    }
                }
            }
            j += 1;
        }
        head += 1;
    }
    proof {
        let row = ints(reached@);
        let held = ints(picks@);
        assert forall|q: int| 0 <= q < row.len() implies 0 <= #[trigger] row[q] < left@.len()
            && chosen(held, row[q]) >= left@[row[q]].1 by {
            assert(row[q] == reached@[q] as int);
        }
        assert forall|j: int| 0 <= j < held.len() && row.contains(#[trigger] held[j]) implies all_reached(
            *known,
            wanted@[j],
            left@,
            row,
        ) by {
            let q = row.index_of(held[j]);
            assert(reached@[q] == picks@[j]);
        }
        assert(row.no_duplicates()) by {
            assert forall|a: int, b: int| 0 <= a < b < row.len() implies row[a] != row[b] by {
                assert(reached@[a] != reached@[b]);
            }
        }
        assert forall|other: Seq<int>| !serves(*known, wanted@, left@, other) by {
            nothing_comes_free(*known, wanted@, left@, held, row, other);
        }
    }
    false
}

/// Whether there are choices that give each ingredient an item of its own.
pub fn can_serve(known: &Known, wanted: &Vec<Allowed>, left: &Vec<(u32, u64)>) -> (r: bool)
    ensures
        r == exists|picks: Seq<int>| serves(*known, wanted@, left@, picks),
{
    let mut picks: Vec<usize> = Vec::new();
    proof {
        assert(serves(*known, wanted@.take(0), left@, ints(picks@)));
    }
    while picks.len() < wanted.len()
        invariant
            picks@.len() <= wanted@.len(),
            serves(*known, wanted@.take(picks@.len() as int), left@, ints(picks@)),
        decreases wanted@.len() - picks@.len(),
    {
        if !serve(known, wanted, left, &mut picks) {
            return false;
        }
    }
    proof {
        assert(wanted@.take(picks@.len() as int) =~= wanted@);
        assert(serves(*known, wanted@, left@, ints(picks@)));
    }
    true
}

/// What can be served can be served with more: nothing that is picked up takes an ingredient's item
/// away.
pub proof fn more_serves_no_fewer(
    known: Known,
    wanted: Seq<Allowed>,
    left: Seq<(u32, u64)>,
    more: Seq<(u32, u64)>,
    picks: Seq<int>,
)
    requires
        serves(known, wanted, left, picks),
        left.len() <= more.len(),
        forall|at: int|
            0 <= at < left.len() ==> (#[trigger] more[at]).0 == left[at].0 && more[at].1 >= left[at].1,
    ensures
        serves(known, wanted, more, picks),
{
    assert forall|at: int| 0 <= at < more.len() implies #[trigger] chosen(picks, at)
        <= more[at].1 by {
        if at < left.len() {
            assert(chosen(picks, at) <= left[at].1);
            assert(more[at].1 >= left[at].1);
        } else {
            never_chosen(picks, left.len() as int, at);
        }
    }
    assert forall|k: int| 0 <= k < wanted.len() implies 0 <= #[trigger] picks[k] < more.len()
        && known.takes(wanted[k], more[picks[k]].0) by {
        assert(0 <= picks[k] < left.len());
        assert(more[picks[k]].0 == left[picks[k]].0);
    }
}

proof fn never_chosen(picks: Seq<int>, n: int, at: int)
    requires
        forall|k: int| 0 <= k < picks.len() ==> #[trigger] picks[k] < n,
        n <= at,
    ensures
        chosen(picks, at) == 0,
    decreases picks.len(),
{
    if picks.len() > 0 {
        assert(picks[picks.len() - 1] < n);
        let less = picks.drop_last();
        assert forall|k: int| 0 <= k < less.len() implies #[trigger] less[k] < n by {
            assert(picks[k] < n);
        }
        never_chosen(less, n, at);
    }
}

} // verus!
