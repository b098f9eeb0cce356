//! Hints attached to instructions, and the dense per-pc index over them.
use crate::name_map::NameMap;
use std::collections::HashMap;
use vstd::prelude::*;
use vstd::std_specs::iter::IteratorSpec;

verus! {

broadcast use vstd::std_specs::hash::group_hash_axioms;

/// Tracking of the allocation pointer: a group and an offset within it.
#[derive(Clone, Copy, Debug, Default, PartialEq, Eq, Structural)]
pub struct ApTracking {
    pub group: usize,
    pub offset: usize,
}

/// Flow-tracking data of a hint: allocation-pointer tracking and reference ids by name.
#[derive(Clone, Debug, PartialEq, Eq)]
pub struct FlowTrackingData {
    pub ap_tracking: ApTracking,
    pub reference_ids: NameMap<usize>,
}

/// A hint as the compiler emits it: its source text, the scopes it may access, and its
/// flow-tracking data. Stored as given.
#[derive(Clone, Debug, PartialEq, Eq)]
pub struct HintParams {
    pub code: String,
    pub accessible_scopes: Vec<String>,
    pub flow_tracking_data: FlowTrackingData,
}

/// The per-pc hint lists of a mapping, as sequences.
pub open spec fn hint_lists<T>(m: Map<usize, Vec<T>>) -> Map<usize, Seq<T>> {
    m.map_values(|v: Vec<T>| v@)
}

/// Each present range is non-empty and lies within the dense array.
pub open spec fn ranges_in_bounds(n: nat, ranges: Seq<Option<(usize, usize)>>) -> bool {
    forall|pc: int|
        0 <= pc < ranges.len() && #[trigger] ranges[pc] is Some ==> {
            let (s, l) = ranges[pc]->0;
            &&& l > 0
            &&& s + l <= n
        }
}

/// No two present ranges overlap.
pub open spec fn ranges_disjoint(ranges: Seq<Option<(usize, usize)>>) -> bool {
    forall|p: int, q: int|
        0 <= p < ranges.len() && 0 <= q < ranges.len() && p != q && #[trigger] ranges[p] is Some
            && #[trigger] ranges[q] is Some ==> {
            let (s1, l1) = ranges[p]->0;
            let (s2, l2) = ranges[q]->0;
            s1 + l1 <= s2 || s2 + l2 <= s1
        }
}

/// Range `r` holds position `i`.
pub open spec fn range_holds(r: Option<(usize, usize)>, i: int) -> bool {
    r matches Some((s, l)) && s <= i < s + l
}

/// Some range holds position `i`.
pub open spec fn position_covered(ranges: Seq<Option<(usize, usize)>>, i: int) -> bool {
    exists|pc: int| 0 <= pc < ranges.len() && #[trigger] range_holds(ranges[pc], i)
}

/// Every position of the dense array lies in some range.
pub open spec fn ranges_cover(n: nat, ranges: Seq<Option<(usize, usize)>>) -> bool {
    forall|i: int| 0 <= i < n ==> #[trigger] position_covered(ranges, i)
}

/// The hints that the index gives for `pc`: the slice of the dense array at its range, or
/// nothing.
pub open spec fn hints_at<T>(values: Seq<T>, ranges: Seq<Option<(usize, usize)>>, pc: int) -> Seq<T> {
    if 0 <= pc < ranges.len() && ranges[pc] is Some {
        let (s, l) = ranges[pc]->0;
        values.subrange(s as int, s + l)
    } else {
        Seq::empty()
    }
}

/// `values` and `ranges` are a flattening of the per-pc lists `m`: the index has one slot
/// per pc up to the largest pc of `m`, a pc has a range exactly when it has a non-empty
/// list, the slice at its range is that list, and the ranges split the dense array.
pub open spec fn is_flattening<T>(
    m: Map<usize, Seq<T>>,
    values: Seq<T>,
    ranges: Seq<Option<(usize, usize)>>,
) -> bool {
    &&& ranges_in_bounds(values.len(), ranges)
    &&& ranges_disjoint(ranges)
    &&& ranges_cover(values.len(), ranges)
    &&& forall|pc: usize| #[trigger] m.contains_key(pc) ==> pc < ranges.len()
    &&& ranges.len() > 0 ==> m.contains_key((ranges.len() - 1) as usize)
    &&& forall|pc: int|
        0 <= pc < ranges.len() ==> (#[trigger] ranges[pc] is Some <==> (m.contains_key(pc as usize)
            && m[pc as usize].len() > 0))
    &&& forall|pc: int|
        0 <= pc < ranges.len() && #[trigger] ranges[pc] is Some ==> hints_at(values, ranges, pc)
            == m[pc as usize]
}

/// The per-pc lists that a dense array and its index give back: each pc with a range,
/// mapped to the slice at that range.
pub open spec fn hints_by_pc<T>(values: Seq<T>, ranges: Seq<Option<(usize, usize)>>) -> Map<
    usize,
    Seq<T>,
> {
    Map::new(
        |pc: usize| pc < ranges.len() && ranges[pc as int] is Some,
        |pc: usize| hints_at(values, ranges, pc as int),
    )
}

/// The lists of a mapping that are not empty.
pub open spec fn non_empty_lists<T>(m: Map<usize, Seq<T>>) -> Map<usize, Seq<T>> {
    m.restrict(m.dom().filter(|pc: usize| m[pc].len() > 0))
}

/// Slicing a flattening at each range gives back every non-empty list of the mapping,
/// with its contents in order, and nothing else: a pc that the mapping lacks, or maps
/// to an empty list, has no range.
pub proof fn lemma_flattening_round_trip<T>(
    m: Map<usize, Seq<T>>,
    values: Seq<T>,
    ranges: Seq<Option<(usize, usize)>>,
)
    requires
        is_flattening(m, values, ranges),
    ensures
        hints_by_pc(values, ranges) == non_empty_lists(m),
        forall|pc: usize| #[trigger]
            m.contains_key(pc) && m[pc].len() > 0 ==> hints_at(values, ranges, pc as int) == m[pc],
        forall|pc: int|
            0 <= pc < ranges.len() && (!m.contains_key(pc as usize) || m[pc as usize].len() == 0)
                ==> #[trigger] ranges[pc] is None,
{
    assert forall|pc: usize| #[trigger]
        m.contains_key(pc) && m[pc].len() > 0 implies hints_at(values, ranges, pc as int)
        == m[pc] by {
        assert(pc < ranges.len());
        assert(ranges[pc as int] is Some);
    }
    let a = hints_by_pc(values, ranges);
    let b = non_empty_lists(m);
    assert forall|pc: usize| #[trigger] a.contains_key(pc) <==> b.contains_key(pc) by {
        if m.contains_key(pc) {
            assert(pc < ranges.len());
        }
        if a.contains_key(pc) {
            assert(ranges[pc as int] is Some);
        }
    }
    assert forall|pc: usize| #[trigger] a.contains_key(pc) implies a[pc] == b[pc] by {
        assert(ranges[pc as int] is Some);
    }
    assert(a =~= b);
}

/// The program counters that have hints, each once.
fn hint_pcs(hints: &HashMap<usize, Vec<HintParams>>) -> (r: Vec<usize>)
    ensures
        r@.no_duplicates(),
        r@.to_set() == hints@.dom(),
{
    let mut pcs: Vec<usize> = Vec::new();
    let ghost all = vstd::std_specs::hash::spec_keys_iter(hints).remaining().unref();
    for pc in it: hints.keys()
        invariant
            all == it.seq().unref(),
            pcs@ == all.take(it.index() as int),
    {
        proof {
            assert(all.take(it.index() as int + 1) =~= all.take(it.index() as int).push(*pc));
        }
        pcs.push(*pc);
    }
    proof {
        assert(pcs@ =~= all);
    }
    pcs
}

/// The largest entry of a non-empty sequence of program counters.
fn max_pc(pcs: &Vec<usize>) -> (r: usize)
    requires
        pcs@.len() > 0,
    ensures
        pcs@.contains(r),
        forall|j: int| 0 <= j < pcs@.len() ==> pcs@[j] <= r,
{
    let mut m: usize = pcs[0];
    let mut i: usize = 1;
    while i < pcs.len()
        invariant
            1 <= i <= pcs@.len(),
            pcs@.contains(m),
            forall|j: int| 0 <= j < i ==> pcs@[j] <= m,
        decreases pcs@.len() - i,
    {
        if pcs[i] > m {
            m = pcs[i];
        }
        i = i + 1;
    }
    m
}

/// Turns per-pc hint lists into one dense array and an index with a slot per pc, from 0 to
/// the largest pc with hints. The slot of a pc holds the (start, length) range of its
/// hints in the dense array, or `None` where it has none. The lists are laid out in the
/// order in which the map hands out its keys; each list stays contiguous and in order.
pub fn flatten_hints(hints: HashMap<usize, Vec<HintParams>>) -> (r: (
    Vec<HintParams>,
    Vec<Option<(usize, usize)>>,
))
    requires
        forall|pc: usize| #[trigger] hints@.contains_key(pc) ==> pc < usize::MAX,
    ensures
        is_flattening(hint_lists(hints@), r.0@, r.1@),
        hints@.is_empty() ==> r.0@.len() == 0 && r.1@.len() == 0,
{
    let ghost m = hint_lists(hints@);
    let pcs = hint_pcs(&hints);
    proof {
        assert forall|k: usize| #[trigger] hints@.contains_key(k) <==> pcs@.contains(k) by {
            assert(pcs@.to_set().contains(k) <==> pcs@.contains(k));
        }
    }
    if pcs.len() == 0 {
        proof {
            assert(hints@.dom() =~= Set::empty());
        }
        return (Vec::new(), Vec::new());
    }
    let top = max_pc(&pcs);
    assert(hints@.contains_key(top));
    let mut ranges: Vec<Option<(usize, usize)>> = Vec::new();
    while ranges.len() <= top
        invariant
            ranges@.len() <= top + 1,
            top < usize::MAX,
            forall|pc: int| 0 <= pc < ranges@.len() ==> #[trigger] ranges@[pc] is None,
        decreases top + 1 - ranges@.len(),
    {
        ranges.push(None);
    }
    let mut values: Vec<HintParams> = Vec::new();
    let mut rest = hints;
    let mut i: usize = 0;
    while i < pcs.len()
        invariant
            i <= pcs@.len(),
            pcs@.no_duplicates(),
            forall|k: usize| #[trigger] m.contains_key(k) <==> pcs@.contains(k),
            forall|j: int| 0 <= j < pcs@.len() ==> pcs@[j] <= top,
            m.contains_key(top),
            ranges@.len() == top + 1,
            m == hint_lists(hints@),
            forall|k: usize| #[trigger]
                rest@.contains_key(k) <==> (m.contains_key(k) && !pcs@.take(i as int).contains(k)),
            forall|k: usize| #[trigger] rest@.contains_key(k) ==> rest@[k]@ == m[k],
            ranges_in_bounds(values@.len(), ranges@),
            ranges_disjoint(ranges@),
            ranges_cover(values@.len(), ranges@),
            forall|pc: int|
                0 <= pc < ranges@.len() ==> (#[trigger] ranges@[pc] is Some <==> (pcs@.take(
                    i as int,
                ).contains(pc as usize) && m[pc as usize].len() > 0)),
            forall|pc: int|
                0 <= pc < ranges@.len() && #[trigger] ranges@[pc] is Some ==> hints_at(
                    values@,
                    ranges@,
                    pc,
                ) == m[pc as usize],
        decreases pcs@.len() - i,
    {
        let pc = pcs[i];
        proof {
            assert(pcs@.take(i as int + 1) =~= pcs@.take(i as int).push(pc));
            assert(!pcs@.take(i as int).contains(pc)) by {
                if pcs@.take(i as int).contains(pc) {
                    let j = choose|j: int| 0 <= j < i && pcs@.take(i as int)[j] == pc;
                    assert(pcs@[j] == pcs@[i as int]);
                }
            }
            assert(m.contains_key(pc)) by {
                assert(pcs@[i as int] == pc);
            }
            assert(rest@.contains_key(pc));
        }
        let ghost old_values = values@;
        let ghost old_ranges = ranges@;
        let ghost old_rest = rest@;
        let entry = rest.remove(&pc);
        if let Some(mut hs) = entry {
            assert(hs@ == m[pc]);
            if hs.len() > 0 {
                let start = values.len();
                let len = hs.len();
                assert(old_ranges[pc as int] is None);
                ranges.set(pc, Some((start, len)));
                values.append(&mut hs);
                proof {
                    let nv = values@;
                    let nr = ranges@;
                    assert(nv.subrange(start as int, start + len) =~= m[pc]);
                    assert forall|q: int|
                        0 <= q < nr.len() && q != pc && #[trigger] nr[q] is Some implies hints_at(
                        nv,
                        nr,
                        q,
                    ) == m[q as usize] by {
                        assert(old_ranges[q] is Some);
                        let (s, l) = old_ranges[q]->0;
                        assert(nv.subrange(s as int, s + l) =~= old_values.subrange(
                            s as int,
                            s + l,
                        ));
                        assert(hints_at(old_values, old_ranges, q) == m[q as usize]);
                    }
                    assert(hints_at(nv, nr, pc as int) == m[pc]);
                    assert forall|x: int| 0 <= x < nv.len() implies #[trigger] position_covered(
                        nr,
                        x,
                    ) by {
                        if x < old_values.len() {
                            assert(position_covered(old_ranges, x));
                            let q = choose|q: int|
                                0 <= q < old_ranges.len() && #[trigger] range_holds(
                                    old_ranges[q],
                                    x,
                                );
                            assert(q != pc);
                            assert(range_holds(nr[q], x));
                        } else {
                            assert(range_holds(nr[pc as int], x));
                        }
                    }
                    assert forall|p: int, q: int|
                        0 <= p < nr.len() && 0 <= q < nr.len() && p != q && #[trigger] nr[p] is Some
                            && #[trigger] nr[q] is Some implies {
                        let (s1, l1) = nr[p]->0;
                        let (s2, l2) = nr[q]->0;
                        s1 + l1 <= s2 || s2 + l2 <= s1
                    } by {
                        if p != pc && q != pc {
                            assert(old_ranges[p] is Some && old_ranges[q] is Some);
                        } else if p == pc {
                            assert(old_ranges[q] is Some);
                        } else {
                            assert(old_ranges[p] is Some);
                        }
                    }
                    assert forall|q: int|
                        0 <= q < nr.len() implies (#[trigger] nr[q] is Some <==> (pcs@.take(
                        i as int + 1,
                    ).contains(q as usize) && m[q as usize].len() > 0)) by {
                        if q != pc {
                            assert(pcs@.take(i as int + 1).contains(q as usize) <==> pcs@.take(
                                i as int,
                            ).contains(q as usize));
                        } else {
                            assert(pcs@.take(i as int + 1)[i as int] == pc);
                        }
                    }
                }
            } else {
                proof {
                    assert forall|q: int|
                        0 <= q < ranges@.len() implies (#[trigger] ranges@[q] is Some <==> (
                        pcs@.take(i as int + 1).contains(q as usize) && m[q as usize].len() > 0)) by {
                        if q != pc {
                            assert(pcs@.take(i as int + 1).contains(q as usize) <==> pcs@.take(
                                i as int,
                            ).contains(q as usize));
                        }
                    }
                }
            }
        }
        proof {
            assert forall|k: usize| #[trigger]
                rest@.contains_key(k) <==> (m.contains_key(k) && !pcs@.take(
                    i as int + 1,
                ).contains(k)) by {
                assert(pcs@.take(i as int + 1).contains(k) <==> (pcs@.take(i as int).contains(k)
                    || k == pc));
            }
        }
        i = i + 1;
    }
    proof {
        assert(pcs@.take(i as int) =~= pcs@);
        assert forall|pc: usize| #[trigger] m.contains_key(pc) implies pc < ranges@.len() by {
            let j = choose|j: int| 0 <= j < pcs@.len() && pcs@[j] == pc;
        }
    }
    (values, ranges)
}

} // verus!
