//! Allocation of 16-bit client-side entity ids for 32-bit server-side ids.
//!
//! Free client ids are kept as a list of inclusive ranges. Allocation takes
//! the lowest id of the smallest range (to limit fragmentation); freeing an
//! id puts it back and joins adjacent ranges again.
use vstd::prelude::*;
use bimap::BiHashMap;

verus! {

broadcast use vstd::seq_lib::group_to_multiset_ensures;

#[verifier::external_type_specification]
#[verifier::external_body]
#[verifier::reject_recursive_types(L)]
#[verifier::reject_recursive_types(R)]
#[verifier::reject_recursive_types(LS)]
#[verifier::reject_recursive_types(RS)]
pub struct ExBiHashMap<L, R, LS, RS>(BiHashMap<L, R, LS, RS>);

/// Server-side entity id (left) to client-side id (right).
pub type ClientIdMap = BiHashMap<u32, u16>;

/// The left-to-right pairs held by a bimap of server ids to client ids.
pub uninterp spec fn bimap_pairs(m: ClientIdMap) -> Map<u32, u16>;

/// What `BiHashMap::insert(left, right)` leaves: the pair holding `left` and
/// the pair holding `right` are removed, then `(left, right)` is added.
pub open spec fn map_insert_pair(m: Map<u32, u16>, left: u32, right: u16) -> Map<u32, u16> {
    Map::new(
        |k: u32| k == left || (m.contains_key(k) && m[k] != right),
        |k: u32| if k == left { right } else { m[k] },
    )
}

/// `bimap::BiHashMap::new`: the new bimap holds no pairs.
#[verifier::external_body]
fn bimap_new() -> (res: ClientIdMap)
    ensures
        forall|k: u32| !(#[trigger] bimap_pairs(res).contains_key(k)),
{
    BiHashMap::new()
}

/// `bimap::BiHashMap::insert`: removes the pairs that hold `left` or `right`,
/// then adds `(left, right)`. What it returns about the overwritten pairs is
/// dropped here.
#[verifier::external_body]
fn bimap_insert(m: &mut ClientIdMap, left: u32, right: u16)
    ensures
        bimap_pairs(*final(m)) == map_insert_pair(bimap_pairs(*old(m)), left, right),
{
    let _ = m.insert(left, right);
}

/// `bimap::BiHashMap::remove_by_left`: removes the pair holding `left` and
/// returns it, or returns `None` and leaves the bimap as it was.
#[verifier::external_body]
fn bimap_remove_by_left(m: &mut ClientIdMap, left: u32) -> (res: Option<(u32, u16)>)
    ensures
        bimap_pairs(*final(m)) == bimap_pairs(*old(m)).remove(left),
        res == (if bimap_pairs(*old(m)).contains_key(left) {
            Some((left, bimap_pairs(*old(m))[left]))
        } else {
            None
        }),
{
    m.remove_by_left(&left)
}

/// `bimap::BiHashMap::get_by_left`: the right value paired with `left`.
#[verifier::external_body]
fn bimap_get_by_left(m: &ClientIdMap, left: u32) -> (res: Option<u16>)
    ensures
        res == (if bimap_pairs(*m).contains_key(left) {
            Some(bimap_pairs(*m)[left])
        } else {
            None
        }),
{
    m.get_by_left(&left).copied()
}

/// The ranges are ordered by their start.
pub open spec fn sorted_by_start(s: Seq<(u16, u16)>) -> bool {
    forall|i: int, j: int| 0 <= i < j < s.len() ==> s[i].0 <= s[j].0
}

/// Keeps the ranges that start at `k`.
pub open spec fn starting_at(k: u16) -> spec_fn((u16, u16)) -> bool {
    |r: (u16, u16)| r.0 == k
}

/// `p` holds the ranges of `s` with the same start in the same order as
/// `s` does (what a stable sort by start keeps).
pub open spec fn stable_by_start(p: Seq<(u16, u16)>, s: Seq<(u16, u16)>) -> bool {
    forall|k: u16| #[trigger] p.filter(starting_at(k)) == s.filter(starting_at(k))
}

/// `slice::sort_by_key` on the range start: a stable sort, so the result is
/// a reordering of the input that is ordered by start, and ranges with the
/// same start keep their order.
#[verifier::external_body]
fn sort_ranges_by_start(v: &mut Vec<(u16, u16)>)
    ensures
        final(v)@.to_multiset() == old(v)@.to_multiset(),
        final(v)@.len() == old(v)@.len(),
        sorted_by_start(final(v)@),
        stable_by_start(final(v)@, old(v)@),
{
    v.sort_by_key(|r| r.0);
}

/// Bookkeeping of the entity ids known to the client.
pub struct EntityState {
    /// 32-bit server-side id <-> 16-bit client-side id
    pub entity_id_map: ClientIdMap,
    /// free client ids as inclusive ranges; 0 is the player, 1 is never used
    pub c_alloc_id_ranges: Vec<(u16, u16)>,
    /// entities whose position is sent on the next tick
    pub entities_update_scheduled: Vec<u32>,
    /// entities whose appearance is re-checked on the next tick
    pub appearance_update_scheduled: Vec<u32>,
}

/// Number of ids in a range beyond its first.
pub open spec fn range_size(r: (u16, u16)) -> int {
    r.1 - r.0
}

/// Every range has its start at or below its end.
pub open spec fn ranges_valid(s: Seq<(u16, u16)>) -> bool {
    forall|i: int| 0 <= i < s.len() ==> (#[trigger] s[i]).0 <= s[i].1
}

/// Canonical form of the free list: valid ranges, ordered, with a gap of at
/// least one used id between neighbours.
pub open spec fn ranges_wf(s: Seq<(u16, u16)>) -> bool {
    &&& ranges_valid(s)
    &&& forall|i: int, j: int| 0 <= i < j < s.len() ==> s[i].1 + 1 < s[j].0
}

/// `id` lies in one of the ranges.
pub open spec fn is_free(s: Seq<(u16, u16)>, id: int) -> bool {
    exists|i: int| 0 <= i < s.len() && (#[trigger] s[i]).0 <= id <= s[i].1
}

/// Index of the first range of smallest size.
pub open spec fn first_min_index(s: Seq<(u16, u16)>) -> int
    decreases s.len(),
{
    if s.len() <= 1 {
        0
    } else {
        let k = first_min_index(s.drop_last());
        if range_size(s.last()) < range_size(s[k]) {
            s.len() - 1
        } else {
            k
        }
    }
}

/// `i` is the first index of a range of smallest size.
pub open spec fn is_first_min(s: Seq<(u16, u16)>, i: int) -> bool {
    &&& 0 <= i < s.len()
    &&& forall|j: int| 0 <= j < s.len() ==> range_size(s[i]) <= range_size(#[trigger] s[j])
    &&& forall|j: int| 0 <= j < i ==> range_size(#[trigger] s[j]) > range_size(s[i])
}

/// The free list after the lowest id of range `i` is handed out.
pub open spec fn ranges_after_alloc(s: Seq<(u16, u16)>, i: int) -> Seq<(u16, u16)> {
    if s[i].0 == s[i].1 {
        s.remove(i)
    } else {
        s.update(i, ((s[i].0 + 1) as u16, s[i].1))
    }
}

proof fn lemma_first_min_index(s: Seq<(u16, u16)>)
    requires
        s.len() > 0,
    ensures
        is_first_min(s, first_min_index(s)),
    decreases s.len(),
{
    if s.len() > 1 {
        lemma_first_min_index(s.drop_last());
        let k = first_min_index(s.drop_last());
        assert forall|j: int| 0 <= j < s.len() - 1 implies #[trigger] s[j] == s.drop_last()[j] by {}
    }
}

/// Hands out a client id for `serverside_id`: the lowest id of the first
/// smallest free range, and records the pair.
pub fn allocate_id(serverside_id: u32, entity_state: &mut EntityState) -> (r: u16)
    requires
        old(entity_state).c_alloc_id_ranges@.len() > 0,
        ranges_valid(old(entity_state).c_alloc_id_ranges@),
    ensures
        ({
            let s = old(entity_state).c_alloc_id_ranges@;
            let i = first_min_index(s);
            &&& is_first_min(s, i)
            &&& r == s[i].0
            &&& final(entity_state).c_alloc_id_ranges@ == ranges_after_alloc(s, i)
        }),
        bimap_pairs(final(entity_state).entity_id_map) == map_insert_pair(
            bimap_pairs(old(entity_state).entity_id_map),
            serverside_id,
            r,
        ),
        final(entity_state).entities_update_scheduled@
            == old(entity_state).entities_update_scheduled@,
        final(entity_state).appearance_update_scheduled@
            == old(entity_state).appearance_update_scheduled@,
        ranges_wf(old(entity_state).c_alloc_id_ranges@) ==> ranges_wf(
            final(entity_state).c_alloc_id_ranges@,
        ),
        old(entity_state).wf() && !bimap_pairs(old(entity_state).entity_id_map).contains_key(
            serverside_id,
        ) ==> final(entity_state).wf(),
{
    let ghost s = entity_state.c_alloc_id_ranges@;
    let ghost m = bimap_pairs(entity_state.entity_id_map);
    proof {
        if ranges_wf(s) && ids_partitioned(m, s) && !m.contains_key(serverside_id) {
            law_allocate_keeps_partition(m, s, serverside_id);
        }
    }
    // pick the smallest range
    let n = entity_state.c_alloc_id_ranges.len();
    let mut best: usize = 0;
    let mut idx: usize = 1;
    while idx < n
        invariant
            s == entity_state.c_alloc_id_ranges@,
            n == s.len(),
            ranges_valid(s),
            1 <= idx <= n,
            best == first_min_index(s.subrange(0, idx as int)),
            best < idx,
        decreases n - idx,
    {
        let ghost pre = s.subrange(0, idx as int);
        let ghost nxt = s.subrange(0, idx + 1);
        assert(nxt.drop_last() =~= pre);
        assert(nxt[best as int] == s[best as int]);
        let cand = entity_state.c_alloc_id_ranges[idx];
        let cur = entity_state.c_alloc_id_ranges[best];
        if cand.1 - cand.0 < cur.1 - cur.0 {
            best = idx;
        }
        idx = idx + 1;
    }
    assert(s.subrange(0, n as int) =~= s);
    proof {
        lemma_first_min_index(s);
    }
    let (start, end) = entity_state.c_alloc_id_ranges[best];
    let clientside_id: u16 = start;
    if start == end {
        entity_state.c_alloc_id_ranges.remove(best);
    } else {
        entity_state.c_alloc_id_ranges.set(best, (start + 1, end));
    }
    bimap_insert(&mut entity_state.entity_id_map, serverside_id, clientside_id);
    proof {
        let t = entity_state.c_alloc_id_ranges@;
        if ranges_wf(s) {
            assert forall|a: int, b: int| 0 <= a < b < t.len() implies t[a].1 + 1 < t[b].0 by {
                if start == end {
                    let a2 = if a < best { a } else { a + 1 };
                    let b2 = if b < best { b } else { b + 1 };
                    assert(t[a] == s[a2]);
                    assert(t[b] == s[b2]);
                } else {
                    assert(s[a].1 + 1 < s[b].0);
                }
            }
        }
    }
    clientside_id
}


/// Joins adjacent ranges while walking an ordered list; `acc` holds the
/// ranges emitted so far, `rest` those still to come.
pub open spec fn merge_from(acc: Seq<(u16, u16)>, rest: Seq<(u16, u16)>) -> Seq<(u16, u16)>
    decreases rest.len(),
{
    if rest.len() == 0 || acc.len() == 0 {
        acc + rest
    } else {
        let p = acc.last();
        let r = rest[0];
        if r.0 == p.1 + 1 {
            merge_from(acc.drop_last().push((p.0, r.1)), rest.drop_first())
        } else {
            merge_from(acc.push(r), rest.drop_first())
        }
    }
}

/// An ordered range list with each range that starts right after the
/// previous one's end joined into it.
pub open spec fn merge_adjacent(s: Seq<(u16, u16)>) -> Seq<(u16, u16)> {
    if s.len() == 0 {
        s
    } else {
        merge_from(seq![s[0]], s.drop_first())
    }
}

/// A range ending at the highest id occurs once, and every other range
/// starts below it; so after ordering it comes last and the joining walk
/// never has to step past the highest id.
pub open spec fn max_end_unique(s: Seq<(u16, u16)>) -> bool {
    forall|a: (u16, u16)|
        #![trigger s.contains(a)]
        s.contains(a) && a.1 == 65535 ==> {
            &&& s.to_multiset().count(a) == 1
            &&& forall|b: (u16, u16)| #[trigger] s.contains(b) && b != a ==> b.0 < a.0
        }
}

proof fn lemma_max_end_last(p: Seq<(u16, u16)>, j: int, i: int)
    requires
        sorted_by_start(p),
        max_end_unique(p),
        0 <= j < i < p.len(),
    ensures
        p[j].1 < 65535,
{
    broadcast use vstd::multiset::group_multiset_axioms;

    if p[j].1 == 65535 {
        let a = p[j];
        assert(p.contains(a));
        assert(p.contains(p[i]));
        if p[i] == a {
            let q = p.remove(j);
            assert(q[i - 1] == a);
            assert(q.contains(a));
            assert(q.to_multiset() =~= p.to_multiset().remove(a));
            assert(q.to_multiset().count(a) > 0);
            assert(p.to_multiset().count(a) == 1);
            assert(false);
        } else {
            assert(p[i].0 < a.0);
            assert(p[j].0 <= p[i].0);
        }
    }
}

/// Reorders the free ranges by start (ranges with the same start keep their
/// order) and joins each range that starts right after its predecessor's
/// end.
pub fn defrag_ranges(entity_state: &mut EntityState)
    requires
        old(entity_state).c_alloc_id_ranges@.len() > 0,
        max_end_unique(old(entity_state).c_alloc_id_ranges@),
    ensures
        exists|p: Seq<(u16, u16)>|
            {
                &&& p.to_multiset() == old(entity_state).c_alloc_id_ranges@.to_multiset()
                &&& p.len() == old(entity_state).c_alloc_id_ranges@.len()
                &&& sorted_by_start(p)
                &&& stable_by_start(p, old(entity_state).c_alloc_id_ranges@)
                &&& final(entity_state).c_alloc_id_ranges@ == merge_adjacent(p)
            },
        bimap_pairs(final(entity_state).entity_id_map) == bimap_pairs(
            old(entity_state).entity_id_map,
        ),
        final(entity_state).entities_update_scheduled@
            == old(entity_state).entities_update_scheduled@,
        final(entity_state).appearance_update_scheduled@
            == old(entity_state).appearance_update_scheduled@,
{
    let ghost s0 = entity_state.c_alloc_id_ranges@;
    sort_ranges_by_start(&mut entity_state.c_alloc_id_ranges);
    let ghost p = entity_state.c_alloc_id_ranges@;
    proof {
        assert forall|a: (u16, u16)| #![trigger p.contains(a)] p.contains(a) <==> s0.contains(a) by {
            assert(p.contains(a) <==> p.to_multiset().count(a) > 0);
            assert(s0.contains(a) <==> s0.to_multiset().count(a) > 0);
        }
    }
    let n = entity_state.c_alloc_id_ranges.len();
    let mut out: Vec<(u16, u16)> = Vec::new();
    out.push(entity_state.c_alloc_id_ranges[0]);
    assert(out@ =~= seq![p[0]]);
    assert(p.drop_first() =~= p.subrange(1, n as int));
    let mut i: usize = 1;
    assert(out@.last().1 == p[0].1);
    while i < n
        invariant
            p == entity_state.c_alloc_id_ranges@,
            n == p.len(),
            sorted_by_start(p),
            max_end_unique(p),
            1 <= i <= n,
            out@.len() >= 1,
            merge_from(out@, p.subrange(i as int, n as int)) == merge_adjacent(p),
            exists|j: int| 0 <= j < i && out@.last().1 == #[trigger] p[j].1,
        decreases n - i,
    {
        let r = entity_state.c_alloc_id_ranges[i];
        let k = out.len() - 1;
        let last = out[k];
        proof {
            let j = choose|j: int| 0 <= j < i && out@.last().1 == #[trigger] p[j].1;
            lemma_max_end_last(p, j, i as int);
        }
        let ghost rest = p.subrange(i as int, n as int);
        assert(rest.drop_first() =~= p.subrange(i + 1, n as int));
        assert(rest[0] == r);
        let ghost before = out@;
        if r.0 == last.1 + 1 {
            out.set(k, (last.0, r.1));
            assert(out@ =~= before.drop_last().push((last.0, r.1)));
        } else {
            out.push(r);
        }
        assert(out@.last().1 == p[i as int].1);
        i = i + 1;
    }
    assert(p.subrange(n as int, n as int) =~= Seq::<(u16, u16)>::empty());
    assert(out@ + p.subrange(n as int, n as int) =~= out@);
    entity_state.c_alloc_id_ranges = out;
}

/// Keeps the entries of `v` other than `x`, in order.
fn without_id(v: &Vec<u32>, x: u32) -> (r: Vec<u32>)
    ensures
        r@ == v@.filter(|y: u32| y != x),
{
    let mut out: Vec<u32> = Vec::new();
    let mut i: usize = 0;
    while i < v.len()
        invariant
            0 <= i <= v.len(),
            out@ == v@.subrange(0, i as int).filter(|y: u32| y != x),
        decreases v.len() - i,
    {
        proof {
            reveal_with_fuel(Seq::<_>::filter, 1);
            assert(v@.subrange(0, i + 1).drop_last() =~= v@.subrange(0, i as int));
        }
        if v[i] != x {
            out.push(v[i]);
        }
        i = i + 1;
    }
    assert(v@.subrange(0, v.len() as int) =~= v@);
    out
}

/// Forgets `serverside_id`: drops its pair and any scheduled updates for it,
/// and returns its client id to the free ranges.
pub fn free_id(serverside_id: u32, entity_state: &mut EntityState)
    requires
        bimap_pairs(old(entity_state).entity_id_map).contains_key(serverside_id) ==> {
            let c = bimap_pairs(old(entity_state).entity_id_map)[serverside_id];
            max_end_unique(old(entity_state).c_alloc_id_ranges@.push((c, c)))
        },
    ensures
        bimap_pairs(final(entity_state).entity_id_map) == bimap_pairs(
            old(entity_state).entity_id_map,
        ).remove(serverside_id),
        final(entity_state).entities_update_scheduled@
            == old(entity_state).entities_update_scheduled@.filter(|y: u32| y != serverside_id),
        final(entity_state).appearance_update_scheduled@
            == old(entity_state).appearance_update_scheduled@.filter(
            |y: u32| y != serverside_id,
        ),
        bimap_pairs(old(entity_state).entity_id_map).contains_key(serverside_id) ==> {
            let c = bimap_pairs(old(entity_state).entity_id_map)[serverside_id];
            let pushed = old(entity_state).c_alloc_id_ranges@.push((c, c));
            exists|p: Seq<(u16, u16)>|
                {
                    &&& p.to_multiset() == pushed.to_multiset()
                    &&& p.len() == pushed.len()
                    &&& sorted_by_start(p)
                    &&& stable_by_start(p, pushed)
                    &&& final(entity_state).c_alloc_id_ranges@ == merge_adjacent(p)
                }
        },
        !bimap_pairs(old(entity_state).entity_id_map).contains_key(serverside_id)
            ==> final(entity_state).c_alloc_id_ranges@ == old(entity_state).c_alloc_id_ranges@,
        old(entity_state).wf() ==> final(entity_state).wf(),
{
    let ghost m0 = bimap_pairs(entity_state.entity_id_map);
    let ghost s0 = entity_state.c_alloc_id_ranges@;
    proof {
        if old(entity_state).wf() && m0.contains_key(serverside_id) {
            law_free_keeps_partition(m0, s0, serverside_id);
        }
    }
    let id_pair = bimap_remove_by_left(&mut entity_state.entity_id_map, serverside_id);
    // may be scheduled several times
    entity_state.entities_update_scheduled = without_id(
        &entity_state.entities_update_scheduled,
        serverside_id,
    );
    match id_pair {
        Some((_, clientside_id)) => {
            entity_state.c_alloc_id_ranges.push((clientside_id, clientside_id));
            let ghost pushed = entity_state.c_alloc_id_ranges@;
            defrag_ranges(entity_state);
            proof {
                if ids_partitioned(m0, s0) && ranges_wf(s0) {
                    let p = choose|p: Seq<(u16, u16)>|
                        {
                            &&& p.to_multiset() == pushed.to_multiset()
                            &&& p.len() == pushed.len()
                            &&& sorted_by_start(p)
                            &&& stable_by_start(p, pushed)
                            &&& entity_state.c_alloc_id_ranges@ == merge_adjacent(p)
                        };
                    assert(pushed == s0.push((m0[serverside_id], m0[serverside_id])));
                    assert(ranges_wf(merge_adjacent(p)));
                    assert(ids_partitioned(m0.remove(serverside_id), merge_adjacent(p)));
                }
            }
        },
        None => {
            assert(m0.remove(serverside_id) =~= m0);
        },
    }
    // drop any leftover appearance bookkeeping for the freed entity
    entity_state.appearance_update_scheduled = without_id(
        &entity_state.appearance_update_scheduled,
        serverside_id,
    );
}


/// Any two ranges share no id.
pub open spec fn pairwise_disjoint(t: Seq<(u16, u16)>) -> bool {
    forall|a: int, b: int|
        0 <= a < t.len() && 0 <= b < t.len() && a != b ==> t[a].1 < t[b].0 || t[b].1 < t[a].0
}

/// Valid ranges, each one ending before the next one starts.
pub open spec fn chained(s: Seq<(u16, u16)>) -> bool {
    &&& ranges_valid(s)
    &&& forall|j: int, k: int| 0 <= j < k < s.len() ==> s[j].1 < s[k].0
}

proof fn lemma_two_indices_count(t: Seq<(u16, u16)>, a: int, b: int)
    requires
        0 <= a < t.len(),
        0 <= b < t.len(),
        a != b,
        t[a] == t[b],
    ensures
        t.to_multiset().count(t[a]) >= 2,
{
    broadcast use vstd::multiset::group_multiset_axioms;

    let q = t.remove(a);
    let bq = if b < a { b } else { b - 1 };
    assert(q[bq] == t[a]);
    assert(q.contains(t[a]));
    assert(q.to_multiset() =~= t.to_multiset().remove(t[a]));
    assert(q.to_multiset().count(t[a]) > 0);
    assert(t.to_multiset().remove(t[a]).count(t[a]) > 0);
    assert(t.to_multiset().count(t[a]) > 0);
}

proof fn lemma_count_two_indices(t: Seq<(u16, u16)>, v: (u16, u16))
    requires
        t.to_multiset().count(v) >= 2,
    ensures
        exists|a: int, b: int| 0 <= a < t.len() && 0 <= b < t.len() && a != b && t[a] == v && t[b] == v,
{
    broadcast use vstd::multiset::group_multiset_axioms;

    assert(t.contains(v));
    let a = choose|a: int| 0 <= a < t.len() && t[a] == v;
    let q = t.remove(a);
    assert(q.to_multiset() =~= t.to_multiset().remove(v));
    assert(t.to_multiset().remove(v).count(v) == t.to_multiset().count(v) - 1);
    assert(q.to_multiset().count(v) > 0);
    assert(q.contains(v));
    let bq = choose|bq: int| 0 <= bq < q.len() && q[bq] == v;
    let b = if bq < a { bq } else { bq + 1 };
    assert(t[b] == v);
}

/// A reordering of disjoint valid ranges that is ordered by start is chained.
proof fn lemma_sorted_perm_chained(t: Seq<(u16, u16)>, p: Seq<(u16, u16)>)
    requires
        ranges_valid(t),
        pairwise_disjoint(t),
        p.to_multiset() == t.to_multiset(),
        sorted_by_start(p),
    ensures
        chained(p),
{
    assert forall|j: int| 0 <= j < p.len() implies (#[trigger] p[j]).0 <= p[j].1 by {
        assert(p.contains(p[j]));
        assert(p.to_multiset().count(p[j]) > 0);
        assert(t.contains(p[j]));
    }
    assert forall|j: int, k: int| 0 <= j < k < p.len() implies p[j].1 < p[k].0 by {
        if p[j] == p[k] {
            lemma_two_indices_count(p, j, k);
            lemma_count_two_indices(t, p[j]);
        } else {
            assert(p.contains(p[j]));
            assert(p.contains(p[k]));
            assert(p.to_multiset().count(p[j]) > 0);
            assert(p.to_multiset().count(p[k]) > 0);
            assert(t.contains(p[j]));
            assert(t.contains(p[k]));
            let a = choose|a: int| 0 <= a < t.len() && t[a] == p[j];
            let b = choose|b: int| 0 <= b < t.len() && t[b] == p[k];
            assert(a != b);
        }
    }
}

proof fn lemma_free_single(r: (u16, u16), id: int)
    ensures
        is_free(seq![r], id) <==> r.0 <= id <= r.1,
{
    if r.0 <= id <= r.1 {
        assert(seq![r][0] == r);
    }
}

proof fn lemma_free_push(s: Seq<(u16, u16)>, r: (u16, u16), id: int)
    ensures
        is_free(s.push(r), id) <==> is_free(s, id) || r.0 <= id <= r.1,
{
    let t = s.push(r);
    if is_free(t, id) {
        let i = choose|i: int| 0 <= i < t.len() && (#[trigger] t[i]).0 <= id <= t[i].1;
        if i < s.len() {
            assert(s[i] == t[i]);
        }
    }
    if is_free(s, id) {
        let i = choose|i: int| 0 <= i < s.len() && (#[trigger] s[i]).0 <= id <= s[i].1;
        assert(t[i] == s[i]);
    }
    if r.0 <= id <= r.1 {
        assert(t[s.len() as int] == r);
    }
}

proof fn lemma_free_drop_first(s: Seq<(u16, u16)>, id: int)
    requires
        s.len() > 0,
    ensures
        is_free(s, id) <==> (s[0].0 <= id <= s[0].1) || is_free(s.drop_first(), id),
{
    let d = s.drop_first();
    if is_free(s, id) {
        let i = choose|i: int| 0 <= i < s.len() && (#[trigger] s[i]).0 <= id <= s[i].1;
        if i > 0 {
            assert(d[i - 1] == s[i]);
        }
    }
    if is_free(d, id) {
        let i = choose|i: int| 0 <= i < d.len() && (#[trigger] d[i]).0 <= id <= d[i].1;
        assert(s[i + 1] == d[i]);
    }
    if s[0].0 <= id <= s[0].1 {
        assert(s[0] == s[0]);
    }
}

proof fn lemma_free_drop_last(s: Seq<(u16, u16)>, id: int)
    requires
        s.len() > 0,
    ensures
        is_free(s, id) <==> (s.last().0 <= id <= s.last().1) || is_free(s.drop_last(), id),
{
    assert(s =~= s.drop_last().push(s.last()));
    lemma_free_push(s.drop_last(), s.last(), id);
}

/// The joining walk keeps the canonical form and the set of free ids.
proof fn lemma_merge_from(acc: Seq<(u16, u16)>, rest: Seq<(u16, u16)>)
    requires
        ranges_wf(acc),
        acc.len() > 0,
        chained(rest),
        rest.len() > 0 ==> acc.last().1 < rest[0].0,
    ensures
        ranges_wf(merge_from(acc, rest)),
        forall|id: int|
            is_free(merge_from(acc, rest), id) <==> is_free(acc, id) || is_free(rest, id),
    decreases rest.len(),
{
    if rest.len() == 0 {
        assert(acc + rest =~= acc);
        assert forall|id: int| !is_free(rest, id) by {}
    } else {
        let p = acc.last();
        let r = rest[0];
        let tail = rest.drop_first();
        assert forall|j: int, k: int| 0 <= j < k < tail.len() implies tail[j].1 < tail[k].0 by {
            assert(tail[j] == rest[j + 1]);
            assert(tail[k] == rest[k + 1]);
        }
        assert forall|j: int| 0 <= j < tail.len() implies (#[trigger] tail[j]).0 <= tail[j].1 by {
            assert(tail[j] == rest[j + 1]);
        }
        assert(r.0 <= r.1);
        if tail.len() > 0 {
            assert(tail[0] == rest[1]);
            assert(r.1 < rest[1].0);
        }
        if r.0 == p.1 + 1 {
            let acc2 = acc.drop_last().push((p.0, r.1));
            assert forall|i: int| 0 <= i < acc2.len() implies (#[trigger] acc2[i]).0 <= acc2[i].1 by {
                if i < acc.len() - 1 {
                    assert(acc2[i] == acc[i]);
                }
            }
            assert forall|i: int, j: int| 0 <= i < j < acc2.len() implies acc2[i].1 + 1 < acc2[j].0 by {
                assert(acc2[i] == acc[i]);
                if j < acc.len() - 1 {
                    assert(acc2[j] == acc[j]);
                } else {
                    assert(acc[i].1 + 1 < acc[acc.len() - 1].0);
                }
            }
            lemma_merge_from(acc2, tail);
            assert forall|id: int|
                is_free(merge_from(acc, rest), id) <==> is_free(acc, id) || is_free(rest, id) by {
                lemma_free_drop_last(acc2, id);
                assert(acc2.drop_last() =~= acc.drop_last());
                lemma_free_drop_last(acc, id);
                lemma_free_drop_first(rest, id);
            }
        } else {
            let acc2 = acc.push(r);
            assert forall|i: int| 0 <= i < acc2.len() implies (#[trigger] acc2[i]).0 <= acc2[i].1 by {
                if i < acc.len() {
                    assert(acc2[i] == acc[i]);
                }
            }
            assert forall|i: int, j: int| 0 <= i < j < acc2.len() implies acc2[i].1 + 1 < acc2[j].0 by {
                assert(acc2[i] == acc[i]);
                if j < acc.len() {
                    assert(acc2[j] == acc[j]);
                } else if i < acc.len() - 1 {
                    assert(acc[i].1 + 1 < acc[acc.len() - 1].0);
                }
            }
            lemma_merge_from(acc2, tail);
            assert forall|id: int|
                is_free(merge_from(acc, rest), id) <==> is_free(acc, id) || is_free(rest, id) by {
                lemma_free_push(acc, r, id);
                lemma_free_drop_first(rest, id);
            }
        }
    }
}

/// Joining a chained list gives the canonical form of the same free ids.
proof fn lemma_merge_adjacent(p: Seq<(u16, u16)>)
    requires
        chained(p),
    ensures
        ranges_wf(merge_adjacent(p)),
        forall|id: int| is_free(merge_adjacent(p), id) <==> is_free(p, id),
{
    if p.len() > 0 {
        let acc = seq![p[0]];
        let tail = p.drop_first();
        assert(acc.last() == p[0]);
        assert forall|j: int, k: int| 0 <= j < k < tail.len() implies tail[j].1 < tail[k].0 by {
            assert(tail[j] == p[j + 1]);
            assert(tail[k] == p[k + 1]);
        }
        assert forall|j: int| 0 <= j < tail.len() implies (#[trigger] tail[j]).0 <= tail[j].1 by {
            assert(tail[j] == p[j + 1]);
        }
        if tail.len() > 0 {
            assert(tail[0] == p[1]);
        }
        assert(p[0].0 <= p[0].1);
        lemma_merge_from(acc, tail);
        assert forall|id: int| is_free(merge_adjacent(p), id) <==> is_free(p, id) by {
            lemma_free_single(p[0], id);
            lemma_free_drop_first(p, id);
        }
    } else {
        assert forall|id: int| is_free(merge_adjacent(p), id) <==> is_free(p, id) by {}
    }
}


/// Some server id is paired with client id `id`.
pub open spec fn maps_to(m: Map<u32, u16>, id: int) -> bool {
    exists|l: u32| #[trigger] m.contains_key(l) && m[l] == id
}

/// Every client id from 2 up is either free or paired with exactly one
/// server id, never both; the pairing is one-to-one.
pub open spec fn ids_partitioned(m: Map<u32, u16>, s: Seq<(u16, u16)>) -> bool {
    &&& forall|l1: u32, l2: u32|
        #[trigger] m.contains_key(l1) && #[trigger] m.contains_key(l2) && l1 != l2 ==> m[l1]
            != m[l2]
    &&& forall|l: u32| #[trigger] m.contains_key(l) ==> 2 <= m[l] && !is_free(s, m[l] as int)
    &&& forall|id: int| 2 <= id <= 65535 ==> is_free(s, id) || maps_to(m, id)
    &&& forall|id: int| is_free(s, id) ==> 2 <= id
}

proof fn lemma_free_after_alloc(s: Seq<(u16, u16)>, i: int, id: int)
    requires
        ranges_wf(s),
        0 <= i < s.len(),
    ensures
        is_free(ranges_after_alloc(s, i), id) <==> is_free(s, id) && id != s[i].0,
{
    let t = ranges_after_alloc(s, i);
    if is_free(t, id) {
        let k = choose|k: int| 0 <= k < t.len() && (#[trigger] t[k]).0 <= id <= t[k].1;
        if s[i].0 == s[i].1 {
            let k2 = if k < i { k } else { k + 1 };
            assert(t[k] == s[k2]);
            assert(k2 != i);
            if k2 < i {
                assert(s[k2].1 + 1 < s[i].0);
            } else {
                assert(s[i].1 + 1 < s[k2].0);
            }
        } else {
            assert(t[k] == s[k] || k == i);
            if k != i {
                if k < i {
                    assert(s[k].1 + 1 < s[i].0);
                } else {
                    assert(s[i].1 + 1 < s[k].0);
                }
            }
        }
    }
    if is_free(s, id) && id != s[i].0 {
        let k = choose|k: int| 0 <= k < s.len() && (#[trigger] s[k]).0 <= id <= s[k].1;
        if s[i].0 == s[i].1 {
            assert(k != i);
            let k2 = if k < i { k } else { k - 1 };
            assert(t[k2] == s[k]);
        } else {
            assert(t[k].0 <= id <= t[k].1);
        }
    }
}

/// Allocating for a server id that has no client id yet keeps the
/// partition: the handed-out id leaves the free ranges and is paired.
pub proof fn law_allocate_keeps_partition(m: Map<u32, u16>, s: Seq<(u16, u16)>, l: u32)
    requires
        ids_partitioned(m, s),
        ranges_wf(s),
        s.len() > 0,
        !m.contains_key(l),
    ensures
        ({
            let i = first_min_index(s);
            let r = s[i].0;
            &&& ranges_wf(ranges_after_alloc(s, i))
            &&& ids_partitioned(map_insert_pair(m, l, r), ranges_after_alloc(s, i))
            &&& map_insert_pair(m, l, r) == m.insert(l, r)
            &&& is_free(s, r as int)
            &&& forall|id: int|
                is_free(ranges_after_alloc(s, i), id) <==> is_free(s, id) && id != r
        }),
{
    lemma_first_min_index(s);
    let i = first_min_index(s);
    let r = s[i].0;
    let t = ranges_after_alloc(s, i);
    assert(is_free(s, r as int)) by {
        assert(s[i].0 <= r <= s[i].1);
    }
    assert forall|id: int| is_free(t, id) <==> is_free(s, id) && id != r by {
        lemma_free_after_alloc(s, i, id);
    }
    assert forall|k: u32| m.contains_key(k) implies m[k] != r by {}
    let m2 = map_insert_pair(m, l, r);
    assert(m2 =~= m.insert(l, r));
    assert(ranges_wf(t)) by {
        assert forall|a: int, b: int| 0 <= a < b < t.len() implies t[a].1 + 1 < t[b].0 by {
            if s[i].0 == s[i].1 {
                let a2 = if a < i { a } else { a + 1 };
                let b2 = if b < i { b } else { b + 1 };
                assert(t[a] == s[a2]);
                assert(t[b] == s[b2]);
            } else {
                assert(s[a].1 + 1 < s[b].0);
            }
        }
        assert forall|a: int| 0 <= a < t.len() implies (#[trigger] t[a]).0 <= t[a].1 by {
            if s[i].0 == s[i].1 {
                let a2 = if a < i { a } else { a + 1 };
                assert(t[a] == s[a2]);
            }
        }
    }
    assert forall|id: int| 2 <= id <= 65535 implies is_free(t, id) || maps_to(m2, id) by {
        if id == r {
            assert(m2.contains_key(l) && m2[l] == id);
        } else if !is_free(s, id) {
            let k = choose|k: u32| #[trigger] m.contains_key(k) && m[k] == id;
            assert(m2.contains_key(k) && m2[k] == id);
        }
    }
}

/// Reorderings contain the same ranges, so the same free ids.
proof fn lemma_free_perm(t: Seq<(u16, u16)>, p: Seq<(u16, u16)>, id: int)
    requires
        p.to_multiset() == t.to_multiset(),
    ensures
        is_free(p, id) <==> is_free(t, id),
{
    if is_free(p, id) {
        let k = choose|k: int| 0 <= k < p.len() && (#[trigger] p[k]).0 <= id <= p[k].1;
        assert(p.contains(p[k]));
        assert(p.to_multiset().count(p[k]) > 0);
        assert(t.contains(p[k]));
        let k2 = choose|k2: int| 0 <= k2 < t.len() && t[k2] == p[k];
        assert(t[k2].0 <= id <= t[k2].1);
    }
    if is_free(t, id) {
        let k = choose|k: int| 0 <= k < t.len() && (#[trigger] t[k]).0 <= id <= t[k].1;
        assert(t.contains(t[k]));
        assert(t.to_multiset().count(t[k]) > 0);
        assert(p.contains(t[k]));
        let k2 = choose|k2: int| 0 <= k2 < p.len() && p[k2] == t[k];
        assert(p[k2].0 <= id <= p[k2].1);
    }
}

/// Freeing a paired server id keeps the partition: its client id returns
/// to the free ranges, which stay canonical whatever order the sort leaves
/// equal starts in; and the joining walk cannot step past the highest id.
pub proof fn law_free_keeps_partition(m: Map<u32, u16>, s: Seq<(u16, u16)>, l: u32)
    requires
        ids_partitioned(m, s),
        ranges_wf(s),
        m.contains_key(l),
    ensures
        max_end_unique(s.push((m[l], m[l]))),
        forall|p: Seq<(u16, u16)>|
            p.to_multiset() == s.push((m[l], m[l])).to_multiset() && sorted_by_start(p) ==> {
                &&& ranges_wf(merge_adjacent(p))
                &&& ids_partitioned(m.remove(l), merge_adjacent(p))
                &&& forall|id: int|
                    is_free(merge_adjacent(p), id) <==> is_free(s, id) || id == m[l]
            },
{
    let c = m[l];
    let t = s.push((c, c));
    assert(!is_free(s, c as int));
    assert(ranges_valid(t)) by {
        assert forall|a: int| 0 <= a < t.len() implies (#[trigger] t[a]).0 <= t[a].1 by {
            if a < s.len() {
                assert(t[a] == s[a]);
            }
        }
    }
    assert(pairwise_disjoint(t)) by {
        assert forall|a: int, b: int|
            0 <= a < t.len() && 0 <= b < t.len() && a != b implies t[a].1 < t[b].0 || t[b].1
            < t[a].0 by {
            if a < s.len() && b < s.len() {
                assert(t[a] == s[a]);
                assert(t[b] == s[b]);
                if a < b {
                    assert(s[a].1 + 1 < s[b].0);
                } else {
                    assert(s[b].1 + 1 < s[a].0);
                }
            } else if a < s.len() {
                assert(t[a] == s[a]);
                assert(t[b] == (c, c));
                if s[a].0 <= c <= s[a].1 {
                    assert(is_free(s, c as int));
                }
            } else {
                assert(t[b] == s[b]);
                assert(t[a] == (c, c));
                if s[b].0 <= c <= s[b].1 {
                    assert(is_free(s, c as int));
                }
            }
        }
    }
    assert forall|id: int| is_free(t, id) <==> is_free(s, id) || id == c by {
        lemma_free_push(s, (c, c), id);
    }
    assert(max_end_unique(t)) by {
        assert forall|a: (u16, u16)| #![trigger t.contains(a)] t.contains(a) && a.1 == 65535 implies {
            &&& t.to_multiset().count(a) == 1
            &&& forall|b: (u16, u16)| #[trigger] t.contains(b) && b != a ==> b.0 < a.0
        } by {
            let x = choose|x: int| 0 <= x < t.len() && t[x] == a;
            assert(t.to_multiset().count(a) > 0);
            if t.to_multiset().count(a) >= 2 {
                lemma_count_two_indices(t, a);
                let (x1, y1) = choose|x1: int, y1: int|
                    0 <= x1 < t.len() && 0 <= y1 < t.len() && x1 != y1 && t[x1] == a && t[y1] == a;
                assert(t[x1].1 < t[y1].0 || t[y1].1 < t[x1].0);
            }
            assert forall|b: (u16, u16)| #[trigger] t.contains(b) && b != a implies b.0 < a.0 by {
                let y = choose|y: int| 0 <= y < t.len() && t[y] == b;
                assert(x != y);
            }
        }
    }
    assert forall|p: Seq<(u16, u16)>|
        p.to_multiset() == t.to_multiset() && sorted_by_start(p) implies {
        &&& ranges_wf(merge_adjacent(p))
        &&& ids_partitioned(m.remove(l), merge_adjacent(p))
        &&& forall|id: int| is_free(merge_adjacent(p), id) <==> is_free(s, id) || id == c
    } by {
        lemma_sorted_perm_chained(t, p);
        lemma_merge_adjacent(p);
        let q = merge_adjacent(p);
        let m2 = m.remove(l);
        assert forall|id: int| is_free(q, id) <==> is_free(s, id) || id == c by {
            lemma_free_perm(t, p, id);
        }
        assert forall|k: u32| #[trigger] m2.contains_key(k) implies 2 <= m2[k] && !is_free(
            q,
            m2[k] as int,
        ) by {
            assert(m.contains_key(k) && k != l);
            assert(m[k] != c);
        }
        assert forall|id: int| 2 <= id <= 65535 implies is_free(q, id) || maps_to(m2, id) by {
            if !is_free(s, id) && id != c {
                let k = choose|k: u32| #[trigger] m.contains_key(k) && m[k] == id;
                assert(k != l);
                assert(m2.contains_key(k) && m2[k] == id);
            }
        }
        assert forall|id: int| is_free(q, id) implies 2 <= id by {
            if id == c {
                assert(m.contains_key(l));
            }
        }
    }
}


proof fn lemma_free_first(s: Seq<(u16, u16)>, id: int)
    requires
        ranges_wf(s),
        s.len() > 0,
    ensures
        is_free(s.drop_first(), id) <==> is_free(s, id) && !(s[0].0 <= id <= s[0].1),
        is_free(s, id) ==> s[0].0 <= id,
{
    lemma_free_drop_first(s, id);
    let d = s.drop_first();
    if is_free(d, id) {
        let k = choose|k: int| 0 <= k < d.len() && (#[trigger] d[k]).0 <= id <= d[k].1;
        assert(d[k] == s[k + 1]);
        assert(s[0].1 + 1 < s[k + 1].0);
    }
    if is_free(s, id) {
        let k = choose|k: int| 0 <= k < s.len() && (#[trigger] s[k]).0 <= id <= s[k].1;
        if k > 0 {
            assert(s[0].1 + 1 < s[k].0);
        }
    }
}

/// The canonical form is unique: two canonical free lists with the same
/// free ids are equal.
proof fn lemma_wf_unique(a: Seq<(u16, u16)>, b: Seq<(u16, u16)>)
    requires
        ranges_wf(a),
        ranges_wf(b),
        forall|id: int| is_free(a, id) <==> is_free(b, id),
    ensures
        a == b,
    decreases a.len() + b.len(),
{
    if a.len() == 0 || b.len() == 0 {
        if a.len() > 0 {
            assert(is_free(a, a[0].0 as int));
        }
        if b.len() > 0 {
            assert(is_free(b, b[0].0 as int));
        }
        assert(a =~= b);
    } else {
        assert(is_free(a, a[0].0 as int));
        assert(is_free(b, b[0].0 as int));
        lemma_free_first(a, a[0].0 as int);
        lemma_free_first(b, a[0].0 as int);
        lemma_free_first(a, b[0].0 as int);
        lemma_free_first(b, b[0].0 as int);
        assert(a[0].0 == b[0].0);
        if a[0].1 < b[0].1 {
            let id = a[0].1 + 1;
            assert(is_free(b, id));
            lemma_free_first(a, id);
            lemma_free_drop_first(a, id);
            let d = a.drop_first();
            let k = choose|k: int| 0 <= k < d.len() && (#[trigger] d[k]).0 <= id <= d[k].1;
            assert(d[k] == a[k + 1]);
            assert(a[0].1 + 1 < a[k + 1].0);
        }
        if b[0].1 < a[0].1 {
            let id = b[0].1 + 1;
            assert(is_free(a, id));
            lemma_free_first(b, id);
            lemma_free_drop_first(b, id);
            let d = b.drop_first();
            let k = choose|k: int| 0 <= k < d.len() && (#[trigger] d[k]).0 <= id <= d[k].1;
            assert(d[k] == b[k + 1]);
            assert(b[0].1 + 1 < b[k + 1].0);
        }
        assert(a[0] == b[0]);
        let da = a.drop_first();
        let db = b.drop_first();
        assert(ranges_wf(da)) by {
            assert forall|x: int, y: int| 0 <= x < y < da.len() implies da[x].1 + 1 < da[y].0 by {
                assert(da[x] == a[x + 1] && da[y] == a[y + 1]);
            }
            assert forall|x: int| 0 <= x < da.len() implies (#[trigger] da[x]).0 <= da[x].1 by {
                assert(da[x] == a[x + 1]);
            }
        }
        assert(ranges_wf(db)) by {
            assert forall|x: int, y: int| 0 <= x < y < db.len() implies db[x].1 + 1 < db[y].0 by {
                assert(db[x] == b[x + 1] && db[y] == b[y + 1]);
            }
            assert forall|x: int| 0 <= x < db.len() implies (#[trigger] db[x]).0 <= db[x].1 by {
                assert(db[x] == b[x + 1]);
            }
        }
        assert forall|id: int| is_free(da, id) <==> is_free(db, id) by {
            lemma_free_first(a, id);
            lemma_free_first(b, id);
        }
        lemma_wf_unique(da, db);
        assert(a =~= seq![a[0]] + da);
        assert(b =~= seq![b[0]] + db);
    }
}

/// Allocating a client id for a new server entity and freeing it again
/// restores the pairing and the free list exactly.
pub proof fn law_allocate_then_free_restores(m: Map<u32, u16>, s: Seq<(u16, u16)>, l: u32)
    requires
        ids_partitioned(m, s),
        ranges_wf(s),
        s.len() > 0,
        !m.contains_key(l),
    ensures
        ({
            let i = first_min_index(s);
            let r = s[i].0;
            let m1 = map_insert_pair(m, l, r);
            let s1 = ranges_after_alloc(s, i);
            &&& m1.remove(l) == m
            &&& m1.contains_key(l) && m1[l] == r
            &&& forall|p: Seq<(u16, u16)>|
                p.to_multiset() == s1.push((r, r)).to_multiset() && sorted_by_start(p)
                    ==> merge_adjacent(p) == s
        }),
{
    law_allocate_keeps_partition(m, s, l);
    let i = first_min_index(s);
    let r = s[i].0;
    let m1 = map_insert_pair(m, l, r);
    let s1 = ranges_after_alloc(s, i);
    assert(m1.remove(l) =~= m);
    law_free_keeps_partition(m1, s1, l);
    assert forall|p: Seq<(u16, u16)>|
        p.to_multiset() == s1.push((r, r)).to_multiset() && sorted_by_start(p) implies merge_adjacent(
        p,
    ) == s by {
        assert forall|id: int| is_free(merge_adjacent(p), id) <==> is_free(s, id) by {}
        lemma_wf_unique(merge_adjacent(p), s);
    }
}

impl EntityState {
    /// Well-formed bookkeeping: canonical free list and a partition of the
    /// client ids between free ranges and pairs.
    pub open spec fn wf(&self) -> bool {
        &&& ranges_wf(self.c_alloc_id_ranges@)
        &&& ids_partitioned(bimap_pairs(self.entity_id_map), self.c_alloc_id_ranges@)
    }

    /// No entity known yet: ids 2 and up are free, 0 is the player and 1 is
    /// never handed out.
    pub fn new() -> (r: Self)
        ensures
            r.c_alloc_id_ranges@ == seq![(2u16, 65535u16)],
            forall|k: u32| !(#[trigger] bimap_pairs(r.entity_id_map).contains_key(k)),
            r.entities_update_scheduled@.len() == 0,
            r.appearance_update_scheduled@.len() == 0,
            r.wf(),
    {
        let mut ranges: Vec<(u16, u16)> = Vec::new();
        ranges.push((2, u16::MAX));
        let r = EntityState {
            entity_id_map: bimap_new(),
            c_alloc_id_ranges: ranges,
            entities_update_scheduled: Vec::new(),
            appearance_update_scheduled: Vec::new(),
        };
        proof {
            let s = r.c_alloc_id_ranges@;
            assert(s =~= seq![(2u16, 65535u16)]);
            assert forall|id: int| 2 <= id <= 65535 implies is_free(s, id) by {
                assert(s[0].0 <= id <= s[0].1);
            }
            assert forall|id: int| is_free(s, id) implies 2 <= id by {
                let k = choose|k: int| 0 <= k < s.len() && (#[trigger] s[k]).0 <= id <= s[k].1;
                assert(k == 0);
            }
        }
        r
    }
}


/// Client ids, in order, of those server ids that have one.
pub open spec fn known_client_ids(m: Map<u32, u16>, ids: Seq<u32>) -> Seq<u16>
    decreases ids.len(),
{
    if ids.len() == 0 {
        Seq::empty()
    } else {
        let rest = known_client_ids(m.remove(ids[0]), ids.drop_first());
        if m.contains_key(ids[0]) {
            seq![m[ids[0]]] + rest
        } else {
            rest
        }
    }
}

/// Keeps the server ids that are not among `ids` with a pair in `m`.
pub open spec fn kept_after_removal(m: Map<u32, u16>, ids: Seq<u32>) -> spec_fn(u32) -> bool {
    |y: u32| !(m.contains_key(y) && ids.contains(y))
}

proof fn lemma_filter_twice(s: Seq<u32>, p: spec_fn(u32) -> bool, q: spec_fn(u32) -> bool, r: spec_fn(u32) -> bool)
    requires
        forall|y: u32| #[trigger] r(y) == (p(y) && q(y)),
    ensures
        s.filter(p).filter(q) == s.filter(r),
    decreases s.len(),
{
    reveal(Seq::filter);
    if s.len() > 0 {
        lemma_filter_twice(s.drop_last(), p, q, r);
        let l = s.last();
        let x = s.drop_last().filter(p);
        assert(r(l) == (p(l) && q(l)));
        if p(l) {
            assert(x.push(l).drop_last() =~= x);
            assert(x.push(l).last() == l);
        }
    }
}

proof fn lemma_filter_all(s: Seq<u32>, p: spec_fn(u32) -> bool)
    requires
        forall|y: u32| #[trigger] p(y),
    ensures
        s.filter(p) == s,
    decreases s.len(),
{
    reveal(Seq::filter);
    if s.len() > 0 {
        lemma_filter_all(s.drop_last(), p);
        assert(p(s.last()));
        assert(s.drop_last().push(s.last()) =~= s);
    }
}

/// Handles a batch of removed server entities: frees the client id of each
/// known one and returns those client ids (unknown ids are skipped), for
/// the client to drop the objects. The pairs of the other entities stay as
/// they were, and the freed entities leave both update schedules.
pub fn remove_entities(entity_ids: &Vec<u32>, entity_state: &mut EntityState) -> (removed: Vec<u16>)
    requires
        old(entity_state).wf(),
    ensures
        final(entity_state).wf(),
        removed@ == known_client_ids(bimap_pairs(old(entity_state).entity_id_map), entity_ids@),
        forall|k: u32|
            #[trigger] bimap_pairs(final(entity_state).entity_id_map).contains_key(k) <==> bimap_pairs(
                old(entity_state).entity_id_map,
            ).contains_key(k) && !entity_ids@.contains(k),
        forall|k: u32|
            #[trigger] bimap_pairs(final(entity_state).entity_id_map).contains_key(k) ==> bimap_pairs(
                final(entity_state).entity_id_map,
            )[k] == bimap_pairs(old(entity_state).entity_id_map)[k],
        final(entity_state).entities_update_scheduled@
            == old(entity_state).entities_update_scheduled@.filter(
            kept_after_removal(bimap_pairs(old(entity_state).entity_id_map), entity_ids@),
        ),
        final(entity_state).appearance_update_scheduled@
            == old(entity_state).appearance_update_scheduled@.filter(
            kept_after_removal(bimap_pairs(old(entity_state).entity_id_map), entity_ids@),
        ),
{
    let mut removed: Vec<u16> = Vec::new();
    let ghost m0 = bimap_pairs(entity_state.entity_id_map);
    let ghost s0 = entity_state.entities_update_scheduled@;
    let ghost a0 = entity_state.appearance_update_scheduled@;
    proof {
        let none = entity_ids@.subrange(0, 0);
        assert forall|y: u32| #[trigger] kept_after_removal(m0, none)(y) by {
            assert(!none.contains(y));
        }
        lemma_filter_all(s0, kept_after_removal(m0, none));
        lemma_filter_all(a0, kept_after_removal(m0, none));
    }
    let mut i: usize = 0;
    assert(entity_ids@.subrange(0, entity_ids@.len() as int) =~= entity_ids@);
    assert(removed@ + known_client_ids(m0, entity_ids@) =~= known_client_ids(m0, entity_ids@));
    while i < entity_ids.len()
        invariant
            0 <= i <= entity_ids.len(),
            entity_state.wf(),
            removed@ + known_client_ids(
                bimap_pairs(entity_state.entity_id_map),
                entity_ids@.subrange(i as int, entity_ids@.len() as int),
            ) == known_client_ids(m0, entity_ids@),
            forall|k: u32|
                #[trigger] bimap_pairs(entity_state.entity_id_map).contains_key(k) <==> m0.contains_key(k)
                    && !entity_ids@.subrange(0, i as int).contains(k),
            forall|k: u32|
                #[trigger] bimap_pairs(entity_state.entity_id_map).contains_key(k) ==> bimap_pairs(
                    entity_state.entity_id_map,
                )[k] == m0[k],
            entity_state.entities_update_scheduled@ == s0.filter(
                kept_after_removal(m0, entity_ids@.subrange(0, i as int)),
            ),
            entity_state.appearance_update_scheduled@ == a0.filter(
                kept_after_removal(m0, entity_ids@.subrange(0, i as int)),
            ),
        decreases entity_ids.len() - i,
    {
        let id = entity_ids[i];
        let ghost m = bimap_pairs(entity_state.entity_id_map);
        let ghost rest = entity_ids@.subrange(i as int, entity_ids@.len() as int);
        assert(rest[0] == id);
        assert(rest.drop_first() =~= entity_ids@.subrange(i + 1, entity_ids@.len() as int));
        match bimap_get_by_left(&entity_state.entity_id_map, id) {
            Some(clientside_id) => {
                proof {
                    law_free_keeps_partition(m, entity_state.c_alloc_id_ranges@, id);
                }
                removed.push(clientside_id);
                let ghost su = entity_state.entities_update_scheduled@;
                let ghost sa = entity_state.appearance_update_scheduled@;
                free_id(id, entity_state);
                proof {
                    let pre = entity_ids@.subrange(0, i as int);
                    let post = entity_ids@.subrange(0, i + 1);
                    assert(post =~= pre.push(id));
                    assert forall|y: u32|
                        #[trigger] kept_after_removal(m0, post)(y) == (kept_after_removal(m0, pre)(y) && y
                            != id) by {
                        if pre.push(id).contains(y) && y != id {
                            let x = choose|x: int| 0 <= x < pre.push(id).len() && pre.push(id)[x] == y;
                            assert(pre[x] == y);
                        }
                        if pre.contains(y) {
                            let x = choose|x: int| 0 <= x < pre.len() && pre[x] == y;
                            assert(pre.push(id)[x] == y);
                        }
                        assert(pre.push(id)[pre.len() as int] == id);
                    }
                    lemma_filter_twice(s0, kept_after_removal(m0, pre), |y: u32| y != id, kept_after_removal(m0, post));
                    lemma_filter_twice(a0, kept_after_removal(m0, pre), |y: u32| y != id, kept_after_removal(m0, post));
                }
                assert(seq![clientside_id] + known_client_ids(m.remove(id), rest.drop_first())
                    == known_client_ids(m, rest));
            },
            None => {
                assert(m.remove(id) =~= m);
                assert(bimap_pairs(entity_state.entity_id_map) =~= m.remove(id));
                proof {
                    let pre = entity_ids@.subrange(0, i as int);
                    let post = entity_ids@.subrange(0, i + 1);
                    assert(post =~= pre.push(id));
                    assert forall|y: u32|
                        #[trigger] kept_after_removal(m0, post)(y) == kept_after_removal(m0, pre)(y) by {
                        if pre.push(id).contains(y) && y != id {
                            let x = choose|x: int| 0 <= x < pre.push(id).len() && pre.push(id)[x] == y;
                            assert(pre[x] == y);
                        }
                        if pre.contains(y) {
                            let x = choose|x: int| 0 <= x < pre.len() && pre[x] == y;
                            assert(pre.push(id)[x] == y);
                        }
                        assert(pre.push(id)[pre.len() as int] == id);
                    }
                    assert(kept_after_removal(m0, post) =~= kept_after_removal(m0, pre));
                }
            },
        }
        proof {
            assert forall|k: u32|
                #[trigger] bimap_pairs(entity_state.entity_id_map).contains_key(k) <==> m0.contains_key(k)
                    && !entity_ids@.subrange(0, i + 1).contains(k) by {
                let pre = entity_ids@.subrange(0, i as int);
                assert(entity_ids@.subrange(0, i + 1) =~= pre.push(id));
                assert(bimap_pairs(entity_state.entity_id_map) =~= m.remove(id));
                if pre.push(id).contains(k) {
                    let x = choose|x: int| 0 <= x < pre.push(id).len() && pre.push(id)[x] == k;
                    if x < pre.len() {
                        assert(pre[x] == k);
                    }
                }
                if pre.contains(k) {
                    let x = choose|x: int| 0 <= x < pre.len() && pre[x] == k;
                    assert(pre.push(id)[x] == k);
                }
                if k == id {
                    assert(pre.push(id)[pre.len() as int] == k);
                }
            }
        }
        i = i + 1;
    }
    assert(entity_ids@.subrange(0, entity_ids@.len() as int) =~= entity_ids@);
    removed
}

/// Schedules a position update for `serverside_id` on the next tick.
pub fn schedule_update(serverside_id: u32, entity_state: &mut EntityState)
    ensures
        final(entity_state).entities_update_scheduled@
            == old(entity_state).entities_update_scheduled@.push(serverside_id),
        final(entity_state).appearance_update_scheduled@
            == old(entity_state).appearance_update_scheduled@,
        final(entity_state).c_alloc_id_ranges@ == old(entity_state).c_alloc_id_ranges@,
        bimap_pairs(final(entity_state).entity_id_map) == bimap_pairs(
            old(entity_state).entity_id_map,
        ),
{
    entity_state.entities_update_scheduled.push(serverside_id);
}

/// Schedules an appearance check for `serverside_id` on the next tick.
pub fn schedule_appearance_update(serverside_id: u32, entity_state: &mut EntityState)
    ensures
        final(entity_state).appearance_update_scheduled@
            == old(entity_state).appearance_update_scheduled@.push(serverside_id),
        final(entity_state).entities_update_scheduled@
            == old(entity_state).entities_update_scheduled@,
        final(entity_state).c_alloc_id_ranges@ == old(entity_state).c_alloc_id_ranges@,
        bimap_pairs(final(entity_state).entity_id_map) == bimap_pairs(
            old(entity_state).entity_id_map,
        ),
{
    entity_state.appearance_update_scheduled.push(serverside_id);
}

/// Ends a tick: every scheduled update has been sent, so both schedules are
/// emptied; the ids are left as they are.
pub fn end_tick(entity_state: &mut EntityState)
    ensures
        final(entity_state).entities_update_scheduled@.len() == 0,
        final(entity_state).appearance_update_scheduled@.len() == 0,
        final(entity_state).c_alloc_id_ranges@ == old(entity_state).c_alloc_id_ranges@,
        bimap_pairs(final(entity_state).entity_id_map) == bimap_pairs(
            old(entity_state).entity_id_map,
        ),
{
    entity_state.entities_update_scheduled.clear();
    entity_state.appearance_update_scheduled.clear();
}

/// The client id of a server entity, if it has one.
pub fn client_id_of(serverside_id: u32, entity_state: &EntityState) -> (r: Option<u16>)
    ensures
        r == (if bimap_pairs(entity_state.entity_id_map).contains_key(serverside_id) {
            Some(bimap_pairs(entity_state.entity_id_map)[serverside_id])
        } else {
            None
        }),
{
    bimap_get_by_left(&entity_state.entity_id_map, serverside_id)
}

} // verus!

verus! {

/// `s` with each run of equal neighbours cut down to one element.
pub open spec fn dedup_runs(s: Seq<u32>) -> Seq<u32>
    decreases s.len(),
{
    if s.len() == 0 {
        s
    } else if s.len() >= 2 && s[s.len() - 2] == s.last() {
        dedup_runs(s.drop_last())
    } else {
        dedup_runs(s.drop_last()).push(s.last())
    }
}

proof fn lemma_dedup_runs_last(s: Seq<u32>)
    requires
        s.len() > 0,
    ensures
        dedup_runs(s).len() > 0,
        dedup_runs(s).last() == s.last(),
    decreases s.len(),
{
    if s.len() >= 2 && s[s.len() - 2] == s.last() {
        lemma_dedup_runs_last(s.drop_last());
    }
}

/// Removes consecutive repeats, as `Vec::dedup` does.
pub fn dedup_ids(v: &Vec<u32>) -> (r: Vec<u32>)
    ensures
        r@ == dedup_runs(v@),
{
    let mut r: Vec<u32> = Vec::new();
    let mut i: usize = 0;
    while i < v.len()
        invariant
            i <= v@.len(),
            r@ == dedup_runs(v@.take(i as int)),
            i > 0 ==> r@.len() > 0 && r@.last() == v@[i - 1],
        decreases v.len() - i,
    {
        let ghost t = v@.take(i + 1);
        assert(t.drop_last() =~= v@.take(i as int));
        if i > 0 && v[i - 1] == v[i] {
            assert(t[t.len() - 2] == t.last());
        } else {
            r.push(v[i]);
        }
        i += 1;
        proof {
            lemma_dedup_runs_last(v@.take(i as int));
        }
    }
    assert(v@.take(i as int) =~= v@);
    r
}

/// The contents of a vector.
pub open spec fn vec_view<T>() -> spec_fn(Vec<T>) -> Seq<T> {
    |c: Vec<T>| c@
}

/// Splits messages into packets of at most `max` each, in order, the last
/// packet possibly shorter; no packet is empty.
pub fn chunk_messages<T>(msgs: Vec<T>, max: usize) -> (r: Vec<Vec<T>>)
    requires
        max > 0,
    ensures
        r@.map_values(vec_view::<T>()).flatten() == msgs@,
        forall|i: int| 0 <= i < r@.len() ==> 0 < (#[trigger] r@[i])@.len() <= max,
        forall|i: int| 0 <= i < r@.len() - 1 ==> (#[trigger] r@[i])@.len() == max,
{
    let mut msgs = msgs;
    let ghost all = msgs@;
    let mut chunks: Vec<Vec<T>> = Vec::new();
    let mut cur: Vec<T> = Vec::new();
    let mut rest: Vec<T> = Vec::new();
    while msgs.len() > 0
        invariant
            rest@ == all.subrange(msgs@.len() as int, all.len() as int).reverse(),
            msgs@ == all.subrange(0, msgs@.len() as int),
            msgs@.len() <= all.len(),
        decreases msgs.len(),
    {
        let x = msgs.pop().unwrap();
        rest.push(x);
        assert(rest@ =~= all.subrange(msgs@.len() as int, all.len() as int).reverse());
    }
    while rest.len() > 0
        invariant
            max > 0,
            rest@.reverse() == all.subrange(all.len() - rest@.len(), all.len() as int),
            rest@.len() <= all.len(),
            chunks@.map_values(vec_view::<T>()).flatten() + cur@ == all.subrange(0, all.len() - rest@.len()),
            forall|k: int| 0 <= k < chunks@.len() ==> (#[trigger] chunks@[k])@.len() == max,
            cur@.len() < max,
        decreases rest.len(),
    {
        let ghost r0 = rest@;
        let x = rest.pop().unwrap();
        assert(r0.reverse()[0] == r0[r0.len() - 1]);
        assert(x == all[all.len() - r0.len()]);
        assert(rest@.reverse() =~= all.subrange(all.len() - rest@.len(), all.len() as int)) by {
            assert forall|k: int| 0 <= k < rest@.len() implies rest@.reverse()[k] == all[all.len()
                - rest@.len() + k] by {
                assert(rest@.reverse()[k] == r0.reverse()[k + 1]);
            }
        }
        let ghost prefix = all.subrange(0, all.len() - r0.len());
        assert(all.subrange(0, all.len() - rest@.len()) =~= prefix.push(x));
        cur.push(x);
        if cur.len() >= max {
            let mut full: Vec<T> = Vec::new();
            std::mem::swap(&mut full, &mut cur);
            let ghost fv = full@;
            let ghost old_chunks = chunks@.map_values(vec_view::<T>());
            chunks.push(full);
            assert(chunks@.map_values(vec_view::<T>()) =~= old_chunks.push(fv));
            proof {
                old_chunks.lemma_flatten_push(fv);
            }
        }
        assert(chunks@.map_values(vec_view::<T>()).flatten() + cur@ =~= all.subrange(0, all.len() - rest@.len()));
    }
    if cur.len() > 0 {
        let ghost cv = cur@;
        let ghost old_chunks = chunks@.map_values(vec_view::<T>());
        chunks.push(cur);
        assert(chunks@.map_values(vec_view::<T>()) =~= old_chunks.push(cv));
        proof {
            old_chunks.lemma_flatten_push(cv);
        }
    }
    assert(all.subrange(0, all.len() as int) =~= all);
    chunks
}

} // verus!
