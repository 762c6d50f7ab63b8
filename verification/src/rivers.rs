//! Topology of the river network: which segment drains into which, how
//! much area each drains, and the Strahler order of every segment.
use vstd::prelude::*;

verus! {

/// The links of one river segment: the segment it drains into, the
/// segments that drain into it, and the area it drains.
#[derive(Clone, Debug, PartialEq, Eq)]
pub struct RiverLink {
    pub downstream: Option<usize>,
    pub upstream: Vec<usize>,
    pub drainage_area: u32,
}

/// Largest drainage area among the tributaries `ups` that name a segment of
/// `links`, or 0 when none does.
pub open spec fn max_tributary_drainage(links: Seq<RiverLink>, ups: Seq<usize>) -> int
    decreases ups.len(),
{
    if ups.len() == 0 {
        0
    } else {
        let rest = max_tributary_drainage(links, ups.drop_last());
        let u = ups.last();
        if u < links.len() && links[u as int].drainage_area > rest {
            links[u as int].drainage_area as int
        } else {
            rest
        }
    }
}

/// Drainage area at the upstream end of segment `segment_index`: the largest
/// drainage among its tributaries; 0 for a headwater or an unknown segment.
pub fn upstream_drainage_for(links: &Vec<RiverLink>, segment_index: usize) -> (r: u32)
    ensures
        r as int == (if segment_index < links@.len() {
            max_tributary_drainage(links@, links@[segment_index as int].upstream@)
        } else {
            0
        }),
{
    if segment_index >= links.len() {
        return 0;
    }
    let ups = &links[segment_index].upstream;
    let mut best: u32 = 0;
    let mut k: usize = 0;
    while k < ups.len()
        invariant
            ups@ == links@[segment_index as int].upstream@,
            k <= ups@.len(),
            best as int == max_tributary_drainage(links@, ups@.take(k as int)),
        decreases ups@.len() - k,
    {
        proof {
            assert(ups@.take(k as int + 1).drop_last() =~= ups@.take(k as int));
        }
        let u = ups[k];
        if u < links.len() && links[u].drainage_area > best {
            best = links[u].drainage_area;
        }
        k = k + 1;
    }
    proof {
        assert(ups@.take(ups@.len() as int) =~= ups@);
    }
    best
}

/// The segments among the first `count` that drain into `target`, in index
/// order.
pub open spec fn tributaries_upto(downstream: Seq<Option<usize>>, target: int, count: int) -> Seq<
    usize,
>
    decreases count,
{
    if count <= 0 {
        Seq::empty()
    } else {
        let rest = tributaries_upto(downstream, target, count - 1);
        match downstream[count - 1] {
            Some(t) if t as int == target => rest.push((count - 1) as usize),
            _ => rest,
        }
    }
}

/// Tributary lists of every segment, from the segment each one drains into:
/// entry `d` lists, in index order, the segments whose downstream is `d`.
/// Links that point past the last segment are dropped.
pub fn upstream_links(downstream: &Vec<Option<usize>>) -> (r: Vec<Vec<usize>>)
    ensures
        r@.len() == downstream@.len(),
        forall|d: int|
            0 <= d < r@.len() ==> #[trigger] r@[d]@ == tributaries_upto(
                downstream@,
                d,
                downstream@.len() as int,
            ),
{
    let n = downstream.len();
    let mut r: Vec<Vec<usize>> = Vec::new();
    let mut i: usize = 0;
    while i < n
        invariant
            n == downstream@.len(),
            i <= n,
            r@.len() == i,
            forall|d: int| 0 <= d < i ==> #[trigger] r@[d]@ == Seq::<usize>::empty(),
        decreases n - i,
    {
        r.push(Vec::new());
        i = i + 1;
    }
    let mut s: usize = 0;
    while s < n
        invariant
            n == downstream@.len(),
            s <= n,
            r@.len() == n,
            forall|d: int|
                0 <= d < n ==> #[trigger] r@[d]@ == tributaries_upto(downstream@, d, s as int),
        decreases n - s,
    {
        if let Some(ds) = downstream[s] {
            if ds < n {
                let mut list = r[ds].clone();
                list.push(s);
                r.set(ds, list);
            }
        }
        proof {
            assert forall|d: int| 0 <= d < n implies #[trigger] r@[d]@ == tributaries_upto(
                downstream@,
                d,
                s as int + 1,
            ) by {
                assert(tributaries_upto(downstream@, d, s as int + 1) == (match downstream@[s as int] {
                    Some(t) if t as int == d => tributaries_upto(downstream@, d, s as int).push(s),
                    _ => tributaries_upto(downstream@, d, s as int),
                }));
            }
        }
        s = s + 1;
    }
    r
}

/// Largest of `vals`, or 0 for none.
pub open spec fn seq_max(vals: Seq<u32>) -> int
    decreases vals.len(),
{
    if vals.len() == 0 {
        0
    } else {
        let m = seq_max(vals.drop_last());
        if vals.last() > m {
            vals.last() as int
        } else {
            m
        }
    }
}

/// How many of `vals` equal `v`.
pub open spec fn count_of(vals: Seq<u32>, v: int) -> int
    decreases vals.len(),
{
    if vals.len() == 0 {
        0
    } else {
        count_of(vals.drop_last(), v) + if vals.last() == v {
            1int
        } else {
            0int
        }
    }
}

/// Strahler's rule: a headwater has order 1; otherwise a segment takes the
/// highest order among its tributaries, plus one when two or more of them
/// share that highest order.
pub open spec fn strahler_rule(tributary: Seq<u32>) -> int {
    if tributary.len() == 0 {
        1
    } else {
        let m = seq_max(tributary);
        if count_of(tributary, m) >= 2 {
            m + 1
        } else {
            m
        }
    }
}

/// The orders of the tributaries `ups`, read from `orders`.
pub open spec fn tributary_orders(orders: Seq<u32>, ups: Seq<usize>) -> Seq<u32> {
    ups.map_values(|u: usize| orders[u as int])
}

/// Segment `u` drains into segment `d`.
pub open spec fn drains_into(links: Seq<RiverLink>, u: int, d: int) -> bool {
    match links[u].downstream {
        Some(t) => t as int == d,
        None => false,
    }
}

/// Every tributary list names exactly the segments that drain into it.
pub open spec fn links_consistent(links: Seq<RiverLink>) -> bool {
    &&& forall|d: int, k: int|
        0 <= d < links.len() && 0 <= k < links[d].upstream@.len() ==> {
            let u = #[trigger] links[d].upstream@[k];
            u < links.len() && drains_into(links, u as int, d)
        }
    &&& forall|u: int, d: int|
        0 <= u < links.len() && 0 <= d < links.len() && #[trigger] drains_into(links, u, d)
            ==> links[d].upstream@.contains(u as usize)
}

/// `rank` gives every segment a level that falls strictly along each
/// downstream link.
pub open spec fn ranked_downhill(links: Seq<RiverLink>, rank: Seq<nat>) -> bool {
    &&& rank.len() == links.len()
    &&& forall|u: int, d: int|
        0 <= u < links.len() && 0 <= d < links.len() && #[trigger] drains_into(links, u, d)
            ==> rank[d] < rank[u]
}

/// A downhill rank whose levels all lie below the segment count.
spec fn ranked_within(links: Seq<RiverLink>, rank: Seq<nat>) -> bool {
    &&& ranked_downhill(links, rank)
    &&& forall|u: int| 0 <= u < links.len() ==> #[trigger] rank[u] < links.len()
}

/// How many of the first `k` levels of `rank` lie below `v`.
spec fn count_below(rank: Seq<nat>, v: int, k: int) -> nat
    decreases k,
{
    if k <= 0 {
        0
    } else {
        count_below(rank, v, k - 1) + if rank[k - 1] < v {
            1nat
        } else {
            0nat
        }
    }
}

/// Each segment's level replaced by how many segments lie strictly lower.
spec fn compact_rank(rank: Seq<nat>) -> Seq<nat> {
    Seq::new(rank.len(), |u: int| count_below(rank, rank[u] as int, rank.len() as int))
}

proof fn lemma_count_below_monotone(rank: Seq<nat>, v1: int, v2: int, k: int, w: int)
    requires
        0 <= k <= rank.len(),
        v1 <= v2,
    ensures
        count_below(rank, v1, k) <= count_below(rank, v2, k) <= k,
        0 <= w < k && v1 <= rank[w] < v2 ==> count_below(rank, v1, k) < count_below(rank, v2, k),
        0 <= w < k && rank[w] >= v2 ==> count_below(rank, v2, k) < k,
    decreases k,
{
    if k > 0 {
        lemma_count_below_monotone(rank, v1, v2, k - 1, w);
    }
}

proof fn lemma_compact_rank(links: Seq<RiverLink>, rank: Seq<nat>)
    requires
        ranked_downhill(links, rank),
    ensures
        ranked_within(links, compact_rank(rank)),
{
    let n = links.len() as int;
    let c = compact_rank(rank);
    assert forall|u: int| 0 <= u < n implies #[trigger] c[u] < n by {
        lemma_count_below_monotone(rank, rank[u] as int, rank[u] as int, n, u);
    }
    assert forall|u: int, d: int|
        0 <= u < n && 0 <= d < n && #[trigger] drains_into(links, u, d) implies c[d] < c[u] by {
        lemma_count_below_monotone(rank, rank[d] as int, rank[u] as int, n, d);
    }
}

/// Following downstream links never leads back to a segment already passed.
pub open spec fn links_acyclic(links: Seq<RiverLink>) -> bool {
    exists|rank: Seq<nat>| ranked_downhill(links, rank)
}

/// The orders known so far, with 0 for those not yet known.
pub open spec fn known(order: Seq<Option<u32>>) -> Seq<u32> {
    order.map_values(
        |o: Option<u32>|
            match o {
                Some(v) => v,
                None => 0u32,
            },
    )
}

/// Every tributary in `ups` has a known order.
pub open spec fn all_known(order: Seq<Option<u32>>, ups: Seq<usize>) -> bool {
    forall|k: int| 0 <= k < ups.len() ==> #[trigger] ups[k] < order.len() && order[ups[k] as int] is Some
}

spec fn stack_weight(rank: Seq<nat>, stack: Seq<usize>) -> nat
    decreases stack.len(),
{
    if stack.len() == 0 {
        0
    } else {
        stack_weight(rank, stack.drop_last()) + rank[stack.last() as int] + 1
    }
}

proof fn lemma_seq_max_below(vals: Seq<u32>, bound: int)
    requires
        bound > 0,
        forall|k: int| 0 <= k < vals.len() ==> #[trigger] vals[k] < bound,
    ensures
        0 <= seq_max(vals) < bound,
    decreases vals.len(),
{
    if vals.len() > 0 {
        lemma_seq_max_below(vals.drop_last(), bound);
    }
}

proof fn lemma_count_bound(vals: Seq<u32>, v: int)
    ensures
        0 <= count_of(vals, v) <= vals.len(),
    decreases vals.len(),
{
    if vals.len() > 0 {
        lemma_count_bound(vals.drop_last(), v);
    }
}

/// The order that Strahler's rule gives a segment whose tributaries `ups`
/// all have known orders below `u32::MAX`.
fn strahler_step(order: &Vec<Option<u32>>, ups: &Vec<usize>) -> (r: u32)
    requires
        all_known(order@, ups@),
        forall|k: int| 0 <= k < ups@.len() ==> #[trigger] known(order@)[ups@[k] as int] < u32::MAX,
    ensures
        r as int == strahler_rule(tributary_orders(known(order@), ups@)),
{
    let ghost target = tributary_orders(known(order@), ups@);
    let mut vals: Vec<u32> = Vec::new();
    let mut k: usize = 0;
    while k < ups.len()
        invariant
            all_known(order@, ups@),
            target == tributary_orders(known(order@), ups@),
            k <= ups@.len(),
            vals@ == target.take(k as int),
        decreases ups@.len() - k,
    {
        let u = ups[k];
        let v = match order[u] {
            Some(v) => v,
            None => 0,
        };
        vals.push(v);
        proof {
            assert(vals@ =~= target.take(k as int + 1));
        }
        k = k + 1;
    }
    proof {
        assert(vals@ =~= target);
    }
    if vals.len() == 0 {
        return 1;
    }
    let mut m: u32 = 0;
    let mut j: usize = 0;
    while j < vals.len()
        invariant
            j <= vals@.len(),
            m as int == seq_max(vals@.take(j as int)),
        decreases vals@.len() - j,
    {
        proof {
            assert(vals@.take(j as int + 1).drop_last() =~= vals@.take(j as int));
        }
        if vals[j] > m {
            m = vals[j];
        }
        j = j + 1;
    }
    proof {
        assert(vals@.take(vals@.len() as int) =~= vals@);
        assert forall|i: int| 0 <= i < vals@.len() implies #[trigger] vals@[i] < u32::MAX by {
            assert(vals@[i] == known(order@)[ups@[i] as int]);
        }
        lemma_seq_max_below(vals@, u32::MAX as int);
    }
    let mut count: usize = 0;
    let mut j: usize = 0;
    while j < vals.len()
        invariant
            j <= vals@.len(),
            count as int == count_of(vals@.take(j as int), m as int),
        decreases vals@.len() - j,
    {
        proof {
            assert(vals@.take(j as int + 1).drop_last() =~= vals@.take(j as int));
            lemma_count_bound(vals@.take(j as int), m as int);
        }
        if vals[j] == m {
            count = count + 1;
        }
        j = j + 1;
    }
    proof {
        assert(vals@.take(vals@.len() as int) =~= vals@);
    }
    if count >= 2 {
        m + 1
    } else {
        m
    }
}

/// Every order that is known obeys Strahler's rule over known tributary
/// orders and stays within `links.len() - rank`.
spec fn orders_sound(links: Seq<RiverLink>, rank: Seq<nat>, order: Seq<Option<u32>>) -> bool {
    forall|x: int|
        0 <= x < links.len() && #[trigger] order[x] is Some ==> {
            &&& all_known(order, links[x].upstream@)
            &&& order[x]->0 as int == strahler_rule(
                tributary_orders(known(order), links[x].upstream@),
            )
            &&& order[x]->0 as int <= links.len() - rank[x]
        }
}

/// A segment whose tributaries are all known is known itself, or one of its
/// tributaries still waits on the stack.
spec fn orders_pending(links: Seq<RiverLink>, order: Seq<Option<u32>>, stack: Seq<usize>) -> bool {
    forall|x: int|
        0 <= x < links.len() && #[trigger] all_known(order, links[x].upstream@) ==> order[x] is Some
            || exists|j: int| 0 <= j < stack.len() && links[x].upstream@.contains(#[trigger] stack[j])
}

proof fn lemma_all_settled(links: Seq<RiverLink>, rank: Seq<nat>, order: Seq<Option<u32>>, x: int)
    requires
        links_consistent(links),
        ranked_within(links, rank),
        order.len() == links.len(),
        0 <= x < links.len(),
        forall|y: int|
            0 <= y < links.len() && #[trigger] all_known(order, links[y].upstream@) ==> order[y] is Some,
    ensures
        order[x] is Some,
    decreases links.len() - rank[x],
{
    let ups = links[x].upstream@;
    assert forall|k: int| 0 <= k < ups.len() implies #[trigger] ups[k] < order.len() && order[ups[k] as int] is Some by {
        let u = ups[k];
        assert(u < links.len() && drains_into(links, u as int, x));
        lemma_all_settled(links, rank, order, u as int);
    }
    assert(all_known(order, links[x].upstream@));
}

proof fn lemma_settle_step(
    links: Seq<RiverLink>,
    rank: Seq<nat>,
    order: Seq<Option<u32>>,
    d: int,
    value: u32,
)
    requires
        links_consistent(links),
        ranked_within(links, rank),
        order.len() == links.len(),
        0 <= d < links.len(),
        orders_sound(links, rank, order),
        all_known(order, links[d].upstream@),
        value as int == strahler_rule(tributary_orders(known(order), links[d].upstream@)),
    ensures
        orders_sound(links, rank, order.update(d, Some(value))),
{
    let n = links.len() as int;
    let next = order.update(d, Some(value));
    let ups = links[d].upstream@;
    assert forall|w: int| 0 <= w < n && #[trigger] order[w] is Some implies known(next)[w] == known(
        order,
    )[w] by {
        if w == d {
            assert(order[d]->0 as int == strahler_rule(
                tributary_orders(known(order), links[d].upstream@),
            ));
        }
    }
    assert forall|k: int| 0 <= k < ups.len() implies #[trigger] ups[k] as int != d by {
        assert(drains_into(links, ups[k] as int, d));
    }
    assert(tributary_orders(known(next), ups) =~= tributary_orders(known(order), ups));
    let vals = tributary_orders(known(order), ups);
    if vals.len() > 0 {
        assert forall|k: int| 0 <= k < vals.len() implies #[trigger] vals[k] < n - rank[d] by {
            let w = ups[k];
            assert(drains_into(links, w as int, d));
            assert(order[w as int] is Some);
        }
        lemma_seq_max_below(vals, n - rank[d]);
    }
    assert(rank[d] < n);
    assert forall|x: int| 0 <= x < n && #[trigger] next[x] is Some implies {
        &&& all_known(next, links[x].upstream@)
        &&& next[x]->0 as int == strahler_rule(tributary_orders(known(next), links[x].upstream@))
        &&& next[x]->0 as int <= n - rank[x]
    } by {
        if x != d {
            let xs = links[x].upstream@;
            assert(tributary_orders(known(next), xs) =~= tributary_orders(known(order), xs));
        }
    }
}

proof fn lemma_pending_after_push(
    links: Seq<RiverLink>,
    order: Seq<Option<u32>>,
    before: Seq<usize>,
    d: int,
    value: u32,
)
    requires
        links_consistent(links),
        order.len() == links.len(),
        0 <= d < links.len(),
        before.len() > 0,
        drains_into(links, before.last() as int, d),
        orders_pending(links, order, before),
    ensures
        orders_pending(links, order.update(d, Some(value)), before.drop_last().push(d as usize)),
{
    let next = order.update(d, Some(value));
    let after = before.drop_last().push(d as usize);
    assert forall|x: int| 0 <= x < links.len() && #[trigger] all_known(next, links[x].upstream@) implies next[x] is Some
        || exists|j: int| 0 <= j < after.len() && links[x].upstream@.contains(#[trigger] after[j]) by {
        let xs = links[x].upstream@;
        if x != d {
            if xs.contains(d as usize) {
                assert(after[after.len() - 1] == d as usize);
                assert(xs.contains(after[after.len() - 1]));
            } else {
                assert forall|k: int| 0 <= k < xs.len() implies #[trigger] xs[k] < order.len() && order[xs[k] as int] is Some by {
                    assert(xs[k] < next.len() && next[xs[k] as int] is Some);
                }
                assert(all_known(order, xs));
                if order[x] is None {
                    let j = choose|j: int| 0 <= j < before.len() && xs.contains(#[trigger] before[j]);
                    if j == before.len() - 1 {
                        let k = choose|k: int| 0 <= k < xs.len() && xs[k] == before[j];
                        assert(drains_into(links, xs[k] as int, x));
                    } else {
                        assert(after[j] == before[j]);
                        assert(xs.contains(after[j]));
                    }
                }
            }
        }
    }
}

proof fn lemma_pending_after_drop(
    links: Seq<RiverLink>,
    order: Seq<Option<u32>>,
    before: Seq<usize>,
    d: int,
)
    requires
        links_consistent(links),
        order.len() == links.len(),
        0 <= d < links.len(),
        before.len() > 0,
        drains_into(links, before.last() as int, d),
        !all_known(order, links[d].upstream@),
        orders_pending(links, order, before),
    ensures
        orders_pending(links, order, before.drop_last()),
{
    let after = before.drop_last();
    assert forall|x: int| 0 <= x < links.len() && #[trigger] all_known(order, links[x].upstream@) implies order[x] is Some
        || exists|j: int| 0 <= j < after.len() && links[x].upstream@.contains(#[trigger] after[j]) by {
        let xs = links[x].upstream@;
        if order[x] is None {
            let j = choose|j: int| 0 <= j < before.len() && xs.contains(#[trigger] before[j]);
            if j == before.len() - 1 {
                let k = choose|k: int| 0 <= k < xs.len() && xs[k] == before[j];
                assert(drains_into(links, xs[k] as int, x));
            } else {
                assert(after[j] == before[j]);
                assert(xs.contains(after[j]));
            }
        }
    }
}

proof fn lemma_pending_after_outlet(
    links: Seq<RiverLink>,
    order: Seq<Option<u32>>,
    before: Seq<usize>,
)
    requires
        links_consistent(links),
        order.len() == links.len(),
        before.len() > 0,
        before.last() < links.len(),
        forall|d: int| 0 <= d < links.len() ==> !drains_into(links, before.last() as int, d),
        orders_pending(links, order, before),
    ensures
        orders_pending(links, order, before.drop_last()),
{
    let after = before.drop_last();
    assert forall|x: int| 0 <= x < links.len() && #[trigger] all_known(order, links[x].upstream@) implies order[x] is Some
        || exists|j: int| 0 <= j < after.len() && links[x].upstream@.contains(#[trigger] after[j]) by {
        let xs = links[x].upstream@;
        if order[x] is None {
            let j = choose|j: int| 0 <= j < before.len() && xs.contains(#[trigger] before[j]);
            if j == before.len() - 1 {
                let k = choose|k: int| 0 <= k < xs.len() && xs[k] == before[j];
                assert(drains_into(links, xs[k] as int, x));
            } else {
                assert(after[j] == before[j]);
                assert(xs.contains(after[j]));
            }
        }
    }
}

/// Strahler order of every segment of a consistent, acyclic river network:
/// each order is Strahler's rule applied to the orders of its tributaries.
pub fn compute_strahler_orders(links: &Vec<RiverLink>) -> (r: Vec<u32>)
    requires
        links_consistent(links@),
        links_acyclic(links@),
        links@.len() <= u32::MAX,
    ensures
        r@.len() == links@.len(),
        forall|i: int|
            0 <= i < links@.len() ==> #[trigger] r@[i] as int == strahler_rule(
                tributary_orders(r@, links@[i].upstream@),
            ),
{
    let n = links.len();
    let ghost rank = compact_rank(choose|rank: Seq<nat>| ranked_downhill(links@, rank));
    proof {
        lemma_compact_rank(links@, choose|rank: Seq<nat>| ranked_downhill(links@, rank));
    }
    let mut order: Vec<Option<u32>> = Vec::new();
    let mut stack: Vec<usize> = Vec::new();
    let mut i: usize = 0;
    while i < n
        invariant
            n == links@.len(),
            i <= n,
            order@.len() == i,
            forall|j: int|
                0 <= j < i ==> (#[trigger] order@[j] is Some <==> links@[j].upstream@.len() == 0),
            forall|j: int| 0 <= j < i && #[trigger] order@[j] is Some ==> order@[j] == Some(1u32),
            forall|j: int|
                0 <= j < i && links@[j].upstream@.len() == 0 ==> #[trigger] stack@.contains(
                    j as usize,
                ),
            forall|k: int|
                0 <= k < stack@.len() ==> #[trigger] stack@[k] < i && links@[stack@[k] as int].upstream@.len()
                    == 0,
        decreases n - i,
    {
        let ghost prev = stack@;
        if links[i].upstream.len() == 0 {
            order.push(Some(1));
            stack.push(i);
            proof {
                assert(stack@[stack@.len() - 1] == i);
            }
        } else {
            order.push(None);
        }
        proof {
            assert forall|j: int|
                0 <= j < i + 1 && links@[j].upstream@.len() == 0 implies #[trigger] stack@.contains(
                j as usize,
            ) by {
                if j < i {
                    assert(prev.contains(j as usize));
                    let k = choose|k: int| 0 <= k < prev.len() && prev[k] == j as usize;
                    assert(k < stack@.len() && stack@[k] == prev[k]);
                } else {
                    assert(stack@[stack@.len() - 1] == j as usize);
                }
            }
        }
        i = i + 1;
    }
    proof {
        assert forall|x: int| 0 <= x < n && #[trigger] order@[x] is Some implies {
            &&& all_known(order@, links@[x].upstream@)
            &&& order@[x]->0 as int == strahler_rule(
                tributary_orders(known(order@), links@[x].upstream@),
            )
            &&& order@[x]->0 as int <= n - rank[x]
        } by {
            assert(tributary_orders(known(order@), links@[x].upstream@) =~= Seq::<u32>::empty());
            assert(rank[x] < n);
        }
        assert forall|x: int|
            0 <= x < n && #[trigger] all_known(order@, links@[x].upstream@) implies order@[x] is Some
                || exists|j: int| 0 <= j < stack@.len() && links@[x].upstream@.contains(#[trigger] stack@[j]) by {
            let ups = links@[x].upstream@;
            if ups.len() > 0 {
                let w = ups[0];
                assert(w < n && order@[w as int] is Some);
                assert(stack@.contains(w));
                let j = choose|j: int| 0 <= j < stack@.len() && stack@[j] == w;
                assert(ups.contains(stack@[j]));
            }
        }
    }
    while stack.len() > 0
        invariant
            n == links@.len(),
            n <= u32::MAX,
            links_consistent(links@),
            ranked_within(links@, rank),
            order@.len() == n,
            forall|k: int| 0 <= k < stack@.len() ==> #[trigger] stack@[k] < n && order@[stack@[k] as int] is Some,
            orders_sound(links@, rank, order@),
            orders_pending(links@, order@, stack@),
        decreases stack_weight(rank, stack@),
    {
        let ghost before = stack@;
        let u = stack.pop().unwrap();
        proof {
            assert(stack@ =~= before.drop_last());
        }
        if let Some(d) = links[u].downstream {
            if d < n {
                let ups = &links[d].upstream;
                let mut all_computed = true;
                let mut k: usize = 0;
                while k < ups.len()
                    invariant
                        n == links@.len(),
                        order@.len() == n,
                        d < n,
                        ups@ == links@[d as int].upstream@,
                        k <= ups@.len(),
                        all_computed <==> (forall|t: int|
                            0 <= t < k ==> #[trigger] ups@[t] >= n || order@[ups@[t] as int] is Some),
                    decreases ups@.len() - k,
                {
                    if ups[k] < n && order[ups[k]].is_none() {
                        all_computed = false;
                    }
                    k = k + 1;
                }
                proof {
                    assert(links_consistent(links@));
                    assert forall|t: int| 0 <= t < ups@.len() implies #[trigger] ups@[t] < n by {
                        assert(ups@[t] == links@[d as int].upstream@[t]);
                    }
                    assert(all_computed <==> all_known(order@, ups@));
                }
                if all_computed {
                    proof {
                        assert forall|t: int| 0 <= t < ups@.len() implies #[trigger] known(order@)[ups@[t] as int] < u32::MAX by {
                            let w = ups@[t];
                            assert(drains_into(links@, w as int, d as int));
                            assert(rank[d as int] < rank[w as int]);
                        }
                    }
                    let value = strahler_step(&order, ups);
                    let ghost prior = order@;
                    proof {
                        lemma_settle_step(links@, rank, prior, d as int, value);
                    }
                    order.set(d, Some(value));
                    stack.push(d);
                    proof {
                        assert(order@ == prior.update(d as int, Some(value)));
                        assert(stack@ =~= before.drop_last().push(d));
                        lemma_pending_after_push(links@, prior, before, d as int, value);
                        assert(stack@.drop_last() =~= before.drop_last());
                        assert(drains_into(links@, u as int, d as int));
                    }
                } else {
                    proof {
                        assert(drains_into(links@, u as int, d as int));
                        lemma_pending_after_drop(links@, order@, before, d as int);
                    }
                }
            } else {
                proof {
                    lemma_pending_after_outlet(links@, order@, before);
                }
            }
        } else {
            proof {
                lemma_pending_after_outlet(links@, order@, before);
            }
        }
        proof {
            assert(stack_weight(rank, before) == stack_weight(rank, before.drop_last()) + rank[u as int] + 1);
        }
    }
    proof {
        assert forall|y: int|
            0 <= y < n && #[trigger] all_known(order@, links@[y].upstream@) implies order@[y] is Some by {
            if order@[y] is None {
                let j = choose|j: int| 0 <= j < stack@.len() && links@[y].upstream@.contains(#[trigger] stack@[j]);
            }
        }
    }
    proof {
        assert forall|x: int| 0 <= x < n implies #[trigger] order@[x] is Some by {
            lemma_all_settled(links@, rank, order@, x);
        }
    }
    let mut r: Vec<u32> = Vec::new();
    let mut i: usize = 0;
    while i < n
        invariant
            n == links@.len(),
            order@.len() == n,
            forall|x: int| 0 <= x < n ==> #[trigger] order@[x] is Some,
            i <= n,
            r@ == known(order@).take(i as int),
        decreases n - i,
    {
        let v = match order[i] {
            Some(v) => v,
            None => 1,
        };
        r.push(v);
        proof {
            assert(known(order@)[i as int] == v);
            assert(r@ =~= known(order@).take(i as int + 1));
        }
        i = i + 1;
    }
    proof {
        assert(r@ =~= known(order@));
        assert forall|x: int| 0 <= x < n implies #[trigger] r@[x] as int == strahler_rule(
            tributary_orders(r@, links@[x].upstream@),
        ) by {
            lemma_all_settled(links@, rank, order@, x);
        }
    }
    r
}

proof fn lemma_tributaries_members(downstream: Seq<Option<usize>>, target: int, count: int)
    requires
        0 <= count <= downstream.len(),
        downstream.len() <= usize::MAX,
    ensures
        forall|k: int|
            0 <= k < tributaries_upto(downstream, target, count).len() ==> {
                let u = #[trigger] tributaries_upto(downstream, target, count)[k];
                &&& u < count
                &&& downstream[u as int] matches Some(t) && t as int == target
            },
        forall|u: int|
            0 <= u < count && (downstream[u] matches Some(t) && t as int == target) ==> #[trigger] tributaries_upto(
                downstream,
                target,
                count,
            ).contains(u as usize),
    decreases count,
{
    if count > 0 {
        lemma_tributaries_members(downstream, target, count - 1);
        let rest = tributaries_upto(downstream, target, count - 1);
        let all = tributaries_upto(downstream, target, count);
        assert forall|k: int| 0 <= k < all.len() implies {
            let u = #[trigger] all[k];
            &&& u < count
            &&& downstream[u as int] matches Some(t) && t as int == target
        } by {
            match downstream[count - 1] {
                Some(t) if t as int == target => {
                    assert(all == rest.push((count - 1) as usize));
                    if k < rest.len() {
                        assert(all[k] == rest[k]);
                    }
                },
                _ => {
                    assert(all == rest);
                },
            }
        }
        assert forall|u: int|
            0 <= u < count && (downstream[u] matches Some(t) && t as int == target) implies #[trigger] all.contains(u as usize) by {
            if u < count - 1 {
                assert(rest.contains(u as usize));
                let k = choose|k: int| 0 <= k < rest.len() && rest[k] == u as usize;
                assert(all[k] == rest[k]);
            } else {
                assert(all[all.len() - 1] == u as usize);
            }
        }
    }
}

/// Tributary lists built from the downstream links, as `upstream_links`
/// builds them, make a consistent network.
pub proof fn law_upstream_links_consistent(links: Seq<RiverLink>)
    requires
        links.len() <= usize::MAX,
        forall|i: int|
            0 <= i < links.len() ==> #[trigger] links[i].upstream@ == tributaries_upto(
                links.map_values(|l: RiverLink| l.downstream),
                i,
                links.len() as int,
            ),
    ensures
        links_consistent(links),
{
    let ds = links.map_values(|l: RiverLink| l.downstream);
    let n = links.len() as int;
    assert forall|d: int, k: int| 0 <= d < n && 0 <= k < links[d].upstream@.len() implies {
        let u = #[trigger] links[d].upstream@[k];
        u < links.len() && drains_into(links, u as int, d)
    } by {
        lemma_tributaries_members(ds, d, n);
        assert(links[d].upstream@ == tributaries_upto(ds, d, n));
    }
    assert forall|u: int, d: int|
        0 <= u < n && 0 <= d < n && #[trigger] drains_into(links, u, d) implies links[d].upstream@.contains(
        u as usize,
    ) by {
        lemma_tributaries_members(ds, d, n);
        assert(links[d].upstream@ == tributaries_upto(ds, d, n));
        assert(ds[u] == links[u].downstream);
    }
}

proof fn lemma_orders_agree(links: Seq<RiverLink>, rank: Seq<nat>, a: Seq<u32>, b: Seq<u32>, x: int)
    requires
        links_consistent(links),
        ranked_within(links, rank),
        a.len() == links.len(),
        b.len() == links.len(),
        forall|i: int|
            0 <= i < links.len() ==> #[trigger] a[i] as int == strahler_rule(
                tributary_orders(a, links[i].upstream@),
            ),
        forall|i: int|
            0 <= i < links.len() ==> #[trigger] b[i] as int == strahler_rule(
                tributary_orders(b, links[i].upstream@),
            ),
        0 <= x < links.len(),
    ensures
        a[x] == b[x],
    decreases links.len() - rank[x],
{
    let ups = links[x].upstream@;
    assert forall|k: int| 0 <= k < ups.len() implies a[ups[k] as int] == b[ups[k] as int] by {
        let u = ups[k];
        assert(u < links.len() && drains_into(links, u as int, x));
        lemma_orders_agree(links, rank, a, b, u as int);
    }
    assert(tributary_orders(a, ups) =~= tributary_orders(b, ups));
    assert(a[x] as int == strahler_rule(tributary_orders(a, ups)));
    assert(b[x] as int == strahler_rule(tributary_orders(b, ups)));
}

/// Strahler's rule fixes the orders of a consistent, acyclic network: two
/// assignments that both obey it at every segment are the same.
pub proof fn law_strahler_orders_unique(links: Seq<RiverLink>, a: Seq<u32>, b: Seq<u32>)
    requires
        links_consistent(links),
        links_acyclic(links),
        a.len() == links.len(),
        b.len() == links.len(),
        forall|i: int|
            0 <= i < links.len() ==> #[trigger] a[i] as int == strahler_rule(
                tributary_orders(a, links[i].upstream@),
            ),
        forall|i: int|
            0 <= i < links.len() ==> #[trigger] b[i] as int == strahler_rule(
                tributary_orders(b, links[i].upstream@),
            ),
    ensures
        a == b,
{
    let rank0 = choose|rank: Seq<nat>| ranked_downhill(links, rank);
    lemma_compact_rank(links, rank0);
    let rank = compact_rank(rank0);
    assert forall|x: int| 0 <= x < links.len() implies a[x] == b[x] by {
        lemma_orders_agree(links, rank, a, b, x);
    }
    assert(a =~= b);
}

proof fn lemma_seq_max_bounds(vals: Seq<u32>)
    ensures
        forall|k: int| 0 <= k < vals.len() ==> #[trigger] vals[k] <= seq_max(vals),
    decreases vals.len(),
{
    if vals.len() > 0 {
        lemma_seq_max_bounds(vals.drop_last());
        assert forall|k: int| 0 <= k < vals.len() implies #[trigger] vals[k] <= seq_max(vals) by {
            if k < vals.len() - 1 {
                assert(vals[k] == vals.drop_last()[k]);
            }
        }
    }
}

proof fn lemma_orders_positive(links: Seq<RiverLink>, rank: Seq<nat>, orders: Seq<u32>, x: int)
    requires
        links_consistent(links),
        ranked_within(links, rank),
        orders.len() == links.len(),
        forall|i: int|
            0 <= i < links.len() ==> #[trigger] orders[i] as int == strahler_rule(
                tributary_orders(orders, links[i].upstream@),
            ),
        0 <= x < links.len(),
    ensures
        orders[x] >= 1,
    decreases links.len() - rank[x],
{
    let ups = links[x].upstream@;
    let vals = tributary_orders(orders, ups);
    assert(orders[x] as int == strahler_rule(vals));
    if ups.len() > 0 {
        let u = ups[0];
        assert(u < links.len() && drains_into(links, u as int, x));
        lemma_orders_positive(links, rank, orders, u as int);
        lemma_seq_max_bounds(vals);
        assert(vals[0] == orders[u as int]);
    }
}

/// Strahler orders never fall downstream: on a consistent, acyclic network
/// every order obeying Strahler's rule is at least 1 and at least the order
/// of every segment that drains into it.
pub proof fn law_strahler_orders_grow_downstream(links: Seq<RiverLink>, orders: Seq<u32>, u: int, d: int)
    requires
        links.len() <= usize::MAX,
        links_consistent(links),
        links_acyclic(links),
        orders.len() == links.len(),
        forall|i: int|
            0 <= i < links.len() ==> #[trigger] orders[i] as int == strahler_rule(
                tributary_orders(orders, links[i].upstream@),
            ),
        0 <= u < links.len(),
        0 <= d < links.len(),
    ensures
        orders[d] >= 1,
        drains_into(links, u, d) ==> orders[u] <= orders[d],
{
    let rank0 = choose|rank: Seq<nat>| ranked_downhill(links, rank);
    lemma_compact_rank(links, rank0);
    lemma_orders_positive(links, compact_rank(rank0), orders, d);
    if drains_into(links, u, d) {
        let ups = links[d].upstream@;
        let vals = tributary_orders(orders, ups);
        assert(ups.contains(u as usize));
        let k = choose|k: int| 0 <= k < ups.len() && ups[k] == u as usize;
        lemma_seq_max_bounds(vals);
        assert(vals[k] == orders[u]);
        assert(orders[d] as int == strahler_rule(vals));
    }
}

} // verus!
