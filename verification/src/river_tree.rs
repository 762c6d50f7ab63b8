//! Tracing the river network out of a D8 flow field: which cells carry a
//! river, where segments start, how far each segment runs downstream, and
//! how the segments link up.
use crate::flow::{receiver_index, receiver_of, NO_FLOW};
use crate::rivers::{
    drains_into, law_upstream_links_consistent, links_acyclic, links_consistent, ranked_downhill,
    tributaries_upto, upstream_links, RiverLink,
};
use vstd::prelude::*;

verus! {

/// The flow field a river tree is traced from: a D8 direction and a drainage
/// count per cell of a `width` by `height` grid laid out row by row, whether
/// each cell lies below sea level, and the drainage a cell needs to carry a
/// river.
pub open spec fn flow_ok(flow: Seq<u8>, acc: Seq<u32>, sea: Seq<bool>, width: int, height: int) -> bool {
    &&& 0 <= width <= 0x4000_0000
    &&& 0 <= height <= i32::MAX
    &&& width * height <= usize::MAX
    &&& flow.len() >= width * height
    &&& acc.len() >= width * height
    &&& sea.len() >= width * height
    &&& forall|i: int| 0 <= i < width * height ==> #[trigger] flow[i] < 8 || flow[i] == NO_FLOW
}

/// Cell `i` drains into cell `c`, both carrying a river.
pub open spec fn feeds(
    flow: Seq<u8>,
    acc: Seq<u32>,
    min_acc: u32,
    width: int,
    height: int,
    i: int,
    c: int,
) -> bool {
    &&& acc[i] >= min_acc
    &&& flow[i] != NO_FLOW
    &&& receiver_of(i, flow[i] as int, width, height) == Some(c)
    &&& acc[c] >= min_acc
}

/// How many of the first `k` cells feed river cell `c`.
pub open spec fn inflow_upto(
    flow: Seq<u8>,
    acc: Seq<u32>,
    min_acc: u32,
    width: int,
    height: int,
    c: int,
    k: int,
) -> int
    decreases k,
{
    if k <= 0 {
        0
    } else {
        inflow_upto(flow, acc, min_acc, width, height, c, k - 1) + if feeds(
            flow,
            acc,
            min_acc,
            width,
            height,
            k - 1,
            c,
        ) {
            1int
        } else {
            0int
        }
    }
}

/// River inflow of every cell: how many river cells drain into it.
pub open spec fn inflows(flow: Seq<u8>, acc: Seq<u32>, min_acc: u32, width: int, height: int) -> Seq<
    int,
> {
    Seq::new(
        (width * height) as nat,
        |c: int| inflow_upto(flow, acc, min_acc, width, height, c, width * height),
    )
}

proof fn lemma_inflow_bound(
    flow: Seq<u8>,
    acc: Seq<u32>,
    min_acc: u32,
    width: int,
    height: int,
    c: int,
    k: int,
)
    requires
        k >= 0,
    ensures
        0 <= inflow_upto(flow, acc, min_acc, width, height, c, k) <= k,
    decreases k,
{
    if k > 0 {
        lemma_inflow_bound(flow, acc, min_acc, width, height, c, k - 1);
    }
}

/// River inflow of every cell, as `inflows` states.
fn count_inflows(
    flow_dir: &[u8],
    accumulation: &[u32],
    width: usize,
    height: usize,
    min_accumulation: u32,
) -> (r: Vec<usize>)
    requires
        1 <= width <= 0x4000_0000,
        height <= i32::MAX,
        width * height <= usize::MAX,
        flow_dir@.len() >= width * height,
        accumulation@.len() >= width * height,
        forall|i: int| 0 <= i < width * height ==> #[trigger] flow_dir@[i] < 8 || flow_dir@[i] == NO_FLOW,
    ensures
        r@.len() == width * height,
        forall|c: int|
            0 <= c < width * height ==> #[trigger] r@[c] as int == inflows(
                flow_dir@,
                accumulation@,
                min_accumulation,
                width as int,
                height as int,
            )[c],
{
    let total = width * height;
    let ghost g_flow = flow_dir@;
    let ghost g_acc = accumulation@;
    let mut inflow: Vec<usize> = Vec::new();
    let mut c: usize = 0;
    while c < total
        invariant
            c <= total,
            inflow@.len() == c,
            forall|j: int| 0 <= j < c ==> #[trigger] inflow@[j] == 0,
        decreases total - c,
    {
        inflow.push(0);
        c = c + 1;
    }
    let mut idx: usize = 0;
    while idx < total
        invariant
            total == width * height,
            1 <= width <= 0x4000_0000,
            height <= i32::MAX,
            g_flow == flow_dir@,
            g_acc == accumulation@,
            flow_dir@.len() >= total,
            accumulation@.len() >= total,
            forall|i: int| 0 <= i < total ==> #[trigger] flow_dir@[i] < 8 || flow_dir@[i] == NO_FLOW,
            idx <= total,
            inflow@.len() == total,
            forall|j: int|
                0 <= j < total ==> #[trigger] inflow@[j] as int == inflow_upto(
                    g_flow,
                    g_acc,
                    min_accumulation,
                    width as int,
                    height as int,
                    j,
                    idx as int,
                ),
        decreases total - idx,
    {
        proof {
            assert((height as int) * (width as int) == total) by (nonlinear_arith)
                requires
                    total == width * height,
            ;
            assert(idx / width < height) by {
                vstd::arithmetic::div_mod::lemma_multiply_divide_lt(
                    idx as int,
                    width as int,
                    height as int,
                );
            }
            assert forall|j: int| 0 <= j < total implies #[trigger] inflow@[j] <= idx by {
                lemma_inflow_bound(g_flow, g_acc, min_accumulation, width as int, height as int, j, idx as int);
            }
        }
        let ghost prev = inflow@;
        let dir = flow_dir[idx];
        if accumulation[idx] >= min_accumulation && dir != NO_FLOW {
            match receiver_index(idx, dir, width, height) {
                Some(target) => {
                    proof {
                        crate::flow::law_receiver_in_grid(idx as int, dir as int, width as int, height as int);
                    }
                    if accumulation[target] >= min_accumulation {
                        let bumped = inflow[target] + 1;
                        inflow.set(target, bumped);
                    }
                },
                None => {},
            }
        }
        proof {
            assert forall|j: int| 0 <= j < total implies #[trigger] inflow@[j] as int == inflow_upto(
                g_flow,
                g_acc,
                min_accumulation,
                width as int,
                height as int,
                j,
                idx as int + 1,
            ) by {
                assert(prev[j] as int == inflow_upto(
                    g_flow,
                    g_acc,
                    min_accumulation,
                    width as int,
                    height as int,
                    j,
                    idx as int,
                ));
            }
        }
        idx = idx + 1;
    }
    inflow
}

proof fn lemma_row_in_grid(idx: int, width: int, height: int)
    requires
        0 <= idx < width * height,
        width >= 1,
    ensures
        idx / width < height,
        (height as int) * (width as int) == width * height,
{
    assert(height * width == width * height) by (nonlinear_arith);
    vstd::arithmetic::div_mod::lemma_multiply_divide_lt(idx, width, height);
}

/// Cell `i` starts a segment: it carries a river and is a headwater (no
/// river inflow) or a confluence (two or more).
pub open spec fn is_start(acc: Seq<u32>, min_acc: u32, inflow: Seq<int>, i: int) -> bool {
    acc[i] >= min_acc && (inflow[i] == 0 || inflow[i] >= 2)
}

/// The segment starts among the first `k` cells, in index order.
pub open spec fn starts_upto(acc: Seq<u32>, min_acc: u32, inflow: Seq<int>, k: int) -> Seq<usize>
    decreases k,
{
    if k <= 0 {
        Seq::empty()
    } else {
        let rest = starts_upto(acc, min_acc, inflow, k - 1);
        if is_start(acc, min_acc, inflow, k - 1) {
            rest.push((k - 1) as usize)
        } else {
            rest
        }
    }
}

/// The segment starts among the first `total` cells, as `starts_upto`
/// states.
fn segment_starts(
    accumulation: &[u32],
    inflow: &Vec<usize>,
    total: usize,
    min_accumulation: u32,
    Ghost(infl): Ghost<Seq<int>>,
) -> (r: Vec<usize>)
    requires
        accumulation@.len() >= total,
        inflow@.len() == total,
        infl.len() == total,
        forall|c: int| 0 <= c < total ==> #[trigger] inflow@[c] as int == infl[c],
    ensures
        r@ == starts_upto(accumulation@, min_accumulation, infl, total as int),
{
    let mut starts: Vec<usize> = Vec::new();
    let mut idx: usize = 0;
    while idx < total
        invariant
            accumulation@.len() >= total,
            inflow@.len() == total,
            forall|c: int| 0 <= c < total ==> #[trigger] inflow@[c] as int == infl[c],
            idx <= total,
            starts@ == starts_upto(accumulation@, min_accumulation, infl, idx as int),
        decreases total - idx,
    {
        if accumulation[idx] >= min_accumulation && (inflow[idx] == 0 || inflow[idx] >= 2) {
            starts.push(idx);
        }
        idx = idx + 1;
    }
    starts
}

/// `rank` gives every cell a level below the cell count that falls strictly
/// from each cell to the cell it drains into.
pub open spec fn flow_ranked(flow: Seq<u8>, width: int, height: int, rank: Seq<nat>) -> bool {
    &&& rank.len() == width * height
    &&& forall|i: int| 0 <= i < width * height ==> #[trigger] rank[i] < width * height
    &&& forall|i: int|
        0 <= i < width * height ==> (#[trigger] receiver_of(i, flow[i] as int, width, height) matches Some(
            j,
        ) ==> rank[j] < rank[i])
}

/// Following the flow from any cell never comes back to it.
pub open spec fn flow_acyclic(flow: Seq<u8>, width: int, height: int) -> bool {
    exists|rank: Seq<nat>| flow_ranked(flow, width, height, rank)
}

/// The cells a segment that starts at `start` runs through, from `cur` on:
/// it stops before a cell already claimed by an earlier segment or a
/// confluence, and after a cell below sea level, a cell that drains nowhere
/// or a cell whose flow leaves the grid.
pub open spec fn walk(
    flow: Seq<u8>,
    inflow: Seq<int>,
    sea: Seq<bool>,
    claimed: Seq<Option<usize>>,
    width: int,
    height: int,
    start: int,
    cur: int,
    fuel: nat,
) -> Seq<usize>
    decreases fuel,
{
    if fuel == 0 {
        Seq::empty()
    } else if cur != start && (claimed[cur] is Some || inflow[cur] >= 2) {
        Seq::empty()
    } else if sea[cur] || flow[cur] == NO_FLOW {
        seq![cur as usize]
    } else {
        match receiver_of(cur, flow[cur] as int, width, height) {
            Some(next) => seq![cur as usize] + walk(
                flow,
                inflow,
                sea,
                claimed,
                width,
                height,
                start,
                next,
                (fuel - 1) as nat,
            ),
            None => seq![cur as usize],
        }
    }
}

/// The cells of the segment that starts at `start`, as `walk` states with
/// enough fuel to reach the end of any path.
fn trace_segment(
    flow_dir: &[u8],
    below_sea: &[bool],
    inflow: &Vec<usize>,
    claimed: &Vec<Option<usize>>,
    width: usize,
    height: usize,
    start: usize,
    Ghost(infl): Ghost<Seq<int>>,
    Ghost(rank): Ghost<Seq<nat>>,
) -> (r: Vec<usize>)
    requires
        1 <= width <= 0x4000_0000,
        height <= i32::MAX,
        width * height <= usize::MAX,
        flow_dir@.len() >= width * height,
        below_sea@.len() >= width * height,
        forall|i: int| 0 <= i < width * height ==> #[trigger] flow_dir@[i] < 8 || flow_dir@[i] == NO_FLOW,
        inflow@.len() == width * height,
        claimed@.len() == width * height,
        infl.len() == width * height,
        forall|c: int| 0 <= c < width * height ==> #[trigger] inflow@[c] as int == infl[c],
        flow_ranked(flow_dir@, width as int, height as int, rank),
        start < width * height,
    ensures
        r@ == walk(
            flow_dir@,
            infl,
            below_sea@,
            claimed@,
            width as int,
            height as int,
            start as int,
            start as int,
            (width * height + 1) as nat,
        ),
{
    let total = width * height;
    let ghost fuel0 = (total + 1) as nat;
    let ghost target = walk(
        flow_dir@,
        infl,
        below_sea@,
        claimed@,
        width as int,
        height as int,
        start as int,
        start as int,
        fuel0,
    );
    let mut path: Vec<usize> = Vec::new();
    let mut current = start;
    loop
        invariant_except_break
            total == width * height,
            1 <= width <= 0x4000_0000,
            height <= i32::MAX,
            flow_dir@.len() >= total,
            below_sea@.len() >= total,
            forall|i: int| 0 <= i < total ==> #[trigger] flow_dir@[i] < 8 || flow_dir@[i] == NO_FLOW,
            inflow@.len() == total,
            claimed@.len() == total,
            infl.len() == total,
            forall|c: int| 0 <= c < total ==> #[trigger] inflow@[c] as int == infl[c],
            flow_ranked(flow_dir@, width as int, height as int, rank),
            fuel0 == total + 1,
            start < total,
            current < total,
            path@.len() + rank[current as int] <= rank[start as int],
            path@.len() > 0 ==> current != start,
            path@ + walk(
                flow_dir@,
                infl,
                below_sea@,
                claimed@,
                width as int,
                height as int,
                start as int,
                current as int,
                (fuel0 - path@.len()) as nat,
            ) == target,
        ensures
            path@ == target,
        decreases rank[current as int],
    {
        let ghost fuel = (fuel0 - path@.len()) as nat;
        proof {
            assert(rank[start as int] < total);
            assert(path@.len() <= rank[start as int]);
            assert(fuel0 == total + 1);
            assert(fuel == fuel0 - path@.len());
            assert(fuel >= 2);
        }
        if current != start && claimed[current].is_some() {
            proof {
                assert(path@ + Seq::<usize>::empty() =~= path@);
            }
            break;
        }
        if current != start && inflow[current] >= 2 {
            proof {
                assert(path@ + Seq::<usize>::empty() =~= path@);
            }
            break;
        }
        let ghost before = path@;
        path.push(current);
        proof {
            assert(path@ =~= before + seq![current]);
        }
        if below_sea[current] {
            break;
        }
        let dir = flow_dir[current];
        if dir == NO_FLOW {
            break;
        }
        proof {
            lemma_row_in_grid(current as int, width as int, height as int);
        }
        match receiver_index(current, dir, width, height) {
            None => {
                break;
            },
            Some(next) => {
                proof {
                    crate::flow::law_receiver_in_grid(current as int, dir as int, width as int, height as int);
                    assert(rank[next as int] < rank[current as int]);
                    assert(before + walk(
                        flow_dir@,
                        infl,
                        below_sea@,
                        claimed@,
                        width as int,
                        height as int,
                        start as int,
                        current as int,
                        fuel,
                    ) == target);
                    assert((before + seq![current]) + walk(
                        flow_dir@,
                        infl,
                        below_sea@,
                        claimed@,
                        width as int,
                        height as int,
                        start as int,
                        next as int,
                        (fuel - 1) as nat,
                    ) =~= before + (seq![current] + walk(
                        flow_dir@,
                        infl,
                        below_sea@,
                        claimed@,
                        width as int,
                        height as int,
                        start as int,
                        next as int,
                        (fuel - 1) as nat,
                    )));
                }
                current = next;
            },
        }
    }
    path
}

proof fn lemma_walk_in_grid(
    flow: Seq<u8>,
    inflow: Seq<int>,
    sea: Seq<bool>,
    claimed: Seq<Option<usize>>,
    width: int,
    height: int,
    start: int,
    cur: int,
    fuel: nat,
)
    requires
        width >= 1,
        height >= 0,
        width * height <= usize::MAX,
        flow.len() >= width * height,
        forall|i: int| 0 <= i < width * height ==> #[trigger] flow[i] < 8 || flow[i] == NO_FLOW,
        0 <= cur < width * height,
    ensures
        forall|k: int|
            0 <= k < walk(flow, inflow, sea, claimed, width, height, start, cur, fuel).len()
                ==> #[trigger] walk(flow, inflow, sea, claimed, width, height, start, cur, fuel)[k]
                < width * height,
    decreases fuel,
{
    if fuel > 0 && !(cur != start && (claimed[cur] is Some || inflow[cur] >= 2)) && !(sea[cur]
        || flow[cur] == NO_FLOW) {
        match receiver_of(cur, flow[cur] as int, width, height) {
            Some(next) => {
                crate::flow::law_receiver_in_grid(cur, flow[cur] as int, width, height);
                lemma_walk_in_grid(flow, inflow, sea, claimed, width, height, start, next, (fuel - 1) as nat);
                let rest = walk(flow, inflow, sea, claimed, width, height, start, next, (fuel - 1) as nat);
                let all = walk(flow, inflow, sea, claimed, width, height, start, cur, fuel);
                assert(all == seq![cur as usize] + rest);
                assert forall|k: int| 0 <= k < all.len() implies #[trigger] all[k] < width * height by {
                    if k > 0 {
                        assert(all[k] == rest[k - 1]);
                    }
                }
            },
            None => {},
        }
    }
}

/// `claimed` after segment `id` claims the cells of `path` that no earlier
/// segment claimed.
pub open spec fn claim(claimed: Seq<Option<usize>>, path: Seq<usize>, id: int) -> Seq<Option<usize>> {
    Seq::new(
        claimed.len(),
        |c: int|
            if claimed[c] is None && path.contains(c as usize) {
                Some(id as usize)
            } else {
                claimed[c]
            },
    )
}

/// Which segment claims each cell, and the cells of each segment, after the
/// first `k` of `starts` have been traced in order: a start that an earlier
/// segment already claimed is skipped unless it is a confluence, and a
/// segment of fewer than two cells is dropped.
pub open spec fn tree_upto(
    flow: Seq<u8>,
    acc: Seq<u32>,
    min_acc: u32,
    sea: Seq<bool>,
    width: int,
    height: int,
    starts: Seq<usize>,
    k: int,
) -> (Seq<Option<usize>>, Seq<Seq<usize>>)
    decreases k,
{
    if k <= 0 {
        (Seq::new((width * height) as nat, |c: int| None), Seq::empty())
    } else {
        let prev = tree_upto(flow, acc, min_acc, sea, width, height, starts, k - 1);
        let s = starts[k - 1] as int;
        let infl = inflows(flow, acc, min_acc, width, height);
        if prev.0[s] is Some && infl[s] == 0 {
            prev
        } else {
            let path = walk(
                flow,
                infl,
                sea,
                prev.0,
                width,
                height,
                s,
                s,
                (width * height + 1) as nat,
            );
            if path.len() < 2 {
                prev
            } else {
                (claim(prev.0, path, prev.1.len() as int), prev.1.push(path))
            }
        }
    }
}

/// Cell claims and segment cells of the whole river tree.
pub open spec fn river_paths(
    flow: Seq<u8>,
    acc: Seq<u32>,
    min_acc: u32,
    sea: Seq<bool>,
    width: int,
    height: int,
) -> (Seq<Option<usize>>, Seq<Seq<usize>>) {
    let starts = starts_upto(acc, min_acc, inflows(flow, acc, min_acc, width, height), width * height);
    tree_upto(flow, acc, min_acc, sea, width, height, starts, starts.len() as int)
}

/// The segment that segment `i`, whose cells are `path`, drains into: the
/// one that claimed the cell its last cell flows to, unless that is `i`
/// itself.
pub open spec fn downstream_of(
    flow: Seq<u8>,
    width: int,
    height: int,
    claimed: Seq<Option<usize>>,
    path: Seq<usize>,
    i: int,
) -> Option<usize> {
    let last = path.last() as int;
    match receiver_of(last, flow[last] as int, width, height) {
        Some(next) => match claimed[next] {
            Some(ds) => if ds as int != i {
                Some(ds)
            } else {
                None
            },
            None => None,
        },
        None => None,
    }
}

/// The traced river network: the cells of every segment, from its upstream
/// end to its downstream end, and the links between segments.
pub struct RiverTree {
    pub paths: Vec<Vec<usize>>,
    pub links: Vec<RiverLink>,
}

fn claim_cells(claimed: &mut Vec<Option<usize>>, path: &Vec<usize>, id: usize)
    requires
        forall|k: int| 0 <= k < path@.len() ==> #[trigger] path@[k] < old(claimed)@.len(),
    ensures
        final(claimed)@ == claim(old(claimed)@, path@, id as int),
{
    let ghost start = claimed@;
    let n = claimed.len();
    let mut k: usize = 0;
    while k < path.len()
        invariant
            n == start.len(),
            forall|j: int| 0 <= j < path@.len() ==> #[trigger] path@[j] < start.len(),
            k <= path@.len(),
            claimed@ == claim(start, path@.take(k as int), id as int),
        decreases path@.len() - k,
    {
        let cell = path[k];
        let ghost before = claimed@;
        if claimed[cell].is_none() {
            claimed.set(cell, Some(id));
        }
        proof {
            let now = path@.take(k as int + 1);
            let was = path@.take(k as int);
            assert forall|c: int| 0 <= c < start.len() implies #[trigger] claimed@[c] == claim(
                start,
                now,
                id as int,
            )[c] by {
                if c == cell as int {
                    assert(now[k as int] == cell);
                    assert(now.contains(cell));
                } else {
                    if now.contains(c as usize) {
                        let j = choose|j: int| 0 <= j < now.len() && now[j] == c as usize;
                        if j < k {
                            assert(was[j] == now[j]);
                            assert(was.contains(c as usize));
                        }
                    }
                    if was.contains(c as usize) {
                        let j = choose|j: int| 0 <= j < was.len() && was[j] == c as usize;
                        assert(now[j] == was[j]);
                    }
                }
            }
            assert(claimed@ =~= claim(start, now, id as int));
        }
        k = k + 1;
    }
    proof {
        assert(path@.take(path@.len() as int) =~= path@);
    }
}

proof fn lemma_starts_in_range(acc: Seq<u32>, min_acc: u32, inflow: Seq<int>, k: int)
    requires
        0 <= k <= usize::MAX + 1,
    ensures
        starts_upto(acc, min_acc, inflow, k).len() <= k,
        forall|j: int|
            0 <= j < starts_upto(acc, min_acc, inflow, k).len() ==> #[trigger] starts_upto(
                acc,
                min_acc,
                inflow,
                k,
            )[j] < k,
    decreases k,
{
    if k > 0 {
        lemma_starts_in_range(acc, min_acc, inflow, k - 1);
        let rest = starts_upto(acc, min_acc, inflow, k - 1);
        let all = starts_upto(acc, min_acc, inflow, k);
        assert forall|j: int| 0 <= j < all.len() implies #[trigger] all[j] < k by {
            if j < rest.len() {
                assert(all[j] == rest[j]);
            }
        }
    }
}

/// `r` is the river tree traced from the flow field: the segments of
/// `river_paths`, each draining the accumulation of its last cell, linked
/// downstream as `downstream_of` states and upstream as the inverse of
/// those links.
pub open spec fn river_tree_is(
    r: RiverTree,
    flow: Seq<u8>,
    acc: Seq<u32>,
    min_acc: u32,
    sea: Seq<bool>,
    width: int,
    height: int,
) -> bool {
    let t = river_paths(flow, acc, min_acc, sea, width, height);
    let n = t.1.len();
    let ds = Seq::new(n, |j: int| downstream_of(flow, width, height, t.0, t.1[j], j));
    &&& r.paths@.len() == n
    &&& r.links@.len() == n
    &&& forall|i: int| 0 <= i < n ==> #[trigger] r.paths@[i]@ == t.1[i]
    &&& forall|i: int|
        0 <= i < n ==> {
            let link = #[trigger] r.links@[i];
            &&& link.drainage_area == acc[t.1[i].last() as int]
            &&& link.downstream == ds[i]
            &&& link.upstream@ == tributaries_upto(ds, i, n as int)
        }
}

/// Traces the river network of a flow field. Cells whose accumulation
/// reaches `min_accumulation` carry a river; segments start at headwaters
/// and confluences, run downstream until they meet an earlier segment, a
/// confluence, the sea, a sink or the grid's top or bottom edge, and link to
/// the segment they flow into.
pub fn build_river_tree(
    flow_dir: &[u8],
    accumulation: &[u32],
    below_sea: &[bool],
    width: usize,
    height: usize,
    min_accumulation: u32,
) -> (r: RiverTree)
    requires
        flow_ok(flow_dir@, accumulation@, below_sea@, width as int, height as int),
        flow_acyclic(flow_dir@, width as int, height as int),
    ensures
        river_tree_is(
            r,
            flow_dir@,
            accumulation@,
            min_accumulation,
            below_sea@,
            width as int,
            height as int,
        ),
{
    let total = width * height;
    let ghost g_flow = flow_dir@;
    let ghost g_acc = accumulation@;
    let ghost g_sea = below_sea@;
    let ghost infl = inflows(g_flow, g_acc, min_accumulation, width as int, height as int);
    let ghost all_starts = starts_upto(g_acc, min_accumulation, infl, total as int);
    if total == 0 {
        proof {
            assert(all_starts.len() == 0);
        }
        return RiverTree { paths: Vec::new(), links: Vec::new() };
    }
    proof {
        assert(width >= 1) by (nonlinear_arith)
            requires
                total == width * height,
                total > 0,
        ;
    }
    let ghost rank = choose|rank: Seq<nat>| flow_ranked(g_flow, width as int, height as int, rank);
    let inflow = count_inflows(flow_dir, accumulation, width, height, min_accumulation);
    let starts = segment_starts(accumulation, &inflow, total, min_accumulation, Ghost(infl));
    proof {
        lemma_starts_in_range(g_acc, min_accumulation, infl, total as int);
    }
    let mut claimed: Vec<Option<usize>> = Vec::new();
    let mut c: usize = 0;
    while c < total
        invariant
            c <= total,
            claimed@ =~= Seq::new(c as nat, |j: int| None::<usize>),
        decreases total - c,
    {
        claimed.push(None);
        c = c + 1;
    }
    let mut paths: Vec<Vec<usize>> = Vec::new();
    let mut drains: Vec<u32> = Vec::new();
    let mut k: usize = 0;
    while k < starts.len()
        invariant
            total == width * height,
            total > 0,
            1 <= width <= 0x4000_0000,
            height <= i32::MAX,
            g_flow == flow_dir@,
            g_acc == accumulation@,
            g_sea == below_sea@,
            flow_ok(g_flow, g_acc, g_sea, width as int, height as int),
            flow_ranked(g_flow, width as int, height as int, rank),
            infl == inflows(g_flow, g_acc, min_accumulation, width as int, height as int),
            inflow@.len() == total,
            forall|j: int| 0 <= j < total ==> #[trigger] inflow@[j] as int == infl[j],
            starts@ == all_starts,
            forall|j: int| 0 <= j < starts@.len() ==> #[trigger] starts@[j] < total,
            k <= starts@.len(),
            claimed@.len() == total,
            claimed@ == tree_upto(g_flow, g_acc, min_accumulation, g_sea, width as int, height as int, all_starts, k as int).0,
            paths@.len() == tree_upto(g_flow, g_acc, min_accumulation, g_sea, width as int, height as int, all_starts, k as int).1.len(),
            forall|j: int|
                0 <= j < paths@.len() ==> #[trigger] paths@[j]@ == tree_upto(
                    g_flow,
                    g_acc,
                    min_accumulation,
                    g_sea,
                    width as int,
                    height as int,
                    all_starts,
                    k as int,
                ).1[j],
            drains@.len() == paths@.len(),
            forall|j: int|
                0 <= j < paths@.len() ==> #[trigger] drains@[j] == g_acc[paths@[j]@.last() as int],
            forall|j: int|
                0 <= j < paths@.len() ==> (#[trigger] paths@[j]@).len() >= 2 && forall|m: int|
                    0 <= m < paths@[j]@.len() ==> #[trigger] paths@[j]@[m] < total,
        decreases starts@.len() - k,
    {
        let ghost prev = tree_upto(g_flow, g_acc, min_accumulation, g_sea, width as int, height as int, all_starts, k as int);
        let s = starts[k];
        if claimed[s].is_some() && inflow[s] == 0 {
        } else {
            let path = trace_segment(
                flow_dir,
                below_sea,
                &inflow,
                &claimed,
                width,
                height,
                s,
                Ghost(infl),
                Ghost(rank),
            );
            proof {
                lemma_walk_in_grid(
                    g_flow,
                    infl,
                    g_sea,
                    claimed@,
                    width as int,
                    height as int,
                    s as int,
                    s as int,
                    (total + 1) as nat,
                );
            }
            if path.len() >= 2 {
                let id = paths.len();
                let last = path[path.len() - 1];
                drains.push(accumulation[last]);
                claim_cells(&mut claimed, &path, id);
                let ghost old_paths = paths@;
                paths.push(path);
                proof {
                    assert forall|j: int| 0 <= j < paths@.len() implies #[trigger] paths@[j]@ == tree_upto(
                        g_flow,
                        g_acc,
                        min_accumulation,
                        g_sea,
                        width as int,
                        height as int,
                        all_starts,
                        k as int + 1,
                    ).1[j] by {
                        if j < old_paths.len() {
                            assert(paths@[j] == old_paths[j]);
                        }
                    }
                    assert forall|j: int| 0 <= j < paths@.len() implies #[trigger] drains@[j] == g_acc[paths@[j]@.last() as int] by {
                        if j < old_paths.len() {
                            assert(paths@[j] == old_paths[j]);
                        }
                    }
                    assert forall|j: int| 0 <= j < paths@.len() implies (#[trigger] paths@[j]@).len() >= 2 && forall|m: int|
                        0 <= m < paths@[j]@.len() ==> #[trigger] paths@[j]@[m] < total by {
                        if j < old_paths.len() {
                            assert(paths@[j] == old_paths[j]);
                        }
                    }
                }
            }
        }
        k = k + 1;
    }
    let ghost t = river_paths(g_flow, g_acc, min_accumulation, g_sea, width as int, height as int);
    proof {
        assert(t == tree_upto(g_flow, g_acc, min_accumulation, g_sea, width as int, height as int, all_starts, all_starts.len() as int));
    }
    let n = paths.len();
    let ghost ds_spec = Seq::new(n as nat, |j: int| downstream_of(g_flow, width as int, height as int, t.0, t.1[j], j));
    let mut downstream: Vec<Option<usize>> = Vec::new();
    let mut i: usize = 0;
    while i < n
        invariant
            total == width * height,
            1 <= width <= 0x4000_0000,
            height <= i32::MAX,
            g_flow == flow_dir@,
            flow_ok(g_flow, g_acc, g_sea, width as int, height as int),
            n == paths@.len(),
            n == t.1.len(),
            claimed@ == t.0,
            claimed@.len() == total,
            forall|j: int| 0 <= j < n ==> #[trigger] paths@[j]@ == t.1[j],
            forall|j: int|
                0 <= j < paths@.len() ==> (#[trigger] paths@[j]@).len() >= 2 && forall|m: int|
                    0 <= m < paths@[j]@.len() ==> #[trigger] paths@[j]@[m] < total,
            ds_spec == Seq::new(n as nat, |j: int| downstream_of(g_flow, width as int, height as int, t.0, t.1[j], j)),
            i <= n,
            downstream@ == ds_spec.take(i as int),
        decreases n - i,
    {
        let p = &paths[i];
        let last = p[p.len() - 1];
        proof {
            assert(paths@[i as int]@.len() >= 2);
            assert(last < total);
            lemma_row_in_grid(last as int, width as int, height as int);
        }
        let dir = flow_dir[last];
        let mut ds: Option<usize> = None;
        if dir != NO_FLOW {
            match receiver_index(last, dir, width, height) {
                Some(next) => {
                    proof {
                        crate::flow::law_receiver_in_grid(last as int, dir as int, width as int, height as int);
                    }
                    match claimed[next] {
                        Some(d) => {
                            if d != i {
                                ds = Some(d);
                            }
                        },
                        None => {},
                    }
                },
                None => {},
            }
        }
        proof {
            assert(ds == ds_spec[i as int]);
        }
        downstream.push(ds);
        proof {
            assert(downstream@ =~= ds_spec.take(i as int + 1));
        }
        i = i + 1;
    }
    proof {
        assert(downstream@ =~= ds_spec);
    }
    let ups = upstream_links(&downstream);
    let mut links: Vec<RiverLink> = Vec::new();
    let mut i: usize = 0;
    while i < n
        invariant
            n == paths@.len(),
            n == t.1.len(),
            downstream@ == ds_spec,
            ds_spec.len() == n,
            ups@.len() == n,
            forall|d: int| 0 <= d < n ==> #[trigger] ups@[d]@ == tributaries_upto(ds_spec, d, n as int),
            drains@.len() == n,
            forall|j: int| 0 <= j < n ==> #[trigger] drains@[j] == g_acc[paths@[j]@.last() as int],
            forall|j: int| 0 <= j < n ==> #[trigger] paths@[j]@ == t.1[j],
            i <= n,
            links@.len() == i,
            forall|j: int|
                0 <= j < i ==> {
                    let link = #[trigger] links@[j];
                    &&& link.drainage_area == g_acc[t.1[j].last() as int]
                    &&& link.downstream == ds_spec[j]
                    &&& link.upstream@ == tributaries_upto(ds_spec, j, n as int)
                },
        decreases n - i,
    {
        let upstream = ups[i].clone();
        links.push(RiverLink { downstream: downstream[i], upstream, drainage_area: drains[i] });
        i = i + 1;
    }
    RiverTree { paths, links }
}

proof fn lemma_walk_steps(
    flow: Seq<u8>,
    inflow: Seq<int>,
    sea: Seq<bool>,
    claimed: Seq<Option<usize>>,
    width: int,
    height: int,
    start: int,
    cur: int,
    fuel: nat,
)
    requires
        width >= 1,
        height >= 0,
        width * height <= usize::MAX,
        flow.len() >= width * height,
        forall|i: int| 0 <= i < width * height ==> #[trigger] flow[i] < 8 || flow[i] == NO_FLOW,
        0 <= cur < width * height,
    ensures
        ({
            let w = walk(flow, inflow, sea, claimed, width, height, start, cur, fuel);
            &&& w.len() > 0 ==> w[0] as int == cur
            &&& forall|m: int|
                0 <= m < w.len() - 1 ==> receiver_of(
                    w[m] as int,
                    flow[w[m] as int] as int,
                    width,
                    height,
                ) == Some(#[trigger] w[m + 1] as int)
        }),
    decreases fuel,
{
    let w = walk(flow, inflow, sea, claimed, width, height, start, cur, fuel);
    if fuel > 0 && !(cur != start && (claimed[cur] is Some || inflow[cur] >= 2)) && !(sea[cur]
        || flow[cur] == NO_FLOW) {
        match receiver_of(cur, flow[cur] as int, width, height) {
            Some(next) => {
                crate::flow::law_receiver_in_grid(cur, flow[cur] as int, width, height);
                lemma_walk_steps(flow, inflow, sea, claimed, width, height, start, next, (fuel - 1) as nat);
                let rest = walk(flow, inflow, sea, claimed, width, height, start, next, (fuel - 1) as nat);
                assert(w == seq![cur as usize] + rest);
                assert forall|m: int| 0 <= m < w.len() - 1 implies receiver_of(
                    w[m] as int,
                    flow[w[m] as int] as int,
                    width,
                    height,
                ) == Some(#[trigger] w[m + 1] as int) by {
                    assert(w[m + 1] == rest[m]);
                    if m > 0 {
                        assert(w[m] == rest[m - 1]);
                        let m1 = m - 1;
                        assert(m1 + 1 == m);
                        assert(receiver_of(
                            rest[m1] as int,
                            flow[rest[m1] as int] as int,
                            width,
                            height,
                        ) == Some(rest[m1 + 1] as int));
                    } else {
                        assert(rest[0] as int == next);
                        assert(w[0] as int == cur);
                    }
                }
            },
            None => {},
        }
    }
}

proof fn lemma_tree_paths_follow_flow(
    flow: Seq<u8>,
    acc: Seq<u32>,
    min_acc: u32,
    sea: Seq<bool>,
    width: int,
    height: int,
    starts: Seq<usize>,
    k: int,
)
    requires
        flow_ok(flow, acc, sea, width, height),
        width >= 1,
        0 <= k <= starts.len(),
        forall|j: int| 0 <= j < starts.len() ==> #[trigger] starts[j] < width * height,
    ensures
        ({
            let paths = tree_upto(flow, acc, min_acc, sea, width, height, starts, k).1;
            forall|i: int|
                0 <= i < paths.len() ==> {
                    let p = #[trigger] paths[i];
                    &&& p.len() >= 2
                    &&& exists|j: int| 0 <= j < k && p[0] == starts[j]
                    &&& forall|m: int|
                        0 <= m < p.len() - 1 ==> receiver_of(
                            p[m] as int,
                            flow[p[m] as int] as int,
                            width,
                            height,
                        ) == Some(#[trigger] p[m + 1] as int)
                }
        }),
    decreases k,
{
    if k > 0 {
        lemma_tree_paths_follow_flow(flow, acc, min_acc, sea, width, height, starts, k - 1);
        let prev = tree_upto(flow, acc, min_acc, sea, width, height, starts, k - 1);
        let now = tree_upto(flow, acc, min_acc, sea, width, height, starts, k);
        let s = starts[k - 1] as int;
        let infl = inflows(flow, acc, min_acc, width, height);
        let path = walk(flow, infl, sea, prev.0, width, height, s, s, (width * height + 1) as nat);
        lemma_walk_steps(flow, infl, sea, prev.0, width, height, s, s, (width * height + 1) as nat);
        assert forall|i: int| 0 <= i < now.1.len() implies {
            let p = #[trigger] now.1[i];
            &&& p.len() >= 2
            &&& exists|j: int| 0 <= j < k && p[0] == starts[j]
            &&& forall|m: int|
                0 <= m < p.len() - 1 ==> receiver_of(
                    p[m] as int,
                    flow[p[m] as int] as int,
                    width,
                    height,
                ) == Some(#[trigger] p[m + 1] as int)
        } by {
            if i < prev.1.len() {
                assert(now.1[i] == prev.1[i]);
                let j = choose|j: int| 0 <= j < k - 1 && prev.1[i][0] == starts[j];
            } else {
                assert(now.1[i] == path);
                assert(path[0] == starts[k - 1]);
            }
        }
    }
}

/// Every segment of a traced river tree starts at a segment start, has at
/// least two cells, and runs along the flow: each cell drains into the next.
pub proof fn law_paths_follow_flow(
    flow: Seq<u8>,
    acc: Seq<u32>,
    min_acc: u32,
    sea: Seq<bool>,
    width: int,
    height: int,
    i: int,
    m: int,
)
    requires
        flow_ok(flow, acc, sea, width, height),
        0 <= i < river_paths(flow, acc, min_acc, sea, width, height).1.len(),
        0 <= m < river_paths(flow, acc, min_acc, sea, width, height).1[i].len() - 1,
    ensures
        ({
            let p = river_paths(flow, acc, min_acc, sea, width, height).1[i];
            &&& p.len() >= 2
            &&& is_start(acc, min_acc, inflows(flow, acc, min_acc, width, height), p[0] as int)
            &&& receiver_of(p[m] as int, flow[p[m] as int] as int, width, height) == Some(
                p[m + 1] as int,
            )
        }),
{
    let infl = inflows(flow, acc, min_acc, width, height);
    let total = width * height;
    let starts = starts_upto(acc, min_acc, infl, total);
    if width == 0 {
        assert(total == 0);
        assert(starts.len() == 0);
        assert(false);
    }
    lemma_starts_in_range(acc, min_acc, infl, total);
    lemma_starts_are_starts(acc, min_acc, infl, total);
    lemma_tree_paths_follow_flow(flow, acc, min_acc, sea, width, height, starts, starts.len() as int);
    let p = river_paths(flow, acc, min_acc, sea, width, height).1[i];
    let j = choose|j: int| 0 <= j < starts.len() && p[0] == starts[j];
    assert(is_start(acc, min_acc, infl, starts[j] as int));
}

proof fn lemma_starts_are_starts(acc: Seq<u32>, min_acc: u32, inflow: Seq<int>, k: int)
    requires
        0 <= k <= usize::MAX + 1,
    ensures
        forall|j: int|
            0 <= j < starts_upto(acc, min_acc, inflow, k).len() ==> is_start(
                acc,
                min_acc,
                inflow,
                #[trigger] starts_upto(acc, min_acc, inflow, k)[j] as int,
            ),
    decreases k,
{
    if k > 0 {
        lemma_starts_are_starts(acc, min_acc, inflow, k - 1);
        let rest = starts_upto(acc, min_acc, inflow, k - 1);
        let all = starts_upto(acc, min_acc, inflow, k);
        assert forall|j: int| 0 <= j < all.len() implies is_start(acc, min_acc, inflow, #[trigger] all[j] as int) by {
            if j < rest.len() {
                assert(all[j] == rest[j]);
            }
        }
    }
}

/// The links of a traced river tree are consistent: every tributary list
/// names exactly the segments that drain into it.
pub proof fn law_river_tree_consistent(
    r: RiverTree,
    flow: Seq<u8>,
    acc: Seq<u32>,
    min_acc: u32,
    sea: Seq<bool>,
    width: int,
    height: int,
)
    requires
        r.links@.len() <= usize::MAX,
        river_tree_is(r, flow, acc, min_acc, sea, width, height),
    ensures
        links_consistent(r.links@),
{
    let t = river_paths(flow, acc, min_acc, sea, width, height);
    let n = t.1.len();
    let ds = Seq::new(n, |j: int| downstream_of(flow, width, height, t.0, t.1[j], j));
    let links = r.links@;
    assert(links.map_values(|l: RiverLink| l.downstream) =~= ds);
    law_upstream_links_consistent(links);
}

proof fn lemma_claims_in_paths(
    flow: Seq<u8>,
    acc: Seq<u32>,
    min_acc: u32,
    sea: Seq<bool>,
    width: int,
    height: int,
    starts: Seq<usize>,
    k: int,
)
    requires
        flow_ok(flow, acc, sea, width, height),
        0 <= k <= starts.len(),
        starts.len() <= usize::MAX,
    ensures
        ({
            let t = tree_upto(flow, acc, min_acc, sea, width, height, starts, k);
            &&& t.0.len() == width * height
            &&& t.1.len() <= k
            &&& forall|c: int|
                0 <= c < width * height && (#[trigger] t.0[c] is Some) ==> {
                    let j = t.0[c]->0 as int;
                    &&& j < t.1.len()
                    &&& t.1[j].contains(c as usize)
                }
        }),
    decreases k,
{
    if k > 0 {
        lemma_claims_in_paths(flow, acc, min_acc, sea, width, height, starts, k - 1);
        let prev = tree_upto(flow, acc, min_acc, sea, width, height, starts, k - 1);
        let now = tree_upto(flow, acc, min_acc, sea, width, height, starts, k);
        if now != prev {
            let s = starts[k - 1] as int;
            let infl = inflows(flow, acc, min_acc, width, height);
            let path = walk(flow, infl, sea, prev.0, width, height, s, s, (width * height + 1) as nat);
            assert(now.1 == prev.1.push(path));
            assert forall|c: int| 0 <= c < width * height && (#[trigger] now.0[c] is Some) implies {
                let j = now.0[c]->0 as int;
                &&& j < now.1.len()
                &&& now.1[j].contains(c as usize)
            } by {
                if prev.0[c] is Some {
                    let j = prev.0[c]->0 as int;
                    assert(now.0[c] == prev.0[c]);
                    let m = choose|m: int| 0 <= m < prev.1[j].len() && prev.1[j][m] == c as usize;
                    assert(now.1[j] == prev.1[j]);
                    assert(now.1[j][m] == c as usize);
                } else {
                    assert(now.0[c] == Some(prev.1.len() as usize));
                    assert(now.1[prev.1.len() as int] == path);
                    assert(path.contains(c as usize));
                }
            }
        }
    }
}

proof fn lemma_path_descends(
    flow: Seq<u8>,
    acc: Seq<u32>,
    sea: Seq<bool>,
    width: int,
    height: int,
    crank: Seq<nat>,
    p: Seq<usize>,
    m: int,
)
    requires
        flow_ok(flow, acc, sea, width, height),
        width >= 1,
        flow_ranked(flow, width, height, crank),
        0 <= m < p.len(),
        p[m] < width * height,
        forall|q: int|
            0 <= q < p.len() - 1 ==> receiver_of(p[q] as int, flow[p[q] as int] as int, width, height)
                == Some(#[trigger] p[q + 1] as int),
    ensures
        p.last() < width * height,
        crank[p.last() as int] <= crank[p[m] as int],
    decreases p.len() - m,
{
    if m < p.len() - 1 {
        let c = p[m] as int;
        assert(receiver_of(c, flow[c] as int, width, height) == Some(p[m + 1] as int));
        crate::flow::law_receiver_in_grid(c, flow[c] as int, width, height);
        lemma_path_descends(flow, acc, sea, width, height, crank, p, m + 1);
    }
}

/// The links of a river tree traced from an acyclic flow field are acyclic
/// too: ranking each segment by the flow rank of its last cell, every
/// segment drains into one of lower rank.
pub proof fn law_river_tree_acyclic(
    r: RiverTree,
    flow: Seq<u8>,
    acc: Seq<u32>,
    min_acc: u32,
    sea: Seq<bool>,
    width: int,
    height: int,
)
    requires
        flow_ok(flow, acc, sea, width, height),
        flow_acyclic(flow, width, height),
        river_tree_is(r, flow, acc, min_acc, sea, width, height),
    ensures
        links_acyclic(r.links@),
{
    let t = river_paths(flow, acc, min_acc, sea, width, height);
    let n = t.1.len();
    let links = r.links@;
    let total = width * height;
    let infl = inflows(flow, acc, min_acc, width, height);
    let starts = starts_upto(acc, min_acc, infl, total);
    if width == 0 {
        assert(total == 0);
        assert(starts.len() == 0);
        assert(ranked_downhill(links, Seq::<nat>::empty()));
        return;
    }
    let crank = choose|rank: Seq<nat>| flow_ranked(flow, width, height, rank);
    lemma_starts_in_range(acc, min_acc, infl, total);
    lemma_tree_paths_follow_flow(flow, acc, min_acc, sea, width, height, starts, starts.len() as int);
    lemma_claims_in_paths(flow, acc, min_acc, sea, width, height, starts, starts.len() as int);
    let seg = Seq::new(n, |i: int| crank[t.1[i].last() as int]);
    assert forall|u: int, d: int|
        0 <= u < links.len() && 0 <= d < links.len() && #[trigger] drains_into(links, u, d) implies seg[d]
        < seg[u] by {
        let pu = t.1[u];
        let pd = t.1[d];
        let j0 = choose|j: int| 0 <= j < starts.len() && pu[0] == starts[j];
        lemma_path_descends(flow, acc, sea, width, height, crank, pu, 0);
        let last = pu.last() as int;
        assert(links[u].downstream == downstream_of(flow, width, height, t.0, pu, u));
        let next = receiver_of(last, flow[last] as int, width, height)->0;
        crate::flow::law_receiver_in_grid(last, flow[last] as int, width, height);
        assert(t.0[next] is Some && t.0[next]->0 as int == d);
        let m = choose|m: int| 0 <= m < pd.len() && pd[m] == next as usize;
        lemma_path_descends(flow, acc, sea, width, height, crank, pd, m);
        assert(crank[next] < crank[last]);
    }
    assert(ranked_downhill(links, seg));
}

/// `acc` after cell `idx` passes its accumulation on to the cell it drains
/// into, saturating at `u32::MAX`.
pub open spec fn pass_on(flow: Seq<u8>, width: int, height: int, acc: Seq<u32>, idx: int) -> Seq<u32> {
    match receiver_of(idx, flow[idx] as int, width, height) {
        Some(t) => acc.update(
            t,
            if acc[t] + acc[idx] > u32::MAX {
                u32::MAX
            } else {
                (acc[t] + acc[idx]) as u32
            },
        ),
        None => acc,
    }
}

/// Flow accumulation after the first `k` cells of `order` have passed theirs
/// on, every cell starting at 1.
pub open spec fn accumulation_upto(
    flow: Seq<u8>,
    width: int,
    height: int,
    order: Seq<usize>,
    k: int,
) -> Seq<u32>
    decreases k,
{
    if k <= 0 {
        Seq::new((width * height) as nat, |c: int| 1u32)
    } else {
        pass_on(
            flow,
            width,
            height,
            accumulation_upto(flow, width, height, order, k - 1),
            order[k - 1] as int,
        )
    }
}

/// Flow accumulation of every cell: each cell counts itself, and the cells
/// pass their counts downstream in `order` (highest elevation first when the
/// caller sorts by elevation), saturating at `u32::MAX`.
pub fn compute_flow_accumulation(flow_dir: &[u8], order: &[usize], width: usize, height: usize) -> (r:
    Vec<u32>)
    requires
        1 <= width <= 0x4000_0000,
        height <= i32::MAX,
        width * height <= usize::MAX,
        flow_dir@.len() >= width * height,
        forall|i: int| 0 <= i < width * height ==> #[trigger] flow_dir@[i] < 8 || flow_dir@[i] == NO_FLOW,
        forall|k: int| 0 <= k < order@.len() ==> #[trigger] order@[k] < width * height,
    ensures
        r@ == accumulation_upto(flow_dir@, width as int, height as int, order@, order@.len() as int),
{
    let total = width * height;
    let mut acc: Vec<u32> = Vec::new();
    let mut c: usize = 0;
    while c < total
        invariant
            c <= total,
            acc@ =~= Seq::new(c as nat, |j: int| 1u32),
        decreases total - c,
    {
        acc.push(1);
        c = c + 1;
    }
    let mut k: usize = 0;
    while k < order.len()
        invariant
            total == width * height,
            1 <= width <= 0x4000_0000,
            height <= i32::MAX,
            flow_dir@.len() >= total,
            forall|i: int| 0 <= i < total ==> #[trigger] flow_dir@[i] < 8 || flow_dir@[i] == NO_FLOW,
            forall|j: int| 0 <= j < order@.len() ==> #[trigger] order@[j] < total,
            k <= order@.len(),
            acc@.len() == total,
            acc@ == accumulation_upto(flow_dir@, width as int, height as int, order@, k as int),
        decreases order@.len() - k,
    {
        let idx = order[k];
        let dir = flow_dir[idx];
        proof {
            lemma_row_in_grid(idx as int, width as int, height as int);
        }
        if dir != NO_FLOW {
            match receiver_index(idx, dir, width, height) {
                Some(target) => {
                    proof {
                        crate::flow::law_receiver_in_grid(idx as int, dir as int, width as int, height as int);
                    }
                    let passed = acc[target].saturating_add(acc[idx]);
                    acc.set(target, passed);
                },
                None => {},
            }
        }
        k = k + 1;
    }
    acc
}

/// Every cell's flow accumulation is at least 1: it always counts itself.
pub proof fn law_accumulation_counts_self(
    flow: Seq<u8>,
    width: int,
    height: int,
    order: Seq<usize>,
    k: int,
    c: int,
)
    requires
        width >= 1,
        height >= 0,
        flow.len() >= width * height,
        forall|i: int| 0 <= i < width * height ==> #[trigger] flow[i] < 8 || flow[i] == NO_FLOW,
        forall|j: int| 0 <= j < order.len() ==> #[trigger] order[j] < width * height,
        0 <= k <= order.len(),
        0 <= c < width * height,
    ensures
        accumulation_upto(flow, width, height, order, k).len() == width * height,
        accumulation_upto(flow, width, height, order, k)[c] >= 1,
        k == 0 ==> accumulation_upto(flow, width, height, order, k)[c] == 1,
    decreases k,
{
    if k > 0 {
        law_accumulation_counts_self(flow, width, height, order, k - 1, c);
        let idx = order[k - 1] as int;
        lemma_accumulation_len(flow, width, height, order, k - 1);
        match receiver_of(idx, flow[idx] as int, width, height) {
            Some(t) => {
                crate::flow::law_receiver_in_grid(idx, flow[idx] as int, width, height);
                if t == c {
                    law_accumulation_counts_self(flow, width, height, order, k - 1, idx);
                }
            },
            None => {},
        }
    }
}

proof fn lemma_accumulation_len(flow: Seq<u8>, width: int, height: int, order: Seq<usize>, k: int)
    requires
        width >= 1,
        height >= 0,
        flow.len() >= width * height,
        forall|i: int| 0 <= i < width * height ==> #[trigger] flow[i] < 8 || flow[i] == NO_FLOW,
        forall|j: int| 0 <= j < order.len() ==> #[trigger] order[j] < width * height,
        0 <= k <= order.len(),
    ensures
        accumulation_upto(flow, width, height, order, k).len() == width * height,
    decreases k,
{
    if k > 0 {
        lemma_accumulation_len(flow, width, height, order, k - 1);
        let idx = order[k - 1] as int;
        match receiver_of(idx, flow[idx] as int, width, height) {
            Some(t) => {
                crate::flow::law_receiver_in_grid(idx, flow[idx] as int, width, height);
            },
            None => {},
        }
    }
}

/// Passing on a cell's accumulation: when the `k`-th cell of `order` drains
/// into a cell `t` of the grid (in any of the eight directions), `t` gains
/// that cell's accumulation, saturating at `u32::MAX`, and no other cell
/// changes; a cell that drains nowhere or off the grid changes nothing.
pub proof fn law_accumulation_step(
    flow: Seq<u8>,
    width: int,
    height: int,
    order: Seq<usize>,
    k: int,
)
    requires
        width >= 1,
        height >= 0,
        flow.len() >= width * height,
        forall|i: int| 0 <= i < width * height ==> #[trigger] flow[i] < 8 || flow[i] == NO_FLOW,
        forall|j: int| 0 <= j < order.len() ==> #[trigger] order[j] < width * height,
        0 <= k < order.len(),
    ensures
        ({
            let before = accumulation_upto(flow, width, height, order, k);
            let after = accumulation_upto(flow, width, height, order, k + 1);
            let i = order[k] as int;
            &&& after.len() == before.len()
            &&& match receiver_of(i, flow[i] as int, width, height) {
                Some(t) => {
                    &&& after[t] as int == (if before[t] + before[i] > u32::MAX {
                        u32::MAX as int
                    } else {
                        before[t] + before[i]
                    })
                    &&& forall|c: int| 0 <= c < before.len() && c != t ==> #[trigger] after[c]
                        == before[c]
                },
                None => after == before,
            }
        }),
{
    lemma_accumulation_len(flow, width, height, order, k);
    let i = order[k] as int;
    match receiver_of(i, flow[i] as int, width, height) {
        Some(t) => {
            crate::flow::law_receiver_in_grid(i, flow[i] as int, width, height);
        },
        None => {},
    }
}

proof fn lemma_walk_end(
    flow: Seq<u8>,
    inflow: Seq<int>,
    sea: Seq<bool>,
    claimed: Seq<Option<usize>>,
    width: int,
    height: int,
    rank: Seq<nat>,
    start: int,
    cur: int,
    fuel: nat,
)
    requires
        width >= 1,
        height >= 0,
        width * height <= usize::MAX,
        flow.len() >= width * height,
        forall|i: int| 0 <= i < width * height ==> #[trigger] flow[i] < 8 || flow[i] == NO_FLOW,
        flow_ranked(flow, width, height, rank),
        0 <= start < width * height,
        0 <= cur < width * height,
        cur == start || rank[cur] < rank[start],
        fuel > rank[cur],
    ensures
        ({
            let w = walk(flow, inflow, sea, claimed, width, height, start, cur, fuel);
            w.len() > 0 ==> {
                let l = w.last() as int;
                ||| sea[l]
                ||| flow[l] == NO_FLOW
                ||| receiver_of(l, flow[l] as int, width, height) is None
                ||| ({
                    let c = receiver_of(l, flow[l] as int, width, height)->0;
                    claimed[c] is Some || inflow[c] >= 2
                })
            }
        }),
    decreases fuel,
{
    let w = walk(flow, inflow, sea, claimed, width, height, start, cur, fuel);
    if !(cur != start && (claimed[cur] is Some || inflow[cur] >= 2)) && !(sea[cur] || flow[cur]
        == NO_FLOW) {
        match receiver_of(cur, flow[cur] as int, width, height) {
            Some(next) => {
                crate::flow::law_receiver_in_grid(cur, flow[cur] as int, width, height);
                assert(rank[next] < rank[cur]);
                lemma_walk_end(
                    flow,
                    inflow,
                    sea,
                    claimed,
                    width,
                    height,
                    rank,
                    start,
                    next,
                    (fuel - 1) as nat,
                );
                let rest = walk(flow, inflow, sea, claimed, width, height, start, next, (fuel - 1) as nat);
                assert(w == seq![cur as usize] + rest);
                if rest.len() == 0 {
                    assert(w.last() as int == cur);
                } else {
                    assert(w.last() == rest.last());
                }
            },
            None => {
                assert(w.last() as int == cur);
            },
        }
    } else if !(cur != start && (claimed[cur] is Some || inflow[cur] >= 2)) {
        assert(w.last() as int == cur);
    }
}

proof fn lemma_claims_stay(
    flow: Seq<u8>,
    acc: Seq<u32>,
    min_acc: u32,
    sea: Seq<bool>,
    width: int,
    height: int,
    starts: Seq<usize>,
    k1: int,
    k2: int,
)
    requires
        flow_ok(flow, acc, sea, width, height),
        0 <= k1 <= k2 <= starts.len(),
        starts.len() <= usize::MAX,
    ensures
        forall|c: int|
            0 <= c < width * height && (#[trigger] tree_upto(flow, acc, min_acc, sea, width, height, starts, k1).0[c] is Some)
                ==> tree_upto(flow, acc, min_acc, sea, width, height, starts, k2).0[c]
                == tree_upto(flow, acc, min_acc, sea, width, height, starts, k1).0[c],
    decreases k2 - k1,
{
    if k1 < k2 {
        lemma_claims_stay(flow, acc, min_acc, sea, width, height, starts, k1, k2 - 1);
        lemma_claims_in_paths(flow, acc, min_acc, sea, width, height, starts, k2 - 1);
    }
}

proof fn lemma_tree_paths_end(
    flow: Seq<u8>,
    acc: Seq<u32>,
    min_acc: u32,
    sea: Seq<bool>,
    width: int,
    height: int,
    rank: Seq<nat>,
    starts: Seq<usize>,
    k: int,
)
    requires
        flow_ok(flow, acc, sea, width, height),
        width >= 1,
        flow_ranked(flow, width, height, rank),
        0 <= k <= starts.len(),
        starts.len() <= usize::MAX,
        forall|j: int| 0 <= j < starts.len() ==> #[trigger] starts[j] < width * height,
    ensures
        ({
            let t = tree_upto(flow, acc, min_acc, sea, width, height, starts, k);
            let infl = inflows(flow, acc, min_acc, width, height);
            forall|i: int|
                0 <= i < t.1.len() ==> {
                    let l = (#[trigger] t.1[i]).last() as int;
                    ||| sea[l]
                    ||| flow[l] == NO_FLOW
                    ||| receiver_of(l, flow[l] as int, width, height) is None
                    ||| ({
                        let c = receiver_of(l, flow[l] as int, width, height)->0;
                        (t.0[c] matches Some(j) && j < i) || infl[c] >= 2
                    })
                }
        }),
    decreases k,
{
    if k > 0 {
        let prev = tree_upto(flow, acc, min_acc, sea, width, height, starts, k - 1);
        let now = tree_upto(flow, acc, min_acc, sea, width, height, starts, k);
        let infl = inflows(flow, acc, min_acc, width, height);
        lemma_tree_paths_end(flow, acc, min_acc, sea, width, height, rank, starts, k - 1);
        lemma_claims_stay(flow, acc, min_acc, sea, width, height, starts, k - 1, k);
        lemma_claims_in_paths(flow, acc, min_acc, sea, width, height, starts, k - 1);
        lemma_tree_paths_follow_flow(flow, acc, min_acc, sea, width, height, starts, k);
        let s = starts[k - 1] as int;
        let path = walk(flow, infl, sea, prev.0, width, height, s, s, (width * height + 1) as nat);
        assert(rank[s] < width * height);
        lemma_walk_end(
            flow,
            infl,
            sea,
            prev.0,
            width,
            height,
            rank,
            s,
            s,
            (width * height + 1) as nat,
        );
        assert forall|i: int| 0 <= i < now.1.len() implies {
            let l = (#[trigger] now.1[i]).last() as int;
            ||| sea[l]
            ||| flow[l] == NO_FLOW
            ||| receiver_of(l, flow[l] as int, width, height) is None
            ||| ({
                let c = receiver_of(l, flow[l] as int, width, height)->0;
                (now.0[c] matches Some(j) && j < i) || infl[c] >= 2
            })
        } by {
            let l = now.1[i].last() as int;
            if i < prev.1.len() {
                assert(now.1[i] == prev.1[i]);
            } else {
                assert(now.1[i] == path);
            }
            let p = now.1[i];
            assert(p.len() >= 2);
            let j0 = choose|j: int| 0 <= j < k && p[0] == starts[j];
            assert(p[0] < width * height);
            lemma_path_descends(flow, acc, sea, width, height, rank, p, 0);
            match receiver_of(l, flow[l] as int, width, height) {
                Some(c) => {
                    crate::flow::law_receiver_in_grid(l, flow[l] as int, width, height);
                },
                None => {},
            }
        }
    }
}

/// A traced segment ends only where the river cannot go on as that segment:
/// its last cell lies below sea level, drains nowhere, drains off the grid,
/// or drains into a cell that an earlier segment already claimed or where
/// two or more rivers meet. In particular a segment never stops short of an
/// unclaimed sea cell it flows into.
pub proof fn law_paths_end_where_flow_stops(
    flow: Seq<u8>,
    acc: Seq<u32>,
    min_acc: u32,
    sea: Seq<bool>,
    width: int,
    height: int,
    i: int,
)
    requires
        flow_ok(flow, acc, sea, width, height),
        flow_acyclic(flow, width, height),
        0 <= i < river_paths(flow, acc, min_acc, sea, width, height).1.len(),
    ensures
        ({
            let t = river_paths(flow, acc, min_acc, sea, width, height);
            let l = t.1[i].last() as int;
            ||| sea[l]
            ||| flow[l] == NO_FLOW
            ||| receiver_of(l, flow[l] as int, width, height) is None
            ||| ({
                let c = receiver_of(l, flow[l] as int, width, height)->0;
                (t.0[c] matches Some(j) && j < i) || inflows(flow, acc, min_acc, width, height)[c]
                    >= 2
            })
        }),
{
    let infl = inflows(flow, acc, min_acc, width, height);
    let total = width * height;
    let starts = starts_upto(acc, min_acc, infl, total);
    if width == 0 {
        assert(total == 0);
        assert(starts.len() == 0);
        assert(false);
    }
    let rank = choose|rank: Seq<nat>| flow_ranked(flow, width, height, rank);
    lemma_starts_in_range(acc, min_acc, infl, total);
    lemma_tree_paths_end(flow, acc, min_acc, sea, width, height, rank, starts, starts.len() as int);
    let t = river_paths(flow, acc, min_acc, sea, width, height);
    assert(t.1[i] == t.1[i]);
}

proof fn lemma_walk_interior(
    flow: Seq<u8>,
    inflow: Seq<int>,
    sea: Seq<bool>,
    claimed: Seq<Option<usize>>,
    width: int,
    height: int,
    rank: Seq<nat>,
    start: int,
    cur: int,
    fuel: nat,
)
    requires
        width >= 1,
        height >= 0,
        width * height <= usize::MAX,
        flow.len() >= width * height,
        forall|i: int| 0 <= i < width * height ==> #[trigger] flow[i] < 8 || flow[i] == NO_FLOW,
        flow_ranked(flow, width, height, rank),
        0 <= start < width * height,
        0 <= cur < width * height,
        cur == start || rank[cur] < rank[start],
    ensures
        ({
            let w = walk(flow, inflow, sea, claimed, width, height, start, cur, fuel);
            forall|m: int|
                0 <= m < w.len() ==> {
                    let c = #[trigger] w[m] as int;
                    &&& 0 <= c < width * height
                    &&& (c != start ==> claimed[c] is None && inflow[c] < 2)
                    &&& (c == start ==> m == 0 && cur == start)
                    &&& (m < w.len() - 1 ==> !sea[c] && flow[c] != NO_FLOW)
                }
        }),
    decreases fuel,
{
    let w = walk(flow, inflow, sea, claimed, width, height, start, cur, fuel);
    if fuel > 0 && !(cur != start && (claimed[cur] is Some || inflow[cur] >= 2)) && !(sea[cur]
        || flow[cur] == NO_FLOW) {
        match receiver_of(cur, flow[cur] as int, width, height) {
            Some(next) => {
                crate::flow::law_receiver_in_grid(cur, flow[cur] as int, width, height);
                assert(rank[next] < rank[cur]);
                lemma_walk_interior(
                    flow,
                    inflow,
                    sea,
                    claimed,
                    width,
                    height,
                    rank,
                    start,
                    next,
                    (fuel - 1) as nat,
                );
                let rest = walk(flow, inflow, sea, claimed, width, height, start, next, (fuel - 1) as nat);
                assert(w == seq![cur as usize] + rest);
                assert forall|m: int| 0 <= m < w.len() implies {
                    let c = #[trigger] w[m] as int;
                    &&& 0 <= c < width * height
                    &&& (c != start ==> claimed[c] is None && inflow[c] < 2)
                    &&& (c == start ==> m == 0 && cur == start)
                    &&& (m < w.len() - 1 ==> !sea[c] && flow[c] != NO_FLOW)
                } by {
                    if m > 0 {
                        assert(w[m] == rest[m - 1]);
                    }
                }
            },
            None => {},
        }
    }
}

/// Inside a traced segment the river runs on: every cell after the first
/// belongs to that segment and is no confluence, and every cell before the
/// last lies above sea level and drains somewhere.
pub proof fn law_paths_run_through(
    flow: Seq<u8>,
    acc: Seq<u32>,
    min_acc: u32,
    sea: Seq<bool>,
    width: int,
    height: int,
    i: int,
    m: int,
)
    requires
        flow_ok(flow, acc, sea, width, height),
        flow_acyclic(flow, width, height),
        0 <= i < river_paths(flow, acc, min_acc, sea, width, height).1.len(),
        0 <= m < river_paths(flow, acc, min_acc, sea, width, height).1[i].len(),
    ensures
        ({
            let t = river_paths(flow, acc, min_acc, sea, width, height);
            let c = t.1[i][m] as int;
            &&& m > 0 ==> t.0[c] == Some(i as usize) && inflows(flow, acc, min_acc, width, height)[c]
                < 2
            &&& m < t.1[i].len() - 1 ==> !sea[c] && flow[c] != NO_FLOW
        }),
{
    let infl = inflows(flow, acc, min_acc, width, height);
    let total = width * height;
    let starts = starts_upto(acc, min_acc, infl, total);
    if width == 0 {
        assert(total == 0);
        assert(starts.len() == 0);
        assert(false);
    }
    let rank = choose|rank: Seq<nat>| flow_ranked(flow, width, height, rank);
    lemma_starts_in_range(acc, min_acc, infl, total);
    lemma_tree_paths_interior(flow, acc, min_acc, sea, width, height, rank, starts, starts.len() as int);
}

proof fn lemma_tree_paths_interior(
    flow: Seq<u8>,
    acc: Seq<u32>,
    min_acc: u32,
    sea: Seq<bool>,
    width: int,
    height: int,
    rank: Seq<nat>,
    starts: Seq<usize>,
    k: int,
)
    requires
        flow_ok(flow, acc, sea, width, height),
        width >= 1,
        flow_ranked(flow, width, height, rank),
        0 <= k <= starts.len(),
        starts.len() <= usize::MAX,
        forall|j: int| 0 <= j < starts.len() ==> #[trigger] starts[j] < width * height,
    ensures
        ({
            let t = tree_upto(flow, acc, min_acc, sea, width, height, starts, k);
            let infl = inflows(flow, acc, min_acc, width, height);
            forall|i: int, m: int|
                0 <= i < t.1.len() && 0 <= m < t.1[i].len() ==> {
                    let c = #[trigger] t.1[i][m] as int;
                    &&& 0 <= c < width * height
                    &&& m > 0 ==> t.0[c] == Some(i as usize) && infl[c] < 2
                    &&& m < t.1[i].len() - 1 ==> !sea[c] && flow[c] != NO_FLOW
                }
        }),
    decreases k,
{
    if k > 0 {
        let prev = tree_upto(flow, acc, min_acc, sea, width, height, starts, k - 1);
        let now = tree_upto(flow, acc, min_acc, sea, width, height, starts, k);
        let infl = inflows(flow, acc, min_acc, width, height);
        lemma_tree_paths_interior(flow, acc, min_acc, sea, width, height, rank, starts, k - 1);
        lemma_claims_stay(flow, acc, min_acc, sea, width, height, starts, k - 1, k);
        lemma_claims_in_paths(flow, acc, min_acc, sea, width, height, starts, k - 1);
        lemma_claims_in_paths(flow, acc, min_acc, sea, width, height, starts, k);
        let s = starts[k - 1] as int;
        let path = walk(flow, infl, sea, prev.0, width, height, s, s, (width * height + 1) as nat);
        lemma_walk_interior(
            flow,
            infl,
            sea,
            prev.0,
            width,
            height,
            rank,
            s,
            s,
            (width * height + 1) as nat,
        );
        assert forall|i: int, m: int| 0 <= i < now.1.len() && 0 <= m < now.1[i].len() implies {
            let c = #[trigger] now.1[i][m] as int;
            &&& 0 <= c < width * height
            &&& m > 0 ==> now.0[c] == Some(i as usize) && infl[c] < 2
            &&& m < now.1[i].len() - 1 ==> !sea[c] && flow[c] != NO_FLOW
        } by {
            if i < prev.1.len() {
                assert(now.1[i] == prev.1[i]);
                let c = prev.1[i][m] as int;
                assert(prev.1[i][m] == now.1[i][m]);
                assert(0 <= c < width * height);
                if m > 0 {
                    assert(prev.0[c] == Some(i as usize));
                }
            } else {
                assert(now.1[i] == path);
                assert(i == prev.1.len());
                let c = path[m] as int;
                if m > 0 {
                    assert(c != s);
                    assert(prev.0[c] is None);
                    assert(path.contains(c as usize));
                    assert(now.0 == claim(prev.0, path, prev.1.len() as int));
                    assert(now.0[c] == Some(i as usize));
                }
            }
        }
    }
}

} // verus!
