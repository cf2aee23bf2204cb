//! Connectedness of regions: inside a region every province can be reached
//! from every other one over shared boundaries without leaving the region.

use vstd::prelude::*;
use crate::graph::{adjacency_is_symmetric, build_province_graph, provinces_adjacent, ProvinceGraph};
use crate::grid::cell_count;
use crate::province::filled;
use crate::region::{holds, home_is_unique, is_home_table, members_partition, region_homes, Region};

verus! {

/// A walk inside a region: the region holds every province on it, and each
/// province shares a boundary with the next.
pub open spec fn is_walk(region: Region, owners: Seq<u32>, width: int, walk: Seq<int>) -> bool {
    &&& walk.len() > 0
    &&& forall|t: int| 0 <= t < walk.len() ==> holds(region, #[trigger] walk[t])
    &&& forall|t: int|
        0 <= t < walk.len() - 1 ==> provinces_adjacent(owners, width, #[trigger] walk[t], walk[t + 1])
}

/// Some walk inside the region leads from `a` to `b`.
pub open spec fn linked(region: Region, owners: Seq<u32>, width: int, a: int, b: int) -> bool {
    exists|walk: Seq<int>| #[trigger] is_walk(region, owners, width, walk) && walk.first() == a && walk.last() == b
}

/// Any two provinces of the region are linked.
pub open spec fn region_connected(region: Region, owners: Seq<u32>, width: int) -> bool {
    forall|a: int, b: int|
        holds(region, a) && holds(region, b) ==> #[trigger] linked(region, owners, width, a, b)
}

/// Every region is connected.
pub open spec fn regions_connected(regions: Seq<Region>, owners: Seq<u32>, width: int) -> bool {
    forall|r: int| 0 <= r < regions.len() ==> region_connected(#[trigger] regions[r], owners, width)
}

/// A province of the region is linked to itself.
pub proof fn linked_to_itself(region: Region, owners: Seq<u32>, width: int, a: int)
    requires
        holds(region, a),
    ensures
        linked(region, owners, width, a, a),
{
    let walk = seq![a];
    assert(is_walk(region, owners, width, walk));
}

/// A link can be extended by one step to a neighbour inside the region.
pub proof fn link_extends(region: Region, owners: Seq<u32>, width: int, a: int, b: int, c: int)
    requires
        linked(region, owners, width, a, b),
        holds(region, c),
        provinces_adjacent(owners, width, b, c),
    ensures
        linked(region, owners, width, a, c),
{
    let walk = choose|walk: Seq<int>| #[trigger]
        is_walk(region, owners, width, walk) && walk.first() == a && walk.last() == b;
    assert(is_walk(region, owners, width, walk.push(c)));
}

/// A link can be walked backwards.
pub proof fn link_reverses(region: Region, owners: Seq<u32>, width: int, a: int, b: int)
    requires
        linked(region, owners, width, a, b),
    ensures
        linked(region, owners, width, b, a),
{
    let walk = choose|walk: Seq<int>| #[trigger]
        is_walk(region, owners, width, walk) && walk.first() == a && walk.last() == b;
    let back = Seq::new(walk.len(), |t: int| walk[walk.len() - 1 - t]);
    assert forall|t: int| 0 <= t < back.len() - 1 implies provinces_adjacent(
        owners,
        width,
        #[trigger] back[t],
        back[t + 1],
    ) by {
        let s = walk.len() - 2 - t;
        adjacency_is_symmetric(owners, width, walk[s], walk[s + 1]);
    }
    assert(is_walk(region, owners, width, back));
}

/// Two links that meet make one link.
pub proof fn links_compose(region: Region, owners: Seq<u32>, width: int, a: int, b: int, c: int)
    requires
        linked(region, owners, width, a, b),
        linked(region, owners, width, b, c),
    ensures
        linked(region, owners, width, a, c),
{
    let first = choose|walk: Seq<int>| #[trigger]
        is_walk(region, owners, width, walk) && walk.first() == a && walk.last() == b;
    let second = choose|walk: Seq<int>| #[trigger]
        is_walk(region, owners, width, walk) && walk.first() == b && walk.last() == c;
    let whole = first + second.subrange(1, second.len() as int);
    assert(is_walk(region, owners, width, whole));
}

/// In a partition with its home table, a province that a region holds is
/// below `n`, and the table sends it to that region.
proof fn held_is_at_home(regions: Seq<Region>, n: nat, homes: Seq<usize>, r: int, x: int)
    requires
        members_partition(regions, n),
        is_home_table(regions, n, homes),
        0 <= r < regions.len(),
        holds(regions[r], x),
    ensures
        0 <= x < n,
        homes[x] == r,
{
    home_is_unique(regions, n, x, homes[x] as int, r);
}

/// Sum of the labels.
spec fn label_sum(labels: Seq<usize>) -> nat
    decreases labels.len(),
{
    if labels.len() == 0 {
        0
    } else {
        label_sum(labels.drop_last()) + labels.last() as nat
    }
}

proof fn label_sum_update(labels: Seq<usize>, x: int, value: usize)
    requires
        0 <= x < labels.len(),
    ensures
        label_sum(labels.update(x, value)) == label_sum(labels) - labels[x] + value,
    decreases labels.len(),
{
    let updated = labels.update(x, value);
    if x == labels.len() - 1 {
        assert(updated.drop_last() =~= labels.drop_last());
    } else {
        label_sum_update(labels.drop_last(), x, value);
        assert(updated.drop_last() =~= labels.drop_last().update(x, value));
    }
}

/// Every province carries the label of a province of its own region to which
/// it is linked.
spec fn labels_sound(
    regions: Seq<Region>,
    homes: Seq<usize>,
    owners: Seq<u32>,
    width: int,
    labels: Seq<usize>,
) -> bool {
    &&& labels.len() == homes.len()
    &&& forall|x: int|
        0 <= x < labels.len() ==> {
            &&& (#[trigger] labels[x]) < labels.len()
            &&& homes[labels[x] as int] == homes[x]
            &&& linked(regions[homes[x] as int], owners, width, labels[x] as int, x)
        }
}

/// No province has a neighbour in its own region with a smaller label.
spec fn labels_settled(graph: ProvinceGraph, homes: Seq<usize>, labels: Seq<usize>, limit: int) -> bool {
    forall|a: int, t: int|
        0 <= a < limit && 0 <= t < graph.neighbours@[a]@.len() ==> (homes[a] == homes[(
        #[trigger] graph.neighbours@[a]@[t]) as int] ==> labels[graph.neighbours@[a]@[t] as int] >= labels[a])
}

/// Settled labels are the same along every walk inside a region.
proof fn settled_labels_follow_walks(
    regions: Seq<Region>,
    homes: Seq<usize>,
    graph: ProvinceGraph,
    owners: Seq<u32>,
    width: int,
    labels: Seq<usize>,
    r: int,
    walk: Seq<int>,
)
    requires
        members_partition(regions, homes.len()),
        is_home_table(regions, homes.len(), homes),
        graph.represents(owners, width, homes.len()),
        labels.len() == homes.len(),
        labels_settled(graph, homes, labels, homes.len() as int),
        0 <= r < regions.len(),
        is_walk(regions[r], owners, width, walk),
    ensures
        0 <= walk.first() < homes.len(),
        0 <= walk.last() < homes.len(),
        labels[walk.first()] == labels[walk.last()],
    decreases walk.len(),
{
    let n = homes.len();
    held_is_at_home(regions, n, homes, r, walk.first());
    if walk.len() > 1 {
        let shorter = walk.drop_last();
        assert(is_walk(regions[r], owners, width, shorter));
        settled_labels_follow_walks(regions, homes, graph, owners, width, labels, r, shorter);
        let p = walk[walk.len() - 2];
        let q = walk[walk.len() - 2 + 1];
        held_is_at_home(regions, n, homes, r, p);
        held_is_at_home(regions, n, homes, r, q);
        adjacency_is_symmetric(owners, width, p, q);
        assert(graph.has_edge(p, q));
        assert(graph.has_edge(q, p));
    }
}

/// Gives every province the smallest label that reaches it over boundaries
/// inside its region, starting from each province's own number.
fn settle_labels(
    regions: &Vec<Region>,
    homes: &Vec<usize>,
    graph: &ProvinceGraph,
    Ghost(owners): Ghost<Seq<u32>>,
    Ghost(width): Ghost<int>,
) -> (labels: Vec<usize>)
    requires
        members_partition(regions@, homes@.len()),
        is_home_table(regions@, homes@.len(), homes@),
        graph.represents(owners, width, homes@.len()),
    ensures
        labels_sound(regions@, homes@, owners, width, labels@),
        labels_settled(*graph, homes@, labels@, homes@.len() as int),
{
    let n = homes.len();
    let mut labels: Vec<usize> = Vec::new();
    let mut x: usize = 0;
    while x < n
        invariant
            x <= n,
            n == homes.len(),
            labels.len() == x,
            is_home_table(regions@, homes@.len(), homes@),
            forall|y: int| 0 <= y < x ==> (#[trigger] labels[y]) == y,
        decreases n - x,
    {
        labels.push(x);
        x += 1;
    }
    proof {
        assert forall|y: int| 0 <= y < n implies linked(
            regions@[homes@[y] as int],
            owners,
            width,
            (#[trigger] labels@[y]) as int,
            y,
        ) by {
            linked_to_itself(regions@[homes@[y] as int], owners, width, y);
        }
    }
    let mut settled = false;
    while !settled
        invariant
            n == homes.len(),
            members_partition(regions@, homes@.len()),
            is_home_table(regions@, homes@.len(), homes@),
            graph.represents(owners, width, homes@.len()),
            labels_sound(regions@, homes@, owners, width, labels@),
            settled ==> labels_settled(*graph, homes@, labels@, n as int),
        decreases
                label_sum(labels@) + if settled {
                    0nat
                } else {
                    1nat
                },
    {
        let ghost start = labels@;
        let mut changed = false;
        let mut a: usize = 0;
        while a < n
            invariant
                a <= n,
                n == homes.len(),
                members_partition(regions@, homes@.len()),
                is_home_table(regions@, homes@.len(), homes@),
                graph.represents(owners, width, homes@.len()),
                labels_sound(regions@, homes@, owners, width, labels@),
                label_sum(labels@) <= label_sum(start),
                changed ==> label_sum(labels@) < label_sum(start),
                !changed ==> labels_settled(*graph, homes@, labels@, a as int),
            decreases n - a,
        {
            let list = &graph.neighbours[a];
            let mut t: usize = 0;
            while t < list.len()
                invariant
                    t <= list.len(),
                    a < n,
                    n == homes.len(),
                    list@ == graph.neighbours@[a as int]@,
                    members_partition(regions@, homes@.len()),
                    is_home_table(regions@, homes@.len(), homes@),
                    graph.represents(owners, width, homes@.len()),
                    labels_sound(regions@, homes@, owners, width, labels@),
                    label_sum(labels@) <= label_sum(start),
                    changed ==> label_sum(labels@) < label_sum(start),
                    !changed ==> labels_settled(*graph, homes@, labels@, a as int),
                    !changed ==> forall|s: int|
                        0 <= s < t ==> (homes@[a as int] == homes@[(#[trigger] list@[s]) as int]
                            ==> labels@[list@[s] as int] >= labels@[a as int]),
                decreases list.len() - t,
            {
                let b = list[t] as usize;
                if homes[a] == homes[b] && labels[b] < labels[a] {
                    let lower = labels[b];
                    proof {
                        let region = regions@[homes@[a as int] as int];
                        assert(graph.has_edge(a as int, b as int));
                        adjacency_is_symmetric(owners, width, a as int, b as int);
                        link_extends(region, owners, width, lower as int, b as int, a as int);
                        label_sum_update(labels@, a as int, lower);
                    }
                    labels.set(a, lower);
                    changed = true;
                }
                t += 1;
            }
            a += 1;
        }
        settled = !changed;
    }
    labels
}

/// Decides whether every region is connected.
pub(crate) fn regions_are_connected(
    regions: &Vec<Region>,
    homes: &Vec<usize>,
    graph: &ProvinceGraph,
    Ghost(owners): Ghost<Seq<u32>>,
    Ghost(width): Ghost<int>,
) -> (ok: bool)
    requires
        members_partition(regions@, homes@.len()),
        is_home_table(regions@, homes@.len(), homes@),
        graph.represents(owners, width, homes@.len()),
    ensures
        ok == regions_connected(regions@, owners, width),
{
    let n = homes.len();
    let labels = settle_labels(regions, homes, graph, Ghost(owners), Ghost(width));
    let mut first: Vec<usize> = filled(regions.len(), n);
    let mut x: usize = 0;
    while x < n
        invariant
            x <= n,
            n == homes.len(),
            first.len() == regions.len(),
            members_partition(regions@, homes@.len()),
            is_home_table(regions@, homes@.len(), homes@),
            graph.represents(owners, width, homes@.len()),
            labels_sound(regions@, homes@, owners, width, labels@),
            labels_settled(*graph, homes@, labels@, n as int),
            forall|r: int|
                0 <= r < first.len() && (#[trigger] first[r]) != n ==> first[r] < x && homes[first[r] as int] == r,
            forall|y: int|
                0 <= y < x ==> first[(#[trigger] homes[y]) as int] != n && labels[first[homes[y] as int] as int]
                    == labels[y],
        decreases n - x,
    {
        let r = homes[x];
        let seen = first[r];
        if seen == n {
            first.set(r, x);
        } else if labels[seen] != labels[x] {
            proof {
                let region = regions@[r as int];
                if linked(region, owners, width, seen as int, x as int) {
                    let walk = choose|walk: Seq<int>| #[trigger]
                        is_walk(region, owners, width, walk) && walk.first() == seen && walk.last() == x;
                    settled_labels_follow_walks(regions@, homes@, *graph, owners, width, labels@, r as int, walk);
                }
            }
            return false;
        }
        x += 1;
    }
    proof {
        assert forall|r: int| 0 <= r < regions@.len() implies region_connected(
            #[trigger] regions@[r],
            owners,
            width,
        ) by {
            let region = regions@[r];
            assert forall|a: int, b: int| holds(region, a) && holds(region, b) implies #[trigger] linked(
                region,
                owners,
                width,
                a,
                b,
            ) by {
                held_is_at_home(regions@, n as nat, homes@, r, a);
                held_is_at_home(regions@, n as nat, homes@, r, b);
                let root = labels@[a] as int;
                link_reverses(region, owners, width, root, a);
                links_compose(region, owners, width, a, root, b);
            }
        }
    }
    true
}

/// Decides whether the regions partition the provinces below `n` of a grid
/// and every one of them is connected on it.
pub fn check_connected(regions: &Vec<Region>, owners: &Vec<u32>, width: u32, height: u32, n: usize) -> (ok:
    bool)
    ensures
        ok == {
            &&& members_partition(regions@, n as nat)
            &&& owners.len() == cell_count(width, height)
            &&& forall|i: int| 0 <= i < owners.len() ==> (#[trigger] owners[i]) < n
            &&& regions_connected(regions@, owners@, width as int)
        },
{
    let homes = match region_homes(regions, n) {
        Some(homes) => homes,
        None => {
            return false;
        },
    };
    let graph = match build_province_graph(owners, width, height, n) {
        Some(graph) => graph,
        None => {
            return false;
        },
    };
    regions_are_connected(regions, &homes, &graph, Ghost(owners@), Ghost(width as int))
}

} // verus!
