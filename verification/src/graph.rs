//! The province graph: which provinces share a boundary between two cells
//! that are next to each other in a row or in a column.

use vstd::prelude::*;
use crate::grid::{cell_count, is_cell_count};

verus! {

/// Cell `j` is the right-hand or the lower neighbour of cell `i` on a grid of
/// `cells` cells in rows of `width`.
pub open spec fn touch_forward(width: int, cells: int, i: int, j: int) -> bool {
    &&& 0 <= i < j < cells
    &&& ((j == i + 1 && j % width != 0) || j == i + width)
}

/// The boundary between cell `i` and its neighbour `j` separates the
/// provinces `a` and `b`.
pub open spec fn separates(owners: Seq<u32>, width: int, i: int, j: int, a: int, b: int) -> bool {
    &&& touch_forward(width, owners.len() as int, i, j)
    &&& ((owners[i] == a && owners[j] == b) || (owners[i] == b && owners[j] == a))
}

/// Two different provinces share a boundary that starts at a cell with an
/// index below `limit`.
pub open spec fn adjacent_before(owners: Seq<u32>, width: int, a: int, b: int, limit: int) -> bool {
    a != b && exists|i: int, j: int| 0 <= i < limit && #[trigger] separates(owners, width, i, j, a, b)
}

/// Two different provinces share a boundary.
pub open spec fn provinces_adjacent(owners: Seq<u32>, width: int, a: int, b: int) -> bool {
    adjacent_before(owners, width, a, b, owners.len() as int)
}

/// `value` occurs in the list.
pub open spec fn lists(list: Seq<u32>, value: int) -> bool {
    exists|t: int| 0 <= t < list.len() && #[trigger] list[t] == value
}

/// Adjacency lists of the provinces: `neighbours[a]` lists the provinces that
/// share a boundary with province `a`.
#[derive(Debug)]
pub struct ProvinceGraph {
    pub neighbours: Vec<Vec<u32>>,
}

impl ProvinceGraph {
    /// The graph has the edge from `a` to `b`.
    pub open spec fn has_edge(self, a: int, b: int) -> bool {
        0 <= a < self.neighbours@.len() && lists(self.neighbours@[a]@, b)
    }

    /// The lists hold provinces below `n`, each at most once.
    pub open spec fn tidy(self, n: nat) -> bool {
        &&& self.neighbours@.len() == n
        &&& forall|a: int, t: int|
            0 <= a < n && 0 <= t < self.neighbours@[a]@.len() ==> (#[trigger] self.neighbours@[a]@[t]) < n
        &&& forall|a: int, s: int, t: int|
            0 <= a < n && 0 <= s < t < self.neighbours@[a]@.len() ==> (#[trigger] self.neighbours@[a]@[s])
                != (#[trigger] self.neighbours@[a]@[t])
    }

    /// The edges are exactly the pairs of provinces that share a boundary
    /// starting below `limit`.
    pub open spec fn edges_before(self, owners: Seq<u32>, width: int, limit: int) -> bool {
        forall|a: int, b: int|
            0 <= a < self.neighbours@.len() && 0 <= b < self.neighbours@.len() ==> (#[trigger] self.has_edge(
                a,
                b,
            ) <==> adjacent_before(owners, width, a, b, limit))
    }

    /// The graph is the province graph of the grid: one node per province, an
    /// edge between two provinces exactly when they share a boundary, no edge
    /// twice and none from a province to itself.
    pub open spec fn represents(self, owners: Seq<u32>, width: int, n: nat) -> bool {
        &&& self.tidy(n)
        &&& self.edges_before(owners, width, owners.len() as int)
    }
}

/// Sharing a boundary is mutual.
pub proof fn adjacency_is_symmetric(owners: Seq<u32>, width: int, a: int, b: int)
    requires
        provinces_adjacent(owners, width, a, b),
    ensures
        provinces_adjacent(owners, width, b, a),
{
    let (i, j) = choose|i: int, j: int| 0 <= i < owners.len() && #[trigger] separates(owners, width, i, j, a, b);
    assert(separates(owners, width, i, j, b, a));
}

/// Appends `value` to the list unless the list holds it already.
fn insert_unique(list: &mut Vec<u32>, value: u32)
    requires
        forall|s: int, t: int| 0 <= s < t < old(list)@.len() ==> old(list)@[s] != old(list)@[t],
    ensures
        forall|s: int, t: int| 0 <= s < t < final(list)@.len() ==> final(list)@[s] != final(list)@[t],
        forall|x: int| #[trigger] lists(final(list)@, x) <==> lists(old(list)@, x) || x == value,
        forall|t: int|
            0 <= t < final(list)@.len() ==> (#[trigger] final(list)@[t]) == value || lists(
                old(list)@,
                final(list)@[t] as int,
            ),
{
    let mut t: usize = 0;
    while t < list.len()
        invariant
            t <= list.len(),
            list@ == old(list)@,
            forall|r: int, s: int| 0 <= r < s < list@.len() ==> list@[r] != list@[s],
            forall|s: int| 0 <= s < t ==> list@[s] != value,
        decreases list.len() - t,
    {
        if list[t] == value {
            assert(lists(list@, value as int));
            return ;
        }
        t += 1;
    }
    let ghost before = list@;
    list.push(value);
    proof {
        assert forall|x: int| #[trigger] lists(list@, x) <==> lists(before, x) || x == value by {
            if lists(before, x) {
                let s = choose|s: int| 0 <= s < before.len() && #[trigger] before[s] == x;
                assert(list@[s] == x);
            }
            if x == value {
                assert(list@[before.len() as int] == value);
            }
        }
    }
}

/// A boundary that starts at cell `i` ends at the cell to its right or at
/// the cell below it, so the boundaries that start below `i + 1` are those
/// that start below `i` and these two.
proof fn adjacent_step(owners: Seq<u32>, width: int, a: int, b: int, i: int)
    requires
        0 <= i < owners.len(),
    ensures
        adjacent_before(owners, width, a, b, i + 1) <==> adjacent_before(owners, width, a, b, i) || (a != b && (
        separates(owners, width, i, i + 1, a, b) || separates(owners, width, i, i + width, a, b))),
{
}

impl ProvinceGraph {
    /// Adds the edge between the different provinces `a` and `b`, in both
    /// directions, unless it is there already.
    fn link(&mut self, a: u32, b: u32)
        requires
            old(self).tidy(old(self).neighbours@.len()),
            a != b,
            a < old(self).neighbours@.len(),
            b < old(self).neighbours@.len(),
        ensures
            final(self).tidy(old(self).neighbours@.len()),
            forall|x: int, y: int|
                0 <= x < old(self).neighbours@.len() && 0 <= y < old(self).neighbours@.len() ==> (
                #[trigger] final(self).has_edge(x, y) <==> old(self).has_edge(x, y) || (x == a && y == b) || (x
                    == b && y == a)),
    {
        insert_unique(&mut self.neighbours[a as usize], b);
        insert_unique(&mut self.neighbours[b as usize], a);
    }
}

/// Decides whether every owner is below `n`.
fn owners_below(owners: &Vec<u32>, n: usize) -> (ok: bool)
    ensures
        ok == (forall|i: int| 0 <= i < owners.len() ==> (#[trigger] owners[i]) < n),
{
    let mut i: usize = 0;
    while i < owners.len()
        invariant
            i <= owners.len(),
            forall|c: int| 0 <= c < i ==> (#[trigger] owners[c]) < n,
        decreases owners.len() - i,
    {
        if owners[i] as usize >= n {
            return false;
        }
        i += 1;
    }
    true
}

/// A graph of `n` provinces without edges.
fn empty_graph(n: usize) -> (graph: ProvinceGraph)
    ensures
        graph.tidy(n as nat),
        forall|a: int, b: int| !graph.has_edge(a, b),
{
    let mut neighbours: Vec<Vec<u32>> = Vec::new();
    let mut a: usize = 0;
    while a < n
        invariant
            a <= n,
            neighbours.len() == a,
            forall|x: int| 0 <= x < a ==> (#[trigger] neighbours@[x])@.len() == 0,
        decreases n - a,
    {
        neighbours.push(Vec::new());
        a += 1;
    }
    ProvinceGraph { neighbours }
}

/// Builds the province graph of a grid. Succeeds exactly when the grid has
/// one owner per cell and every owner is below `n`.
pub fn build_province_graph(owners: &Vec<u32>, width: u32, height: u32, n: usize) -> (result: Option<
    ProvinceGraph,
>)
    ensures
        result.is_some() == (owners.len() == cell_count(width, height) && forall|i: int|
            0 <= i < owners.len() ==> (#[trigger] owners[i]) < n),
        result matches Some(graph) ==> graph.represents(owners@, width as int, n as nat),
{
    if !is_cell_count(width, height, owners.len()) || !owners_below(owners, n) {
        return None;
    }
    let mut graph = empty_graph(n);
    let cells: u64 = owners.len() as u64;
    let mut i: usize = 0;
    while i < owners.len()
        invariant
            i <= owners.len(),
            cells == owners.len(),
            owners.len() == cell_count(width, height),
            forall|c: int| 0 <= c < owners.len() ==> (#[trigger] owners[c]) < n,
            graph.tidy(n as nat),
            graph.edges_before(owners@, width as int, i as int),
        decreases owners.len() - i,
    {
        let a = owners[i];
        let ghost before = graph;
        let right: u64 = i as u64 + 1;
        assert(width > 0) by (nonlinear_arith)
            requires
                (width as nat) * (height as nat) > 0,
        ;
        if right < cells && right % (width as u64) != 0 {
            let b = owners[right as usize];
            if a != b {
                graph.link(a, b);
            }
        }
        let ghost between = graph;
        assert((width as nat) * (height as nat) <= 0xFFFF_FFFF * 0xFFFF_FFFF) by (nonlinear_arith)
            requires
                width <= 0xFFFF_FFFF,
                height <= 0xFFFF_FFFF,
        ;
        let below: u64 = i as u64 + width as u64;
        if below < cells {
            let b = owners[below as usize];
            if a != b {
                graph.link(a, b);
            }
        }
        proof {
            let w = width as int;
            assert forall|x: int, y: int| 0 <= x < n && 0 <= y < n implies (#[trigger] graph.has_edge(x, y)
                <==> adjacent_before(owners@, w, x, y, i + 1)) by {
                adjacent_step(owners@, w, x, y, i as int);
                assert(between.has_edge(x, y) <==> before.has_edge(x, y) || (x != y && separates(
                    owners@,
                    w,
                    i as int,
                    i + 1,
                    x,
                    y,
                ) && (i + 1) % w != 0));
                assert(graph.has_edge(x, y) <==> between.has_edge(x, y) || (x != y && separates(
                    owners@,
                    w,
                    i as int,
                    i + w,
                    x,
                    y,
                )));
            }
        }
        i += 1;
    }
    Some(graph)
}

} // verus!
