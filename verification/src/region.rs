//! Regions: named groups of provinces that partition the province ids.

use vstd::prelude::*;
use crate::province::filled;

verus! {

/// One region as the grouper reports it. The member list stands for a set:
/// a province that it names twice is held once.
#[derive(Debug)]
pub struct Region {
    pub id: u32,
    pub name: String,
    pub province_ids: Vec<u32>,
}

/// The region lists the province `id` among its members.
pub open spec fn holds(region: Region, id: int) -> bool {
    exists|j: int| 0 <= j < region.province_ids@.len() && #[trigger] region.province_ids@[j] == id
}

/// Some region lists the province `id` among its members.
pub open spec fn housed(regions: Seq<Region>, id: int) -> bool {
    exists|r: int| 0 <= r < regions.len() && #[trigger] holds(regions[r], id)
}

/// Region ids are pairwise different, and so are region names.
pub open spec fn labels_distinct(regions: Seq<Region>) -> bool {
    forall|a: int, b: int|
        0 <= a < b < regions.len() ==> {
            &&& (#[trigger] regions[a]).id != (#[trigger] regions[b]).id
            &&& regions[a].name@ != regions[b].name@
        }
}

/// No region is without a member.
pub open spec fn none_empty(regions: Seq<Region>) -> bool {
    forall|r: int| 0 <= r < regions.len() ==> (#[trigger] regions[r]).province_ids@.len() > 0
}

/// The member lists partition the ids below `n`: every member is below `n`,
/// every id below `n` is a member of some region, and none of two.
pub open spec fn members_partition(regions: Seq<Region>, n: nat) -> bool {
    &&& forall|r: int, j: int|
        0 <= r < regions.len() && 0 <= j < regions[r].province_ids@.len() ==> (
        #[trigger] regions[r].province_ids@[j]) < n
    &&& forall|id: int| 0 <= id < n ==> #[trigger] housed(regions, id)
    &&& forall|a: int, b: int, id: int|
        0 <= a < b < regions.len() ==> !(#[trigger] holds(regions[a], id) && #[trigger] holds(regions[b], id))
}

/// The regions are well formed over `n` provinces.
pub open spec fn regions_valid(regions: Seq<Region>, n: nat) -> bool {
    &&& labels_distinct(regions)
    &&& none_empty(regions)
    &&& members_partition(regions, n)
}

/// The table from province id to the position of the region that holds it.
pub open spec fn is_home_table(regions: Seq<Region>, n: nat, homes: Seq<usize>) -> bool {
    &&& homes.len() == n
    &&& forall|id: int|
        0 <= id < n ==> (#[trigger] homes[id]) < regions.len() && holds(regions[homes[id] as int], id)
}

/// In a partition a province has one region: two regions that hold the same
/// id are the same region.
pub proof fn home_is_unique(regions: Seq<Region>, n: nat, id: int, a: int, b: int)
    requires
        members_partition(regions, n),
        0 <= a < regions.len(),
        0 <= b < regions.len(),
        holds(regions[a], id),
        holds(regions[b], id),
    ensures
        a == b,
{
}

/// Decides whether region ids and names are pairwise different.
pub fn check_labels(regions: &Vec<Region>) -> (ok: bool)
    ensures
        ok == labels_distinct(regions@),
{
    let mut b: usize = 0;
    while b < regions.len()
        invariant
            b <= regions.len(),
            forall|i: int, j: int|
                0 <= i < j < b ==> {
                    &&& (#[trigger] regions@[i]).id != (#[trigger] regions@[j]).id
                    &&& regions@[i].name@ != regions@[j].name@
                },
        decreases regions.len() - b,
    {
        let mut a: usize = 0;
        while a < b
            invariant
                a <= b < regions.len(),
                forall|i: int|
                    0 <= i < a ==> {
                        &&& (#[trigger] regions@[i]).id != regions@[b as int].id
                        &&& regions@[i].name@ != regions@[b as int].name@
                    },
            decreases b - a,
        {
            if regions[a].id == regions[b].id || regions[a].name == regions[b].name {
                return false;
            }
            a += 1;
        }
        b += 1;
    }
    true
}

/// Decides whether every region has a member.
pub fn check_none_empty(regions: &Vec<Region>) -> (ok: bool)
    ensures
        ok == none_empty(regions@),
{
    let mut r: usize = 0;
    while r < regions.len()
        invariant
            r <= regions.len(),
            forall|i: int| 0 <= i < r ==> (#[trigger] regions@[i]).province_ids@.len() > 0,
        decreases regions.len() - r,
    {
        if regions[r].province_ids.len() == 0 {
            return false;
        }
        r += 1;
    }
    true
}

/// Builds the table from province id to the position of its region.
/// Succeeds exactly when the member lists partition the ids below `n`.
pub fn region_homes(regions: &Vec<Region>, n: usize) -> (result: Option<Vec<usize>>)
    ensures
        result.is_some() == members_partition(regions@, n as nat),
        result matches Some(homes) ==> is_home_table(regions@, n as nat, homes@),
{
    let count = regions.len();
    let mut homes = filled(n, count);
    let mut r: usize = 0;
    while r < count
        invariant
            r <= count,
            count == regions.len(),
            homes.len() == n,
            forall|a: int, t: int|
                0 <= a < r && 0 <= t < regions@[a].province_ids@.len() ==> (
                #[trigger] regions@[a].province_ids@[t]) < n && homes@[regions@[a].province_ids@[t] as int]
                    == a,
            forall|id: int|
                0 <= id < n && (#[trigger] homes@[id]) != count ==> homes@[id] < r && holds(
                    regions@[homes@[id] as int],
                    id,
                ),
            forall|id: int, a: int|
                0 <= id < n && homes@[id] == count && 0 <= a < r ==> !#[trigger] holds(regions@[a], id),
        decreases count - r,
    {
        let ids = &regions[r].province_ids;
        let mut j: usize = 0;
        while j < ids.len()
            invariant
                j <= ids.len(),
                r < count,
                count == regions.len(),
                homes.len() == n,
                ids@ == regions@[r as int].province_ids@,
                forall|a: int, t: int|
                    0 <= a < r && 0 <= t < regions@[a].province_ids@.len() ==> (
                    #[trigger] regions@[a].province_ids@[t]) < n
                        && homes@[regions@[a].province_ids@[t] as int] == a,
                forall|t: int| 0 <= t < j ==> (#[trigger] ids@[t]) < n && homes@[ids@[t] as int] == r,
                forall|id: int|
                    0 <= id < n && (#[trigger] homes@[id]) != count ==> homes@[id] <= r && holds(
                        regions@[homes@[id] as int],
                        id,
                    ),
                forall|id: int, a: int|
                    0 <= id < n && homes@[id] == count && 0 <= a < r ==> !#[trigger] holds(
                        regions@[a],
                        id,
                    ),
            decreases ids.len() - j,
        {
            let id = ids[j] as usize;
            if id >= n {
                return None;
            }
            assert(holds(regions@[r as int], id as int));
            let home = homes[id];
            if home == count {
                homes.set(id, r);
            } else if home != r {
                return None;
            }
            j += 1;
        }
        proof {
            assert forall|id: int, a: int|
                0 <= id < n && homes@[id] == count && 0 <= a < r + 1 implies !#[trigger] holds(
                regions@[a],
                id,
            ) by {
                if a == r && holds(regions@[a], id) {
                    let t = choose|t: int| 0 <= t < ids@.len() && #[trigger] ids@[t] == id;
                    assert(homes@[ids@[t] as int] == r);
                }
            }
        }
        r += 1;
    }
    let mut id: usize = 0;
    while id < n
        invariant
            id <= n,
            count == regions.len(),
            homes.len() == n,
            forall|i: int| 0 <= i < id ==> (#[trigger] homes@[i]) != count,
            forall|i: int, a: int|
                0 <= i < n && homes@[i] == count && 0 <= a < count ==> !#[trigger] holds(regions@[a], i),
        decreases n - id,
    {
        if homes[id] == count {
            assert(!housed(regions@, id as int));
            return None;
        }
        id += 1;
    }
    proof {
        assert forall|i: int| 0 <= i < n implies #[trigger] housed(regions@, i) by {
            assert(holds(regions@[homes@[i] as int], i));
        }
        assert forall|a: int, b: int, i: int| 0 <= a < b < regions@.len() implies !(#[trigger] holds(
            regions@[a],
            i,
        ) && #[trigger] holds(regions@[b], i)) by {
            if holds(regions@[a], i) && holds(regions@[b], i) {
                let ta = choose|t: int|
                    0 <= t < regions@[a].province_ids@.len() && #[trigger] regions@[a].province_ids@[t] == i;
                let tb = choose|t: int|
                    0 <= t < regions@[b].province_ids@.len() && #[trigger] regions@[b].province_ids@[t] == i;
                assert(homes@[regions@[a].province_ids@[ta] as int] == a);
                assert(homes@[regions@[b].province_ids@[tb] as int] == b);
            }
        }
    }
    Some(homes)
}

/// Checks the regions over `n` provinces and builds the table from province
/// id to region position. Succeeds exactly when the regions are well formed.
pub fn check_regions(regions: &Vec<Region>, n: usize) -> (result: Option<Vec<usize>>)
    ensures
        result.is_some() == regions_valid(regions@, n as nat),
        result matches Some(homes) ==> is_home_table(regions@, n as nat, homes@),
{
    if !check_labels(regions) || !check_none_empty(regions) {
        return None;
    }
    region_homes(regions, n)
}

/// `region_id` is the id of a region that holds the province `owner`.
pub open spec fn is_region_of(regions: Seq<Region>, owner: int, region_id: u32) -> bool {
    exists|r: int| 0 <= r < regions.len() && #[trigger] holds(regions[r], owner) && region_id == regions[r].id
}

/// Each cell carries the id of a region that holds the cell's owner.
pub open spec fn cells_follow_regions(regions: Seq<Region>, owners: Seq<u32>, cell_regions: Seq<u32>) -> bool {
    &&& cell_regions.len() == owners.len()
    &&& forall|i: int|
        0 <= i < owners.len() ==> #[trigger] is_region_of(regions, owners[i] as int, cell_regions[i])
}

/// Looks up, for every cell, the id of the region of the cell's owner.
pub(crate) fn region_of_cells(regions: &Vec<Region>, homes: &Vec<usize>, owners: &Vec<u32>) -> (cell_regions: Vec<u32>)
    requires
        is_home_table(regions@, homes@.len(), homes@),
        forall|i: int| 0 <= i < owners.len() ==> (#[trigger] owners[i]) < homes.len(),
    ensures
        cells_follow_regions(regions@, owners@, cell_regions@),
        forall|i: int|
            0 <= i < owners.len() ==> (#[trigger] cell_regions[i]) == regions[homes[owners[i] as int] as int].id,
{
    let mut cell_regions: Vec<u32> = Vec::new();
    let mut i: usize = 0;
    while i < owners.len()
        invariant
            i <= owners.len(),
            cell_regions.len() == i,
            is_home_table(regions@, homes@.len(), homes@),
            forall|c: int| 0 <= c < owners.len() ==> (#[trigger] owners[c]) < homes.len(),
            forall|c: int|
                0 <= c < i ==> (#[trigger] cell_regions[c]) == regions[homes[owners[c] as int] as int].id,
        decreases owners.len() - i,
    {
        let home = homes[owners[i] as usize];
        cell_regions.push(regions[home].id);
        i += 1;
    }
    proof {
        assert forall|c: int| 0 <= c < owners.len() implies #[trigger] is_region_of(
            regions@,
            owners@[c] as int,
            cell_regions@[c],
        ) by {
            assert(holds(regions@[homes@[owners@[c] as int] as int], owners@[c] as int));
        }
    }
    cell_regions
}

/// Gives every cell the id of the region that holds the cell's owner.
/// Succeeds exactly when the member lists partition the ids below `n` and
/// every owner is below `n`.
pub fn regions_per_cell(regions: &Vec<Region>, owners: &Vec<u32>, n: usize) -> (result: Option<Vec<u32>>)
    ensures
        result.is_some() == (members_partition(regions@, n as nat) && forall|i: int|
            0 <= i < owners.len() ==> (#[trigger] owners[i]) < n),
        result matches Some(cell_regions) ==> cells_follow_regions(regions@, owners@, cell_regions@),
{
    let homes = match region_homes(regions, n) {
        Some(homes) => homes,
        None => {
            return None;
        },
    };
    let mut i: usize = 0;
    while i < owners.len()
        invariant
            i <= owners.len(),
            forall|c: int| 0 <= c < i ==> (#[trigger] owners[c]) < n,
        decreases owners.len() - i,
    {
        if owners[i] as usize >= n {
            return None;
        }
        i += 1;
    }
    Some(region_of_cells(regions, &homes, owners))
}

/// Over a partition the region id of a cell is determined: it is the id of
/// whichever region holds the cell's owner.
pub proof fn cell_region_is_determined(
    regions: Seq<Region>,
    n: nat,
    owners: Seq<u32>,
    cell_regions: Seq<u32>,
    i: int,
    r: int,
)
    requires
        members_partition(regions, n),
        cells_follow_regions(regions, owners, cell_regions),
        0 <= i < owners.len(),
        0 <= r < regions.len(),
        holds(regions[r], owners[i] as int),
    ensures
        cell_regions[i] == regions[r].id,
{
    assert(is_region_of(regions, owners[i] as int, cell_regions[i]));
    let q = choose|q: int|
        0 <= q < regions.len() && #[trigger] holds(regions[q], owners[i] as int) && cell_regions[i]
            == regions[q].id;
    home_is_unique(regions, n, owners[i] as int, q, r);
}

} // verus!
