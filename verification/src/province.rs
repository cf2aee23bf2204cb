//! Provinces and the partition of the grid into them.

use vstd::prelude::*;
use vstd::set_lib::{lemma_int_range, lemma_subset_equality, set_int_range};

verus! {

/// One province as the partitioner reports it. The centroid is carried as the
/// two binary32 bit patterns of its coordinates and is not interpreted here.
#[derive(Clone, Copy, Debug, PartialEq, Eq, Structural)]
pub struct Province {
    pub id: u32,
    pub is_land: bool,
    pub coastal: bool,
    pub area: usize,
    pub center_x_bits: u32,
    pub center_y_bits: u32,
}

/// Some province of the list carries `id`.
pub open spec fn listed(provinces: Seq<Province>, id: int) -> bool {
    exists|k: int| 0 <= k < provinces.len() && (#[trigger] provinces[k]).id == id
}

/// The ids are pairwise different and each lies below the number of provinces.
pub open spec fn ids_dense(provinces: Seq<Province>) -> bool {
    &&& forall|k: int| 0 <= k < provinces.len() ==> (#[trigger] provinces[k]).id < provinces.len()
    &&& forall|j: int, k: int|
        0 <= j < k < provinces.len() ==> (#[trigger] provinces[j]).id != (#[trigger] provinces[k]).id
}

/// Number of cells whose owner is `id`.
pub open spec fn owned_cells(owners: Seq<u32>, id: int) -> nat
    decreases owners.len(),
{
    if owners.len() == 0 {
        0
    } else {
        owned_cells(owners.drop_last(), id) + if owners.last() == id {
            1nat
        } else {
            0nat
        }
    }
}

/// Number of provinces that were grown from a land seed.
pub open spec fn land_provinces(provinces: Seq<Province>) -> nat
    decreases provinces.len(),
{
    if provinces.len() == 0 {
        0
    } else {
        land_provinces(provinces.drop_last()) + if provinces.last().is_land {
            1nat
        } else {
            0nat
        }
    }
}

/// Sum of the areas of the provinces.
pub open spec fn area_sum(provinces: Seq<Province>) -> nat
    decreases provinces.len(),
{
    if provinces.len() == 0 {
        0
    } else {
        area_sum(provinces.drop_last()) + provinces.last().area as nat
    }
}

/// The provinces partition a grid of `cells` cells: every cell has an owner
/// below the number of provinces, ids are dense, and each province's area is
/// the positive number of cells that it owns.
pub open spec fn partition_valid(provinces: Seq<Province>, owners: Seq<u32>, cells: nat) -> bool {
    &&& owners.len() == cells
    &&& ids_dense(provinces)
    &&& forall|i: int| 0 <= i < owners.len() ==> (#[trigger] owners[i]) < provinces.len()
    &&& forall|k: int|
        0 <= k < provinces.len() ==> {
            &&& (#[trigger] provinces[k]).area > 0
            &&& provinces[k].area == owned_cells(owners, provinces[k].id as int)
        }
}

/// Dense ids use up the whole range: every id below the number of provinces
/// is carried by a province.
pub proof fn dense_ids_cover(provinces: Seq<Province>, id: int)
    requires
        ids_dense(provinces),
        0 <= id < provinces.len(),
    ensures
        listed(provinces, id),
{
    let ids = Seq::new(provinces.len(), |k: int| provinces[k].id as int);
    assert(ids.no_duplicates());
    ids.unique_seq_to_set();
    let range = set_int_range(0, provinces.len() as int);
    lemma_int_range(0, provinces.len() as int);
    assert(ids.to_set().subset_of(range)) by {
        assert forall|x: int| ids.to_set().contains(x) implies range.contains(x) by {
            let k = choose|k: int| 0 <= k < ids.len() && ids[k] == x;
            assert(provinces[k].id == x);
        }
    }
    lemma_subset_equality(ids.to_set(), range);
    assert(range.contains(id));
    assert(ids.to_set().contains(id));
    let k = choose|k: int| 0 <= k < ids.len() && ids[k] == id;
    assert(provinces[k].id == id);
}

/// A vector of `n` copies of `value`.
pub(crate) fn filled<T: Copy>(n: usize, value: T) -> (v: Vec<T>)
    ensures
        v.len() == n,
        forall|i: int| 0 <= i < n ==> v[i] == value,
{
    let mut v: Vec<T> = Vec::new();
    let mut i: usize = 0;
    while i < n
        invariant
            i <= n,
            v.len() == i,
            forall|j: int| 0 <= j < i ==> v[j] == value,
        decreases n - i,
    {
        v.push(value);
        i += 1;
    }
    v
}

/// The table from id to position in the list: `slots[id]` is the index of the
/// province that carries `id`.
pub open spec fn is_slot_table(provinces: Seq<Province>, slots: Seq<usize>) -> bool {
    &&& slots.len() == provinces.len()
    &&& forall|id: int|
        0 <= id < slots.len() ==> (#[trigger] slots[id]) < provinces.len() && provinces[slots[id] as int].id
            == id
}

/// Builds the table from id to position. Succeeds exactly when the ids are
/// dense.
pub fn province_slots(provinces: &Vec<Province>) -> (result: Option<Vec<usize>>)
    ensures
        result.is_some() == ids_dense(provinces@),
        result matches Some(slots) ==> is_slot_table(provinces@, slots@),
{
    let n = provinces.len();
    let mut slots = filled(n, n);
    let mut k: usize = 0;
    while k < n
        invariant
            k <= n,
            n == provinces.len(),
            slots.len() == n,
            forall|j: int| 0 <= j < k ==> (#[trigger] provinces@[j]).id < n,
            forall|i: int, j: int|
                0 <= i < j < k ==> (#[trigger] provinces@[i]).id != (#[trigger] provinces@[j]).id,
            forall|id: int|
                0 <= id < n && (#[trigger] slots@[id]) != n ==> slots@[id] < k && provinces@[slots@[id] as int].id
                    == id,
            forall|j: int| 0 <= j < k ==> slots@[(#[trigger] provinces@[j]).id as int] == j,
        decreases n - k,
    {
        let id = provinces[k].id as usize;
        if id >= n {
            return None;
        }
        if slots[id] != n {
            assert(provinces@[slots@[id as int] as int].id == provinces@[k as int].id);
            return None;
        }
        slots.set(id, k);
        k += 1;
    }
    proof {
        assert(ids_dense(provinces@));
        assert forall|id: int| 0 <= id < n implies (#[trigger] slots@[id]) < n && provinces@[slots@[id] as int].id
            == id by {
            dense_ids_cover(provinces@, id);
            let j = choose|j: int| 0 <= j < provinces@.len() && (#[trigger] provinces@[j]).id == id;
            assert(slots@[provinces@[j].id as int] == j);
        }
    }
    Some(slots)
}

/// Counts, for every id below `n`, the cells that it owns. Fails exactly when
/// some cell's owner is not below `n`.
pub fn count_owned(owners: &Vec<u32>, n: usize) -> (result: Option<Vec<usize>>)
    ensures
        result.is_some() == (forall|i: int| 0 <= i < owners.len() ==> (#[trigger] owners[i]) < n),
        result matches Some(counts) ==> {
            &&& counts.len() == n
            &&& forall|id: int| 0 <= id < n ==> (#[trigger] counts[id]) == owned_cells(owners@, id)
        },
{
    let mut counts = filled(n, 0);
    let mut i: usize = 0;
    while i < owners.len()
        invariant
            i <= owners.len(),
            counts.len() == n,
            forall|j: int| 0 <= j < i ==> (#[trigger] owners[j]) < n,
            forall|id: int|
                0 <= id < n ==> (#[trigger] counts[id]) == owned_cells(owners@.take(i as int), id),
            forall|id: int| 0 <= id < n ==> (#[trigger] counts[id]) <= i,
        decreases owners.len() - i,
    {
        let owner = owners[i] as usize;
        if owner >= n {
            return None;
        }
        assert(owners@.take(i + 1).drop_last() =~= owners@.take(i as int));
        let seen = counts[owner];
        counts.set(owner, seen + 1);
        i += 1;
    }
    assert(owners@.take(owners.len() as int) =~= owners@);
    Some(counts)
}

/// Decides whether the provinces partition a grid of `cells` cells.
pub fn check_partition(provinces: &Vec<Province>, owners: &Vec<u32>, cells: usize) -> (ok: bool)
    ensures
        ok == partition_valid(provinces@, owners@, cells as nat),
{
    if owners.len() != cells {
        return false;
    }
    if province_slots(provinces).is_none() {
        return false;
    }
    let n = provinces.len();
    let counts = match count_owned(owners, n) {
        Some(counts) => counts,
        None => {
            return false;
        },
    };
    let mut k: usize = 0;
    while k < n
        invariant
            k <= n,
            n == provinces.len(),
            counts.len() == n,
            ids_dense(provinces@),
            forall|id: int| 0 <= id < n ==> (#[trigger] counts[id]) == owned_cells(owners@, id),
            forall|j: int|
                0 <= j < k ==> {
                    &&& (#[trigger] provinces@[j]).area > 0
                    &&& provinces@[j].area == owned_cells(owners@, provinces@[j].id as int)
                },
        decreases n - k,
    {
        let province = provinces[k];
        if province.area == 0 || province.area != counts[province.id as usize] {
            return false;
        }
        k += 1;
    }
    true
}

/// Counts the provinces grown from land seeds and those grown from sea
/// seeds.
pub fn seed_counts(provinces: &Vec<Province>) -> (counts: (usize, usize))
    ensures
        counts.0 == land_provinces(provinces@),
        counts.0 + counts.1 == provinces.len(),
{
    let mut land: usize = 0;
    let mut k: usize = 0;
    while k < provinces.len()
        invariant
            k <= provinces.len(),
            land == land_provinces(provinces@.take(k as int)),
            land <= k,
        decreases provinces.len() - k,
    {
        assert(provinces@.take(k + 1).drop_last() =~= provinces@.take(k as int));
        if provinces[k].is_land {
            land += 1;
        }
        k += 1;
    }
    assert(provinces@.take(provinces.len() as int) =~= provinces@);
    (land, provinces.len() - land)
}

/// Number of provinces of the list that carry `id`.
pub open spec fn carriers(provinces: Seq<Province>, id: int) -> nat
    decreases provinces.len(),
{
    if provinces.len() == 0 {
        0
    } else {
        carriers(provinces.drop_last(), id) + if provinces.last().id == id {
            1nat
        } else {
            0nat
        }
    }
}

/// Sum, over the provinces, of the number of cells that each one's id owns.
pub open spec fn owned_sum(provinces: Seq<Province>, owners: Seq<u32>) -> nat
    decreases provinces.len(),
{
    if provinces.len() == 0 {
        0
    } else {
        owned_sum(provinces.drop_last(), owners) + owned_cells(owners, provinces.last().id as int)
    }
}

proof fn carriers_of_distinct(provinces: Seq<Province>, id: int)
    requires
        forall|j: int, k: int|
            0 <= j < k < provinces.len() ==> (#[trigger] provinces[j]).id != (#[trigger] provinces[k]).id,
    ensures
        carriers(provinces, id) == if listed(provinces, id) {
            1nat
        } else {
            0nat
        },
    decreases provinces.len(),
{
    if provinces.len() > 0 {
        let front = provinces.drop_last();
        carriers_of_distinct(front, id);
        if listed(front, id) {
            let k = choose|k: int| 0 <= k < front.len() && (#[trigger] front[k]).id == id;
            assert(provinces[k].id == id);
            assert(provinces.last().id != id);
        } else if provinces.last().id == id {
            assert(provinces[provinces.len() - 1].id == id);
        } else {
            if listed(provinces, id) {
                let k = choose|k: int| 0 <= k < provinces.len() && (#[trigger] provinces[k]).id == id;
                assert(front[k].id == id);
            }
        }
    }
}

proof fn owned_sum_empty(provinces: Seq<Province>)
    ensures
        owned_sum(provinces, Seq::<u32>::empty()) == 0,
    decreases provinces.len(),
{
    if provinces.len() > 0 {
        owned_sum_empty(provinces.drop_last());
    }
}

proof fn owned_sum_push(provinces: Seq<Province>, owners: Seq<u32>, owner: u32)
    ensures
        owned_sum(provinces, owners.push(owner)) == owned_sum(provinces, owners) + carriers(
            provinces,
            owner as int,
        ),
    decreases provinces.len(),
{
    if provinces.len() > 0 {
        owned_sum_push(provinces.drop_last(), owners, owner);
        assert(owners.push(owner).drop_last() =~= owners);
    }
}

proof fn owned_sum_is_cells(provinces: Seq<Province>, owners: Seq<u32>)
    requires
        ids_dense(provinces),
        forall|i: int| 0 <= i < owners.len() ==> (#[trigger] owners[i]) < provinces.len(),
    ensures
        owned_sum(provinces, owners) == owners.len(),
    decreases owners.len(),
{
    if owners.len() == 0 {
        assert(owners =~= Seq::<u32>::empty());
        owned_sum_empty(provinces);
    } else {
        let front = owners.drop_last();
        let owner = owners.last();
        assert(owners =~= front.push(owner));
        owned_sum_is_cells(provinces, front);
        owned_sum_push(provinces, front, owner);
        carriers_of_distinct(provinces, owner as int);
        dense_ids_cover(provinces, owner as int);
    }
}

proof fn area_sum_is_owned_sum(provinces: Seq<Province>, owners: Seq<u32>)
    requires
        forall|k: int|
            0 <= k < provinces.len() ==> (#[trigger] provinces[k]).area == owned_cells(
                owners,
                provinces[k].id as int,
            ),
    ensures
        area_sum(provinces) == owned_sum(provinces, owners),
    decreases provinces.len(),
{
    if provinces.len() > 0 {
        let front = provinces.drop_last();
        assert forall|k: int| 0 <= k < front.len() implies (#[trigger] front[k]).area == owned_cells(
            owners,
            front[k].id as int,
        ) by {
            assert(front[k] == provinces[k]);
        }
        area_sum_is_owned_sum(front, owners);
        assert(provinces.last() == provinces[provinces.len() - 1]);
    }
}

/// The areas of the provinces of a partition add up to the number of cells.
pub proof fn areas_cover_grid(provinces: Seq<Province>, owners: Seq<u32>, cells: nat)
    requires
        partition_valid(provinces, owners, cells),
    ensures
        area_sum(provinces) == cells,
{
    area_sum_is_owned_sum(provinces, owners);
    owned_sum_is_cells(provinces, owners);
}

/// An id that owns a positive number of cells owns some cell.
pub proof fn owned_cell_exists(owners: Seq<u32>, id: int)
    requires
        owned_cells(owners, id) > 0,
    ensures
        exists|i: int| 0 <= i < owners.len() && #[trigger] owners[i] == id,
    decreases owners.len(),
{
    if owners.last() == id {
        assert(owners[owners.len() - 1] == id);
    } else {
        owned_cell_exists(owners.drop_last(), id);
        let i = choose|i: int| 0 <= i < owners.len() - 1 && #[trigger] owners.drop_last()[i] == id;
        assert(owners[i] == id);
    }
}

/// In a partition the ids in use are exactly those below the number of
/// provinces, and none of them is without a cell.
pub proof fn no_province_is_empty(provinces: Seq<Province>, owners: Seq<u32>, cells: nat, id: int)
    requires
        partition_valid(provinces, owners, cells),
        0 <= id < provinces.len(),
    ensures
        listed(provinces, id),
        exists|i: int| 0 <= i < owners.len() && #[trigger] owners[i] == id,
{
    dense_ids_cover(provinces, id);
    let k = choose|k: int| 0 <= k < provinces.len() && (#[trigger] provinces[k]).id == id;
    owned_cell_exists(owners, id);
}

} // verus!
