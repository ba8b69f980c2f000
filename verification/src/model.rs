//! The mathematical model of the graph: ghost records for each entity kind,
//! and the pure formulas that every derived field must agree with.
//!
//! Raw values are fixed-point integers: a length is stored in hundredths of a
//! unit, so an area (a product of two lengths) is in ten-thousandths and a
//! volume (a product of three) is in millionths of the respective unit.

use vstd::prelude::*;
use crate::error::EvalError;

verus! {

/// Most entities a single index may hold. Keeping every index this small
/// lets every aggregate in the library be computed in `i128` with no
/// overflow.
pub const MAX_ENTITIES: usize = 65536;

/// Scale of a ratio: a ratio of 1 is reported as `PCT_SCALE`.
pub const PCT_SCALE: u32 = 1000000;

/// One value cell holds less than this (it is stored in a `u32`).
pub open spec fn cell_limit() -> int {
    0x1_0000_0000
}

/// Strict bound on the area of one entity.
pub open spec fn area_limit() -> int {
    cell_limit() * cell_limit()
}

/// Strict bound on the volume of one entity.
pub open spec fn volume_limit() -> int {
    cell_limit() * cell_limit() * cell_limit()
}

/// Strict bound on the magnitude of any well-formed signal's value; far
/// below `i128::MAX`, so evaluation never overflows.
pub open spec fn sig_limit() -> int {
    0x100_0000_0000_0000_0000_0000_0000_0000 // 2^120
}

/// A container entity: only its identity is stored; all of its fields are
/// derived.
pub ghost struct HouseData {
    pub id: int,
}

/// An item entity: identity, the foreign key of its parent container, and
/// three raw dimension cells.
pub ghost struct RoomData {
    pub id: int,
    pub parent_id: int,
    pub length: int,
    pub width: int,
    pub height: int,
}

/// A sub-item entity: identity, the foreign key of its parent item, and two
/// raw dimension cells.
pub ghost struct WindowData {
    pub id: int,
    pub room_id: int,
    pub width: int,
    pub height: int,
}

/// The whole graph: one append-only relational index per entity kind.
pub ghost struct GraphData {
    pub houses: Seq<HouseData>,
    pub rooms: Seq<RoomData>,
    pub windows: Seq<WindowData>,
}

impl GraphData {
    /// Every index is small and every raw cell holds a `u32` value.
    pub open spec fn wf(self) -> bool {
        &&& self.houses.len() <= MAX_ENTITIES
        &&& self.rooms.len() <= MAX_ENTITIES
        &&& self.windows.len() <= MAX_ENTITIES
        &&& forall|i: int|
            0 <= i < self.rooms.len() ==> {
                &&& 0 <= (#[trigger] self.rooms[i]).length < cell_limit()
                &&& 0 <= self.rooms[i].width < cell_limit()
                &&& 0 <= self.rooms[i].height < cell_limit()
            }
        &&& forall|i: int|
            0 <= i < self.windows.len() ==> {
                &&& 0 <= (#[trigger] self.windows[i]).width < cell_limit()
                &&& 0 <= self.windows[i].height < cell_limit()
            }
    }
}

/// Area of one sub-item: the product of its two dimensions.
pub open spec fn window_area(w: WindowData) -> int {
    w.width * w.height
}

/// Volume of one item: the product of its three dimensions.
pub open spec fn room_volume(r: RoomData) -> int {
    r.length * r.width * r.height
}

/// Total wall area of an item before sub-items are cut out.
pub open spec fn room_walls(r: RoomData) -> int {
    2 * (r.height * r.length) + 2 * (r.height * r.width) + 2 * (r.width * r.length)
}

/// Sum of the areas of the first `n` sub-items whose foreign key is `rid`.
pub open spec fn windows_area_sum_upto(d: GraphData, rid: int, n: int) -> int
    decreases n,
{
    if n <= 0 {
        0
    } else {
        windows_area_sum_upto(d, rid, n - 1) + if d.windows[n - 1].room_id == rid {
            window_area(d.windows[n - 1])
        } else {
            0
        }
    }
}

/// Sum of the areas of every sub-item of item `rid`, in index order.
pub open spec fn windows_area_sum(d: GraphData, rid: int) -> int {
    windows_area_sum_upto(d, rid, d.windows.len() as int)
}

/// Net surface of an item: its walls minus its sub-items' areas.
pub open spec fn room_surface(d: GraphData, r: RoomData) -> int {
    room_walls(r) - windows_area_sum(d, r.id)
}

/// Sum of the volumes of the first `n` items whose foreign key is `hid`.
pub open spec fn rooms_volume_sum_upto(d: GraphData, hid: int, n: int) -> int
    decreases n,
{
    if n <= 0 {
        0
    } else {
        rooms_volume_sum_upto(d, hid, n - 1) + if d.rooms[n - 1].parent_id == hid {
            room_volume(d.rooms[n - 1])
        } else {
            0
        }
    }
}

/// Total volume of container `hid`: the sum of the volumes of its items.
pub open spec fn rooms_volume_sum(d: GraphData, hid: int) -> int {
    rooms_volume_sum_upto(d, hid, d.rooms.len() as int)
}

/// Sum, over the first `n` items of container `hid`, of the areas of each
/// item's sub-items.
pub open spec fn house_windows_area_sum_upto(d: GraphData, hid: int, n: int) -> int
    decreases n,
{
    if n <= 0 {
        0
    } else {
        house_windows_area_sum_upto(d, hid, n - 1) + if d.rooms[n - 1].parent_id == hid {
            windows_area_sum(d, d.rooms[n - 1].id)
        } else {
            0
        }
    }
}

/// Total sub-item area of container `hid`, walking its items in index order.
pub open spec fn house_windows_area_sum(d: GraphData, hid: int) -> int {
    house_windows_area_sum_upto(d, hid, d.rooms.len() as int)
}

/// How many of the first `n` containers carry id `hid`.
pub open spec fn count_houses_upto(d: GraphData, hid: int, n: int) -> int
    decreases n,
{
    if n <= 0 {
        0
    } else {
        count_houses_upto(d, hid, n - 1) + if d.houses[n - 1].id == hid {
            1int
        } else {
            0int
        }
    }
}

/// How many containers carry id `hid`.
pub open spec fn count_houses(d: GraphData, hid: int) -> int {
    count_houses_upto(d, hid, d.houses.len() as int)
}

/// Index of the first container with id `hid` among the first `n`, or -1.
pub open spec fn first_house_upto(d: GraphData, hid: int, n: int) -> int
    decreases n,
{
    if n <= 0 {
        -1
    } else if first_house_upto(d, hid, n - 1) >= 0 {
        first_house_upto(d, hid, n - 1)
    } else if d.houses[n - 1].id == hid {
        n - 1
    } else {
        -1
    }
}

/// Index of the first container with id `hid`, or -1 when there is none.
pub open spec fn first_house(d: GraphData, hid: int) -> int {
    first_house_upto(d, hid, d.houses.len() as int)
}

/// Resolving a parent container by id: exactly one match is required.
pub open spec fn resolve_house(d: GraphData, hid: int) -> Result<int, EvalError> {
    if count_houses(d, hid) == 0 {
        Err(EvalError::MissingRelation)
    } else if count_houses(d, hid) > 1 {
        Err(EvalError::Multiplicity)
    } else {
        Ok(first_house(d, hid))
    }
}

/// A ratio scaled by `PCT_SCALE`, defined for a non-negative value and a
/// positive total, and truncated toward zero.
pub open spec fn ratio_scaled(v: int, total: int) -> Result<int, EvalError> {
    if v < 0 || total <= 0 {
        Err(EvalError::UndefinedRatio)
    } else {
        Ok((v * PCT_SCALE) / total)
    }
}

/// Share of its container's total volume that one item takes, scaled by
/// `PCT_SCALE`; fails as the parent lookup or the ratio fails.
pub open spec fn room_volume_percentage(d: GraphData, r: RoomData) -> Result<int, EvalError> {
    match resolve_house(d, r.parent_id) {
        Err(e) => Err(e),
        Ok(_) => ratio_scaled(room_volume(r), rooms_volume_sum(d, r.parent_id)),
    }
}

/// Indices, among the first `n` items, of the items of container `hid`, in
/// original relative order.
pub open spec fn room_indices_upto(d: GraphData, hid: int, n: int) -> Seq<int>
    decreases n,
{
    if n <= 0 {
        Seq::empty()
    } else if d.rooms[n - 1].parent_id == hid {
        room_indices_upto(d, hid, n - 1).push(n - 1)
    } else {
        room_indices_upto(d, hid, n - 1)
    }
}

/// Indices of the items currently filtered to container `hid`.
pub open spec fn room_indices(d: GraphData, hid: int) -> Seq<int> {
    room_indices_upto(d, hid, d.rooms.len() as int)
}

/// Indices, among the first `n` sub-items, of the sub-items of item `rid`.
pub open spec fn window_indices_upto(d: GraphData, rid: int, n: int) -> Seq<int>
    decreases n,
{
    if n <= 0 {
        Seq::empty()
    } else if d.windows[n - 1].room_id == rid {
        window_indices_upto(d, rid, n - 1).push(n - 1)
    } else {
        window_indices_upto(d, rid, n - 1)
    }
}

/// Indices of the sub-items currently filtered to item `rid`.
pub open spec fn window_indices(d: GraphData, rid: int) -> Seq<int> {
    window_indices_upto(d, rid, d.windows.len() as int)
}

/// Indices of the sub-items of container `hid`'s first `n` items: per item
/// in index order, that item's sub-items in index order, flattened.
pub open spec fn house_window_indices_upto(d: GraphData, hid: int, n: int) -> Seq<int>
    decreases n,
{
    if n <= 0 {
        Seq::empty()
    } else if d.rooms[n - 1].parent_id == hid {
        house_window_indices_upto(d, hid, n - 1) + window_indices(d, d.rooms[n - 1].id)
    } else {
        house_window_indices_upto(d, hid, n - 1)
    }
}

/// Indices of all sub-items of container `hid`, flattened in item order.
pub open spec fn house_window_indices(d: GraphData, hid: int) -> Seq<int> {
    house_window_indices_upto(d, hid, d.rooms.len() as int)
}

/// How many of the first `n` items belong to container `hid` and carry
/// id `rid`.
pub open spec fn member_rooms_with_id_upto(d: GraphData, hid: int, rid: int, n: int) -> int
    decreases n,
{
    if n <= 0 {
        0
    } else {
        member_rooms_with_id_upto(d, hid, rid, n - 1) + if d.rooms[n - 1].parent_id == hid
            && d.rooms[n - 1].id == rid {
            1int
        } else {
            0int
        }
    }
}

/// How many items of container `hid` carry id `rid`.
pub open spec fn member_rooms_with_id(d: GraphData, hid: int, rid: int) -> int {
    member_rooms_with_id_upto(d, hid, rid, d.rooms.len() as int)
}

/// Entity identity within one container: among the items of container
/// `hid`, ids are unique. The data-model convention of the graph; the
/// aggregates below take their unit-weight form exactly under it.
pub open spec fn unique_member_ids(d: GraphData, hid: int) -> bool {
    forall|j: int, k: int|
        0 <= j < k < d.rooms.len() && (#[trigger] d.rooms[j]).parent_id == hid
            && (#[trigger] d.rooms[k]).parent_id == hid ==> d.rooms[j].id != d.rooms[k].id
}

/// A member count is non-negative, and zero exactly when no item matches.
pub proof fn lemma_member_count_zero_iff(d: GraphData, hid: int, rid: int, n: int)
    ensures
        member_rooms_with_id_upto(d, hid, rid, n) >= 0,
        (member_rooms_with_id_upto(d, hid, rid, n) == 0) <==> (forall|j: int|
            0 <= j < n ==> !((#[trigger] d.rooms[j]).parent_id == hid && d.rooms[j].id
                == rid)),
    decreases n,
{
    if n > 0 {
        lemma_member_count_zero_iff(d, hid, rid, n - 1);
    }
}

/// Under unique member ids, at most one item of the container carries any
/// given id.
pub proof fn lemma_member_count_at_most_one(d: GraphData, hid: int, rid: int, n: int)
    requires
        0 <= n <= d.rooms.len(),
        unique_member_ids(d, hid),
    ensures
        member_rooms_with_id_upto(d, hid, rid, n) <= 1,
    decreases n,
{
    if n > 0 {
        lemma_member_count_at_most_one(d, hid, rid, n - 1);
        if d.rooms[n - 1].parent_id == hid && d.rooms[n - 1].id == rid {
            lemma_member_count_zero_iff(d, hid, rid, n - 1);
            assert forall|j: int| 0 <= j < n - 1 implies !((#[trigger] d.rooms[j]).parent_id
                == hid && d.rooms[j].id == rid) by {
                if d.rooms[j].parent_id == hid {
                    assert(d.rooms[j].id != d.rooms[n - 1].id);
                }
            }
        }
    }
}

/// Member counts read the item index alone.
pub proof fn lemma_member_count_depends_on_rooms(
    d1: GraphData,
    d2: GraphData,
    hid: int,
    rid: int,
    n: int,
)
    requires
        d1.rooms == d2.rooms,
    ensures
        member_rooms_with_id_upto(d1, hid, rid, n) == member_rooms_with_id_upto(
            d2,
            hid,
            rid,
            n,
        ),
    decreases n,
{
    if n > 0 {
        lemma_member_count_depends_on_rooms(d1, d2, hid, rid, n - 1);
    }
}

/// With no sub-items in the index, every container aggregate is zero.
pub proof fn lemma_house_sum_no_windows(d: GraphData, hid: int, m: int)
    requires
        d.windows.len() == 0,
    ensures
        house_windows_area_sum_upto(d, hid, m) == 0,
    decreases m,
{
    if m > 0 {
        lemma_house_sum_no_windows(d, hid, m - 1);
        assert(windows_area_sum(d, d.rooms[m - 1].id) == 0);
    }
}

/// The graph with only the first `n` sub-items of `d` in its index.
pub open spec fn windows_prefix(d: GraphData, n: int) -> GraphData {
    GraphData { houses: d.houses, rooms: d.rooms, windows: d.windows.take(n) }
}

/// The container aggregate seen sub-item by sub-item: each sub-item
/// contributes its area once per member item carrying its parent key.
pub open spec fn per_window_total_upto(d: GraphData, hid: int, n: int) -> int
    decreases n,
{
    if n <= 0 {
        0
    } else {
        per_window_total_upto(d, hid, n - 1) + member_rooms_with_id(
            d,
            hid,
            d.windows[n - 1].room_id,
        ) * window_area(d.windows[n - 1])
    }
}

/// The container aggregate seen sub-item by sub-item with unit weights:
/// each sub-item contributes its area exactly when some member item carries
/// its parent key.
pub open spec fn matched_window_total_upto(d: GraphData, hid: int, n: int) -> int
    decreases n,
{
    if n <= 0 {
        0
    } else {
        matched_window_total_upto(d, hid, n - 1) + if (exists|j: int|
            0 <= j < d.rooms.len() && (#[trigger] d.rooms[j]).parent_id == hid
                && d.rooms[j].id == d.windows[n - 1].room_id) {
            window_area(d.windows[n - 1])
        } else {
            0int
        }
    }
}

/// Sum of a sequence of integers.
pub open spec fn seq_sum(s: Seq<int>) -> int
    decreases s.len(),
{
    if s.len() == 0 {
        0
    } else {
        seq_sum(s.drop_last()) + s.last()
    }
}

/// A prefix holds a match exactly when it holds a first match.
pub proof fn lemma_count_first(d: GraphData, hid: int, n: int)
    ensures
        (count_houses_upto(d, hid, n) > 0) <==> (first_house_upto(d, hid, n) >= 0),
        count_houses_upto(d, hid, n) >= 0,
    decreases n,
{
    if n > 0 {
        lemma_count_first(d, hid, n - 1);
    }
}

/// Two states whose container indexes agree count matches alike.
pub proof fn lemma_count_depends_on_houses(d1: GraphData, d2: GraphData, hid: int, n: int)
    requires
        d1.houses == d2.houses,
    ensures
        count_houses_upto(d1, hid, n) == count_houses_upto(d2, hid, n),
    decreases n,
{
    if n > 0 {
        lemma_count_depends_on_houses(d1, d2, hid, n - 1);
    }
}

/// Two states whose first `n` items agree sum their volumes alike.
pub proof fn lemma_volume_sum_prefix(d1: GraphData, d2: GraphData, hid: int, n: int)
    requires
        forall|j: int| 0 <= j < n ==> #[trigger] d1.rooms[j] == d2.rooms[j],
    ensures
        rooms_volume_sum_upto(d1, hid, n) == rooms_volume_sum_upto(d2, hid, n),
    decreases n,
{
    if n > 0 {
        lemma_volume_sum_prefix(d1, d2, hid, n - 1);
    }
}

/// Two states whose first `n` sub-items agree sum their areas alike.
pub proof fn lemma_area_sum_prefix(d1: GraphData, d2: GraphData, rid: int, n: int)
    requires
        forall|j: int| 0 <= j < n ==> #[trigger] d1.windows[j] == d2.windows[j],
    ensures
        windows_area_sum_upto(d1, rid, n) == windows_area_sum_upto(d2, rid, n),
    decreases n,
{
    if n > 0 {
        lemma_area_sum_prefix(d1, d2, rid, n - 1);
    }
}

/// Two states with the same membership and the same cells on the members of
/// container `hid` give it the same total volume, whatever the items of
/// other containers hold.
pub proof fn lemma_volume_sum_same_members(d1: GraphData, d2: GraphData, hid: int, n: int)
    requires
        d1.rooms.len() == d2.rooms.len(),
        forall|j: int|
            0 <= j < d1.rooms.len() ==> (#[trigger] d1.rooms[j]).parent_id
                == d2.rooms[j].parent_id,
        forall|j: int|
            0 <= j < d1.rooms.len() && d1.rooms[j].parent_id == hid ==> #[trigger] d1.rooms[j]
                == d2.rooms[j],
        n <= d1.rooms.len(),
    ensures
        rooms_volume_sum_upto(d1, hid, n) == rooms_volume_sum_upto(d2, hid, n),
    decreases n,
{
    if n > 0 {
        lemma_volume_sum_same_members(d1, d2, hid, n - 1);
    }
}

/// The per-item bound on a volume also bounds each partial volume sum.
pub proof fn lemma_rooms_volume_sum_bound(d: GraphData, hid: int, n: int)
    requires
        d.wf(),
        0 <= n <= d.rooms.len(),
    ensures
        0 <= rooms_volume_sum_upto(d, hid, n) <= n * (volume_limit() - 1),
    decreases n,
{
    if n > 0 {
        lemma_rooms_volume_sum_bound(d, hid, n - 1);
        let r = d.rooms[n - 1];
        assert(0 <= room_volume(r) <= volume_limit() - 1) by (nonlinear_arith)
            requires
                0 <= r.length < cell_limit(),
                0 <= r.width < cell_limit(),
                0 <= r.height < cell_limit(),
        ;
        assert((n - 1) * (volume_limit() - 1) + (volume_limit() - 1) == n * (volume_limit() - 1))
            by (nonlinear_arith);
    }
}

/// The per-sub-item bound on an area also bounds each partial area sum.
pub proof fn lemma_windows_area_sum_bound(d: GraphData, rid: int, n: int)
    requires
        d.wf(),
        0 <= n <= d.windows.len(),
    ensures
        0 <= windows_area_sum_upto(d, rid, n) <= n * (area_limit() - 1),
    decreases n,
{
    if n > 0 {
        lemma_windows_area_sum_bound(d, rid, n - 1);
        let w = d.windows[n - 1];
        assert(0 <= window_area(w) <= area_limit() - 1) by (nonlinear_arith)
            requires
                0 <= w.width < cell_limit(),
                0 <= w.height < cell_limit(),
        ;
        assert((n - 1) * (area_limit() - 1) + (area_limit() - 1) == n * (area_limit() - 1))
            by (nonlinear_arith);
    }
}

/// Bound on the aggregated sub-item area of a whole container.
pub proof fn lemma_house_windows_area_sum_bound(d: GraphData, hid: int, n: int)
    requires
        d.wf(),
        0 <= n <= d.rooms.len(),
    ensures
        0 <= house_windows_area_sum_upto(d, hid, n) <= n * MAX_ENTITIES * (area_limit() - 1),
    decreases n,
{
    if n > 0 {
        lemma_house_windows_area_sum_bound(d, hid, n - 1);
        let r = d.rooms[n - 1];
        lemma_windows_area_sum_bound(d, r.id, d.windows.len() as int);
        assert(windows_area_sum(d, r.id) <= MAX_ENTITIES * (area_limit() - 1))
            by (nonlinear_arith)
            requires
                windows_area_sum(d, r.id) <= d.windows.len() * (area_limit() - 1),
                d.windows.len() <= MAX_ENTITIES,
                area_limit() >= 1,
        ;
        assert((n - 1) * MAX_ENTITIES * (area_limit() - 1) + MAX_ENTITIES * (area_limit() - 1)
            == n * MAX_ENTITIES * (area_limit() - 1)) by (nonlinear_arith);
    }
}

} // verus!
