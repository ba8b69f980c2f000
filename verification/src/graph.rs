//! The entity graph: a shared, append-only relational index per entity
//! kind, entities holding raw value cells and memoized derived fields, and
//! the accessors that build, memoize and observe the derived signals.
//!
//! Entities are kept in arenas owned by [`Root`] and addressed by handles
//! ([`House`], [`Room`], [`Window`]) holding the entity's index; children
//! reference their parent by a foreign-key id resolved reactively through
//! the index, never by an owning edge.

use vstd::prelude::*;
use crate::error::EvalError;
use crate::memo::MemoSig;
use crate::model::{
    GraphData, HouseData, MAX_ENTITIES, PCT_SCALE, RoomData, WindowData, cell_limit,
    count_houses, count_houses_upto, first_house, first_house_upto, house_windows_area_sum,
    house_windows_area_sum_upto, resolve_house, room_surface, room_volume,
    room_volume_percentage, room_walls, rooms_volume_sum, rooms_volume_sum_upto, sig_limit,
    window_area, windows_area_sum, windows_area_sum_upto, area_limit, volume_limit,
    lemma_count_first, room_indices, room_indices_upto, window_indices, window_indices_upto,
    house_window_indices, house_window_indices_upto,
};
use crate::sig::{
    CellRef, Sig, bound, cell_value, cell_wf, eval_spec, lemma_bound_pos, lemma_eval_in_range,
    lemma_limits_pos, wf,
};

verus! {

/// Stored form of a container: its id and its two memoized derived fields.
pub struct HouseRec {
    pub id: i32,
    pub total_volume: MemoSig,
    pub total_window_area: MemoSig,
}

/// Stored form of an item: id, parent key, three raw value cells, and four
/// memoized derived fields.
pub struct RoomRec {
    pub id: i32,
    pub parent_id: i32,
    pub length: u32,
    pub width: u32,
    pub height: u32,
    pub volume: MemoSig,
    pub volume_percentage: MemoSig,
    pub total_window_surface: MemoSig,
    pub surface: MemoSig,
}

/// Stored form of a sub-item: id, parent key, two raw value cells, and one
/// memoized derived field.
pub struct WindowRec {
    pub id: i32,
    pub room_id: i32,
    pub width: u32,
    pub height: u32,
    pub area: MemoSig,
}

impl HouseRec {
    pub open spec fn data(self) -> HouseData {
        HouseData { id: self.id as int }
    }
}

impl RoomRec {
    pub open spec fn data(self) -> RoomData {
        RoomData {
            id: self.id as int,
            parent_id: self.parent_id as int,
            length: self.length as int,
            width: self.width as int,
            height: self.height as int,
        }
    }
}

impl WindowRec {
    pub open spec fn data(self) -> WindowData {
        WindowData {
            id: self.id as int,
            room_id: self.room_id as int,
            width: self.width as int,
            height: self.height as int,
        }
    }
}

/// The memoized signal of a container's total volume.
pub open spec fn total_volume_expr(hid: i32) -> Sig {
    Sig::SumRoomVolumes(hid)
}

/// The memoized signal of a container's total sub-item area.
pub open spec fn total_window_area_expr(hid: i32) -> Sig {
    Sig::SumHouseWindowAreas(hid)
}

/// The memoized signal of an item's volume: its three cells combined.
pub open spec fn volume_expr(i: usize) -> Sig {
    Sig::Mul(
        Box::new(
            Sig::Mul(
                Box::new(Sig::Cell(CellRef::RoomLength(i))),
                Box::new(Sig::Cell(CellRef::RoomWidth(i))),
            ),
        ),
        Box::new(Sig::Cell(CellRef::RoomHeight(i))),
    )
}

/// The signal of an item's wall area before sub-items are cut out.
pub open spec fn walls_expr(i: usize) -> Sig {
    Sig::Add(
        Box::new(
            Sig::Add(
                Box::new(
                    Sig::Mul(
                        Box::new(Sig::Const(2)),
                        Box::new(
                            Sig::Mul(
                                Box::new(Sig::Cell(CellRef::RoomHeight(i))),
                                Box::new(Sig::Cell(CellRef::RoomLength(i))),
                            ),
                        ),
                    ),
                ),
                Box::new(
                    Sig::Mul(
                        Box::new(Sig::Const(2)),
                        Box::new(
                            Sig::Mul(
                                Box::new(Sig::Cell(CellRef::RoomHeight(i))),
                                Box::new(Sig::Cell(CellRef::RoomWidth(i))),
                            ),
                        ),
                    ),
                ),
            ),
        ),
        Box::new(
            Sig::Mul(
                Box::new(Sig::Const(2)),
                Box::new(
                    Sig::Mul(
                        Box::new(Sig::Cell(CellRef::RoomWidth(i))),
                        Box::new(Sig::Cell(CellRef::RoomLength(i))),
                    ),
                ),
            ),
        ),
    )
}

/// The memoized signal of an item's aggregated sub-item area.
pub open spec fn total_window_surface_expr(rid: i32) -> Sig {
    Sig::SumRoomWindowAreas(rid)
}

/// The memoized signal of an item's net surface.
pub open spec fn surface_expr(i: usize, rid: i32) -> Sig {
    Sig::Sub(Box::new(walls_expr(i)), Box::new(Sig::SumRoomWindowAreas(rid)))
}

/// The memoized signal of an item's share of its container's volume: a
/// switch that follows the resolved parent's total volume.
pub open spec fn volume_percentage_expr(i: usize, pid: i32) -> Sig {
    Sig::RatioScaled(Box::new(volume_expr(i)), Box::new(Sig::SwitchTotalVolume(pid)))
}

/// The memoized signal of a sub-item's area: its two cells combined.
pub open spec fn area_expr(i: usize) -> Sig {
    Sig::Mul(
        Box::new(Sig::Cell(CellRef::WindowWidth(i))),
        Box::new(Sig::Cell(CellRef::WindowHeight(i))),
    )
}

/// Each derived field of a record is either not yet built or holds exactly
/// the canonical signal of that field of that entity.
pub open spec fn house_rec_inv(h: HouseRec, i: int) -> bool {
    &&& h.total_volume.inv()
    &&& h.total_volume.stored() is Some ==> h.total_volume.stored() == Some(
        total_volume_expr(h.id),
    )
    &&& h.total_window_area.inv()
    &&& h.total_window_area.stored() is Some ==> h.total_window_area.stored() == Some(
        total_window_area_expr(h.id),
    )
}

pub open spec fn room_rec_inv(r: RoomRec, i: int) -> bool {
    &&& r.volume.inv()
    &&& r.volume.stored() is Some ==> r.volume.stored() == Some(volume_expr(i as usize))
    &&& r.volume_percentage.inv()
    &&& r.volume_percentage.stored() is Some ==> r.volume_percentage.stored() == Some(
        volume_percentage_expr(i as usize, r.parent_id),
    )
    &&& r.total_window_surface.inv()
    &&& r.total_window_surface.stored() is Some ==> r.total_window_surface.stored() == Some(
        total_window_surface_expr(r.id),
    )
    &&& r.surface.inv()
    &&& r.surface.stored() is Some ==> r.surface.stored() == Some(
        surface_expr(i as usize, r.id),
    )
}

pub open spec fn window_rec_inv(w: WindowRec, i: int) -> bool {
    &&& w.area.inv()
    &&& w.area.stored() is Some ==> w.area.stored() == Some(area_expr(i as usize))
}

/// The root of the graph: one append-only index per entity kind, shared by
/// every entity and every observer.
pub struct Root {
    pub houses: Vec<HouseRec>,
    pub rooms: Vec<RoomRec>,
    pub windows: Vec<WindowRec>,
}

impl Root {
    /// The pure state of the graph: ids, keys and raw cell values.
    pub open spec fn data(self) -> GraphData {
        GraphData {
            houses: self.houses@.map_values(|h: HouseRec| h.data()),
            rooms: self.rooms@.map_values(|r: RoomRec| r.data()),
            windows: self.windows@.map_values(|w: WindowRec| w.data()),
        }
    }

    /// Indexes are small and every built derived field holds its canonical
    /// signal. Constructors establish this; every method preserves it.
    pub open spec fn inv(self) -> bool {
        &&& self.houses@.len() <= MAX_ENTITIES
        &&& self.rooms@.len() <= MAX_ENTITIES
        &&& self.windows@.len() <= MAX_ENTITIES
        &&& forall|i: int|
            0 <= i < self.houses@.len() ==> house_rec_inv(#[trigger] self.houses@[i], i)
        &&& forall|i: int|
            0 <= i < self.rooms@.len() ==> room_rec_inv(#[trigger] self.rooms@[i], i)
        &&& forall|i: int|
            0 <= i < self.windows@.len() ==> window_rec_inv(#[trigger] self.windows@[i], i)
    }

    /// The graph state is well formed whenever the invariant holds.
    pub proof fn lemma_data_wf(self)
        requires
            self.inv(),
        ensures
            self.data().wf(),
    {
        let d = self.data();
        assert forall|i: int| 0 <= i < d.rooms.len() implies {
            &&& 0 <= (#[trigger] d.rooms[i]).length < cell_limit()
            &&& 0 <= d.rooms[i].width < cell_limit()
            &&& 0 <= d.rooms[i].height < cell_limit()
        } by {
            assert(d.rooms[i] == self.rooms@[i].data());
        }
        assert forall|i: int| 0 <= i < d.windows.len() implies {
            &&& 0 <= (#[trigger] d.windows[i]).width < cell_limit()
            &&& 0 <= d.windows[i].height < cell_limit()
        } by {
            assert(d.windows[i] == self.windows@[i].data());
        }
    }

    /// An empty graph.
    pub fn new() -> (r: Root)
        ensures
            r.inv(),
            r.data().houses.len() == 0,
            r.data().rooms.len() == 0,
            r.data().windows.len() == 0,
    {
        Root { houses: Vec::new(), rooms: Vec::new(), windows: Vec::new() }
    }
}

/// Handle of a container entity: its index in the container arena.
#[derive(Clone, Copy, Debug, PartialEq, Eq, Structural)]
pub struct House {
    pub index: usize,
}

/// Handle of an item entity.
#[derive(Clone, Copy, Debug, PartialEq, Eq, Structural)]
pub struct Room {
    pub index: usize,
}

/// Handle of a sub-item entity.
#[derive(Clone, Copy, Debug, PartialEq, Eq, Structural)]
pub struct Window {
    pub index: usize,
}

impl House {
    /// Construct a container and append it to the shared index, where every
    /// current and future observer of index-derived signals sees it.
    pub fn new(root: &mut Root, id: i32) -> (h: House)
        requires
            old(root).inv(),
            old(root).houses@.len() < MAX_ENTITIES,
        ensures
            final(root).inv(),
            h.index == old(root).houses@.len(),
            final(root).houses@.len() == old(root).houses@.len() + 1,
            final(root).rooms@.len() == old(root).rooms@.len(),
            final(root).windows@.len() == old(root).windows@.len(),
            final(root).rooms == old(root).rooms,
            final(root).windows == old(root).windows,
            forall|j: int| 0 <= j < old(root).houses@.len() ==> final(root).houses@[j] == old(root).houses@[j],
            final(root).houses@[h.index as int].total_volume.stored() is None,
            final(root).houses@[h.index as int].total_volume.times_built() == 0,
            final(root).houses@[h.index as int].total_window_area.stored() is None,
            final(root).houses@[h.index as int].total_window_area.times_built() == 0,
            final(root).data().houses == old(root).data().houses.push(
                HouseData { id: id as int },
            ),
            final(root).data().rooms == old(root).data().rooms,
            final(root).data().windows == old(root).data().windows,
    {
        let h = House { index: root.houses.len() };
        let rec = HouseRec {
            id,
            total_volume: MemoSig::new(),
            total_window_area: MemoSig::new(),
        };
        root.houses.push(rec);
        proof {
            assert(root.data().houses =~= old(root).data().houses.push(
                HouseData { id: id as int },
            ));
            assert(root.data().rooms =~= old(root).data().rooms);
            assert(root.data().windows =~= old(root).data().windows);
        }
        h
    }
}

impl Room {
    /// Construct an item under parent key `parent_id` with its three raw
    /// dimension cells, and append it to the shared index.
    pub fn new(root: &mut Root, id: i32, parent_id: i32, length: u32, width: u32, height: u32)
        -> (r: Room)
        requires
            old(root).inv(),
            old(root).rooms@.len() < MAX_ENTITIES,
        ensures
            final(root).inv(),
            r.index == old(root).rooms@.len(),
            final(root).rooms@.len() == old(root).rooms@.len() + 1,
            final(root).houses@.len() == old(root).houses@.len(),
            final(root).windows@.len() == old(root).windows@.len(),
            final(root).houses == old(root).houses,
            final(root).windows == old(root).windows,
            forall|j: int| 0 <= j < old(root).rooms@.len() ==> final(root).rooms@[j] == old(root).rooms@[j],
            final(root).rooms@[r.index as int].volume.stored() is None,
            final(root).rooms@[r.index as int].volume.times_built() == 0,
            final(root).rooms@[r.index as int].volume_percentage.stored() is None,
            final(root).rooms@[r.index as int].volume_percentage.times_built() == 0,
            final(root).rooms@[r.index as int].total_window_surface.stored() is None,
            final(root).rooms@[r.index as int].total_window_surface.times_built() == 0,
            final(root).rooms@[r.index as int].surface.stored() is None,
            final(root).rooms@[r.index as int].surface.times_built() == 0,
            final(root).data().rooms == old(root).data().rooms.push(
                RoomData {
                    id: id as int,
                    parent_id: parent_id as int,
                    length: length as int,
                    width: width as int,
                    height: height as int,
                },
            ),
            final(root).data().houses == old(root).data().houses,
            final(root).data().windows == old(root).data().windows,
    {
        let r = Room { index: root.rooms.len() };
        let rec = RoomRec {
            id,
            parent_id,
            length,
            width,
            height,
            volume: MemoSig::new(),
            volume_percentage: MemoSig::new(),
            total_window_surface: MemoSig::new(),
            surface: MemoSig::new(),
        };
        root.rooms.push(rec);
        proof {
            assert(root.data().rooms =~= old(root).data().rooms.push(
                RoomData {
                    id: id as int,
                    parent_id: parent_id as int,
                    length: length as int,
                    width: width as int,
                    height: height as int,
                },
            ));
            assert(root.data().houses =~= old(root).data().houses);
            assert(root.data().windows =~= old(root).data().windows);
        }
        r
    }
}

impl Window {
    /// Construct a sub-item under parent key `room_id` with its two raw
    /// dimension cells, and append it to the shared index.
    pub fn new(root: &mut Root, id: i32, room_id: i32, width: u32, height: u32) -> (w: Window)
        requires
            old(root).inv(),
            old(root).windows@.len() < MAX_ENTITIES,
        ensures
            final(root).inv(),
            w.index == old(root).windows@.len(),
            final(root).windows@.len() == old(root).windows@.len() + 1,
            final(root).houses@.len() == old(root).houses@.len(),
            final(root).rooms@.len() == old(root).rooms@.len(),
            final(root).houses == old(root).houses,
            final(root).rooms == old(root).rooms,
            forall|j: int| 0 <= j < old(root).windows@.len() ==> final(root).windows@[j] == old(root).windows@[j],
            final(root).windows@[w.index as int].area.stored() is None,
            final(root).windows@[w.index as int].area.times_built() == 0,
            final(root).data().windows == old(root).data().windows.push(
                WindowData {
                    id: id as int,
                    room_id: room_id as int,
                    width: width as int,
                    height: height as int,
                },
            ),
            final(root).data().houses == old(root).data().houses,
            final(root).data().rooms == old(root).data().rooms,
    {
        let w = Window { index: root.windows.len() };
        let rec = WindowRec { id, room_id, width, height, area: MemoSig::new() };
        root.windows.push(rec);
        proof {
            assert(root.data().windows =~= old(root).data().windows.push(
                WindowData {
                    id: id as int,
                    room_id: room_id as int,
                    width: width as int,
                    height: height as int,
                },
            ));
            assert(root.data().houses =~= old(root).data().houses);
            assert(root.data().rooms =~= old(root).data().rooms);
        }
        w
    }
}

/// A machine-word evaluation result, seen as the mathematical one.
pub open spec fn lift(r: Result<i128, EvalError>) -> Result<int, EvalError> {
    match r {
        Ok(v) => Ok(v as int),
        Err(e) => Err(e),
    }
}

/// Read the current value of one raw cell.
fn read_cell(c: &CellRef, root: &Root) -> (r: i128)
    requires
        root.inv(),
        cell_wf(*c, root.data()),
    ensures
        r as int == cell_value(*c, root.data()),
        0 <= r < cell_limit(),
{
    let ghost d = root.data();
    match c {
        CellRef::RoomLength(i) => {
            proof {
                assert(d.rooms[*i as int] == root.rooms@[*i as int].data());
            }
            root.rooms[*i].length as i128
        },
        CellRef::RoomWidth(i) => {
            proof {
                assert(d.rooms[*i as int] == root.rooms@[*i as int].data());
            }
            root.rooms[*i].width as i128
        },
        CellRef::RoomHeight(i) => {
            proof {
                assert(d.rooms[*i as int] == root.rooms@[*i as int].data());
            }
            root.rooms[*i].height as i128
        },
        CellRef::WindowWidth(i) => {
            proof {
                assert(d.windows[*i as int] == root.windows@[*i as int].data());
            }
            root.windows[*i].width as i128
        },
        CellRef::WindowHeight(i) => {
            proof {
                assert(d.windows[*i as int] == root.windows@[*i as int].data());
            }
            root.windows[*i].height as i128
        },
    }
}

/// How many containers currently carry id `hid`.
fn count_houses_exec(root: &Root, hid: i32) -> (r: usize)
    requires
        root.inv(),
    ensures
        r as int == count_houses(root.data(), hid as int),
        r <= root.houses@.len(),
{
    let ghost d = root.data();
    let n = root.houses.len();
    let mut count: usize = 0;
    let mut i: usize = 0;
    while i < n
        invariant
            root.inv(),
            d == root.data(),
            n == root.houses@.len(),
            0 <= i <= n,
            count <= i,
            count as int == count_houses_upto(d, hid as int, i as int),
        decreases n - i,
    {
        proof {
            assert(d.houses[i as int] == root.houses@[i as int].data());
        }
        if root.houses[i].id == hid {
            count = count + 1;
        }
        i = i + 1;
    }
    count
}

/// Index of the first container currently carrying id `hid`, if any.
fn first_house_exec(root: &Root, hid: i32) -> (r: Option<usize>)
    requires
        root.inv(),
    ensures
        match r {
            Some(i) => i as int == first_house(root.data(), hid as int) && i
                < root.houses@.len(),
            None => first_house(root.data(), hid as int) == -1,
        },
{
    let ghost d = root.data();
    let n = root.houses.len();
    let mut i: usize = 0;
    while i < n
        invariant
            root.inv(),
            d == root.data(),
            n == root.houses@.len(),
            0 <= i <= n,
            first_house_upto(d, hid as int, i as int) == -1,
        decreases n - i,
    {
        proof {
            assert(d.houses[i as int] == root.houses@[i as int].data());
        }
        if root.houses[i].id == hid {
            proof {
                assert(first_house_upto(d, hid as int, i + 1) == i as int);
                lemma_first_house_stable(d, hid as int, i + 1, n as int);
            }
            return Some(i);
        }
        i = i + 1;
    }
    None
}

/// Once a first match exists among a prefix, it is the first match overall.
proof fn lemma_first_house_stable(d: GraphData, hid: int, m: int, n: int)
    requires
        0 <= m <= n,
        first_house_upto(d, hid, m) >= 0,
    ensures
        first_house_upto(d, hid, n) == first_house_upto(d, hid, m),
    decreases n - m,
{
    if m < n {
        lemma_first_house_stable(d, hid, m + 1, n);
    }
}

/// Current total volume of container `hid`: the aggregate-sum combinator
/// over the filtered, dynamically-changing item collection.
fn sum_room_volumes_exec(root: &Root, hid: i32) -> (r: i128)
    requires
        root.inv(),
    ensures
        r as int == rooms_volume_sum(root.data(), hid as int),
        0 <= r,
{
    let ghost d = root.data();
    proof {
        root.lemma_data_wf();
    }
    let n = root.rooms.len();
    let mut acc: i128 = 0;
    let mut i: usize = 0;
    while i < n
        invariant
            root.inv(),
            d == root.data(),
            d.wf(),
            n == root.rooms@.len(),
            0 <= i <= n,
            acc as int == rooms_volume_sum_upto(d, hid as int, i as int),
            0 <= acc as int <= i * (volume_limit() - 1),
        decreases n - i,
    {
        proof {
            assert(d.rooms[i as int] == root.rooms@[i as int].data());
        }
        let rec = &root.rooms[i];
        if rec.parent_id == hid {
            proof {
                assert(0 <= (rec.length as int) * (rec.width as int) * (rec.height as int)
                    <= volume_limit() - 1 && 0 <= (rec.length as int) * (rec.width as int)
                    < area_limit()) by (nonlinear_arith)
                    requires
                        0 <= rec.length < cell_limit(),
                        0 <= rec.width < cell_limit(),
                        0 <= rec.height < cell_limit(),
                        area_limit() == cell_limit() * cell_limit(),
                        volume_limit() == cell_limit() * cell_limit() * cell_limit(),
                ;
                lemma_limits_pos();
            }
            let v: i128 = (rec.length as i128) * (rec.width as i128) * (rec.height as i128);
            proof {
                assert(v as int == room_volume(d.rooms[i as int]));
                assert(i * (volume_limit() - 1) + (volume_limit() - 1) == (i + 1) * (
                volume_limit() - 1)) by (nonlinear_arith);
                assert((i + 1) * (volume_limit() - 1) <= MAX_ENTITIES * (volume_limit() - 1))
                    by (nonlinear_arith)
                    requires
                        i + 1 <= MAX_ENTITIES,
                        volume_limit() >= 1,
                ;
                lemma_limits_pos();
            }
            acc = acc + v;
        } else {
            proof {
                assert(i * (volume_limit() - 1) <= (i + 1) * (volume_limit() - 1))
                    by (nonlinear_arith)
                    requires
                        volume_limit() >= 1,
                        i >= 0,
                ;
            }
        }
        i = i + 1;
    }
    acc
}

/// Current aggregated area of the sub-items of item `rid`.
fn sum_window_areas_exec(root: &Root, rid: i32) -> (r: i128)
    requires
        root.inv(),
    ensures
        r as int == windows_area_sum(root.data(), rid as int),
        0 <= r as int <= root.windows@.len() * (area_limit() - 1),
{
    let ghost d = root.data();
    proof {
        root.lemma_data_wf();
    }
    let n = root.windows.len();
    let mut acc: i128 = 0;
    let mut i: usize = 0;
    while i < n
        invariant
            root.inv(),
            d == root.data(),
            d.wf(),
            n == root.windows@.len(),
            0 <= i <= n,
            acc as int == windows_area_sum_upto(d, rid as int, i as int),
            0 <= acc as int <= i * (area_limit() - 1),
        decreases n - i,
    {
        proof {
            assert(d.windows[i as int] == root.windows@[i as int].data());
        }
        let rec = &root.windows[i];
        if rec.room_id == rid {
            proof {
                assert(0 <= (rec.width as int) * (rec.height as int) <= area_limit() - 1)
                    by (nonlinear_arith)
                    requires
                        0 <= rec.width < cell_limit(),
                        0 <= rec.height < cell_limit(),
                        area_limit() == cell_limit() * cell_limit(),
                ;
                lemma_limits_pos();
            }
            let v: i128 = (rec.width as i128) * (rec.height as i128);
            proof {
                assert(v as int == window_area(d.windows[i as int]));
                assert(i * (area_limit() - 1) + (area_limit() - 1) == (i + 1) * (area_limit()
                    - 1)) by (nonlinear_arith);
                assert((i + 1) * (area_limit() - 1) <= MAX_ENTITIES * (area_limit() - 1))
                    by (nonlinear_arith)
                    requires
                        i + 1 <= MAX_ENTITIES,
                        area_limit() >= 1,
                ;
                lemma_limits_pos();
            }
            acc = acc + v;
        } else {
            proof {
                assert(i * (area_limit() - 1) <= (i + 1) * (area_limit() - 1))
                    by (nonlinear_arith)
                    requires
                        area_limit() >= 1,
                        i >= 0,
                ;
            }
        }
        i = i + 1;
    }
    proof {
        assert(acc as int <= n * (area_limit() - 1));
    }
    acc
}

/// Current aggregated sub-item area of container `hid`: the map-each-and-
/// flatten combinator, reduced by addition, items in index order.
fn sum_house_window_areas_exec(root: &Root, hid: i32) -> (r: i128)
    requires
        root.inv(),
    ensures
        r as int == house_windows_area_sum(root.data(), hid as int),
        0 <= r,
{
    let ghost d = root.data();
    proof {
        root.lemma_data_wf();
    }
    let n = root.rooms.len();
    let mut acc: i128 = 0;
    let mut i: usize = 0;
    while i < n
        invariant
            root.inv(),
            d == root.data(),
            d.wf(),
            n == root.rooms@.len(),
            0 <= i <= n,
            acc as int == house_windows_area_sum_upto(d, hid as int, i as int),
            0 <= acc as int <= i * MAX_ENTITIES * (area_limit() - 1),
        decreases n - i,
    {
        proof {
            assert(d.rooms[i as int] == root.rooms@[i as int].data());
        }
        let rid = root.rooms[i].id;
        if root.rooms[i].parent_id == hid {
            let v = sum_window_areas_exec(root, rid);
            proof {
                assert(v as int <= MAX_ENTITIES * (area_limit() - 1)) by (nonlinear_arith)
                    requires
                        v as int <= d.windows.len() * (area_limit() - 1),
                        d.windows.len() <= MAX_ENTITIES,
                        area_limit() >= 1,
                ;
                assert(i * MAX_ENTITIES * (area_limit() - 1) + MAX_ENTITIES * (area_limit()
                    - 1) == (i + 1) * MAX_ENTITIES * (area_limit() - 1)) by (nonlinear_arith);
                assert((i + 1) * MAX_ENTITIES * (area_limit() - 1) <= MAX_ENTITIES
                    * MAX_ENTITIES * (area_limit() - 1)) by (nonlinear_arith)
                    requires
                        i + 1 <= MAX_ENTITIES,
                        area_limit() >= 1,
                ;
                lemma_limits_pos();
            }
            acc = acc + v;
        } else {
            proof {
                assert(i * MAX_ENTITIES * (area_limit() - 1) <= (i + 1) * MAX_ENTITIES * (
                area_limit() - 1)) by (nonlinear_arith)
                    requires
                        area_limit() >= 1,
                        i >= 0,
                ;
            }
        }
        i = i + 1;
    }
    acc
}

/// Observe a signal: produce its value in the current graph state. The one
/// evaluation every subscriber of the signal shares.
pub fn eval(e: &Sig, root: &Root) -> (r: Result<i128, EvalError>)
    requires
        root.inv(),
        wf(*e, root.data()),
    ensures
        lift(r) == eval_spec(*e, root.data()),
    decreases *e,
{
    let ghost d = root.data();
    proof {
        root.lemma_data_wf();
    }
    match e {
        Sig::Cell(c) => Ok(read_cell(c, root)),
        Sig::Const(c) => Ok(*c as i128),
        Sig::Add(a, b) => {
            let va = match eval(&**a, root) {
                Ok(v) => v,
                Err(err) => {
                    return Err(err);
                },
            };
            let vb = match eval(&**b, root) {
                Ok(v) => v,
                Err(err) => {
                    return Err(err);
                },
            };
            proof {
                lemma_eval_in_range(**a, d);
                lemma_eval_in_range(**b, d);
                lemma_limits_pos();
            }
            Ok(va + vb)
        },
        Sig::Sub(a, b) => {
            let va = match eval(&**a, root) {
                Ok(v) => v,
                Err(err) => {
                    return Err(err);
                },
            };
            let vb = match eval(&**b, root) {
                Ok(v) => v,
                Err(err) => {
                    return Err(err);
                },
            };
            proof {
                lemma_eval_in_range(**a, d);
                lemma_eval_in_range(**b, d);
                lemma_limits_pos();
            }
            Ok(va - vb)
        },
        Sig::Mul(a, b) => {
            let va = match eval(&**a, root) {
                Ok(v) => v,
                Err(err) => {
                    return Err(err);
                },
            };
            let vb = match eval(&**b, root) {
                Ok(v) => v,
                Err(err) => {
                    return Err(err);
                },
            };
            proof {
                lemma_eval_in_range(**a, d);
                lemma_eval_in_range(**b, d);
                lemma_bound_pos(**a);
                lemma_bound_pos(**b);
                assert(-(sig_limit()) < (va as int) * (vb as int) < sig_limit())
                    by (nonlinear_arith)
                    requires
                        -bound(**a) < (va as int) && (va as int) < bound(**a),
                        -bound(**b) < (vb as int) && (vb as int) < bound(**b),
                        bound(**a) * bound(**b) <= sig_limit(),
                        bound(**a) >= 1,
                        bound(**b) >= 1,
                ;
            }
            Ok(va * vb)
        },
        Sig::SumRoomVolumes(hid) => Ok(sum_room_volumes_exec(root, *hid)),
        Sig::SumRoomWindowAreas(rid) => Ok(sum_window_areas_exec(root, *rid)),
        Sig::SumHouseWindowAreas(hid) => Ok(sum_house_window_areas_exec(root, *hid)),
        Sig::SwitchTotalVolume(hid) => {
            let c = count_houses_exec(root, *hid);
            if c == 0 {
                Err(EvalError::MissingRelation)
            } else if c > 1 {
                Err(EvalError::Multiplicity)
            } else {
                Ok(sum_room_volumes_exec(root, *hid))
            }
        },
        Sig::RatioScaled(a, b) => {
            let va = match eval(&**a, root) {
                Ok(v) => v,
                Err(err) => {
                    return Err(err);
                },
            };
            let vb = match eval(&**b, root) {
                Ok(v) => v,
                Err(err) => {
                    return Err(err);
                },
            };
            if va < 0 || vb <= 0 {
                Err(EvalError::UndefinedRatio)
            } else {
                proof {
                    lemma_eval_in_range(**a, d);
                    lemma_bound_pos(**a);
                    lemma_limits_pos();
                    assert(0 <= (va as int) * (PCT_SCALE as int) <= sig_limit())
                        by (nonlinear_arith)
                        requires
                            0 <= (va as int) && (va as int) < bound(**a),
                            bound(**a) * PCT_SCALE <= sig_limit(),
                            PCT_SCALE >= 1,
                            bound(**a) >= 1,
                ;
                }
                let num: u128 = (va as u128) * (PCT_SCALE as u128);
                let q: u128 = num / (vb as u128);
                proof {
                    assert(q <= num);
                }
                Ok(q as i128)
            }
        },
    }
}

/// The area signal observes exactly the area formula, in every state.
pub proof fn lemma_area_field(d: GraphData, i: usize)
    requires
        d.wf(),
        i < d.windows.len(),
    ensures
        wf(area_expr(i), d),
        eval_spec(area_expr(i), d) == Ok::<int, EvalError>(window_area(d.windows[i as int])),
{
    lemma_limits_pos();
    let w = Sig::Cell(CellRef::WindowWidth(i));
    let h = Sig::Cell(CellRef::WindowHeight(i));
    let e = Sig::Mul(Box::new(w), Box::new(h));
    assert(area_expr(i) == e);
    assert(bound(w) == cell_limit());
    assert(bound(h) == cell_limit());
    assert(wf(w, d));
    assert(wf(h, d));
    assert(wf(e, d));
    assert(eval_spec(w, d) == Ok::<int, EvalError>(d.windows[i as int].width));
    assert(eval_spec(h, d) == Ok::<int, EvalError>(d.windows[i as int].height));
    assert(eval_spec(e, d) == Ok::<int, EvalError>(
        d.windows[i as int].width * d.windows[i as int].height,
    ));
}

/// The volume signal observes exactly the volume formula, in every state.
pub proof fn lemma_volume_field(d: GraphData, i: usize)
    requires
        d.wf(),
        i < d.rooms.len(),
    ensures
        wf(volume_expr(i), d),
        eval_spec(volume_expr(i), d) == Ok::<int, EvalError>(room_volume(d.rooms[i as int])),
        bound(volume_expr(i)) == volume_limit(),
{
    lemma_limits_pos();
    let l = Sig::Cell(CellRef::RoomLength(i));
    let w = Sig::Cell(CellRef::RoomWidth(i));
    let h = Sig::Cell(CellRef::RoomHeight(i));
    let lw = Sig::Mul(Box::new(l), Box::new(w));
    let e = Sig::Mul(Box::new(lw), Box::new(h));
    assert(volume_expr(i) == e);
    assert(bound(l) == cell_limit());
    assert(bound(w) == cell_limit());
    assert(bound(h) == cell_limit());
    assert(bound(lw) == bound(l) * bound(w));
    assert(bound(lw) == area_limit());
    assert(bound(e) == bound(lw) * bound(h));
    assert(bound(e) == volume_limit());
    assert(wf(l, d));
    assert(wf(w, d));
    assert(wf(h, d));
    assert(wf(lw, d));
    assert(wf(e, d));
    assert(eval_spec(l, d) == Ok::<int, EvalError>(d.rooms[i as int].length));
    assert(eval_spec(w, d) == Ok::<int, EvalError>(d.rooms[i as int].width));
    assert(eval_spec(h, d) == Ok::<int, EvalError>(d.rooms[i as int].height));
    assert(eval_spec(lw, d) == Ok::<int, EvalError>(
        d.rooms[i as int].length * d.rooms[i as int].width,
    ));
    assert(eval_spec(e, d) == Ok::<int, EvalError>(room_volume(d.rooms[i as int])));
}

/// The aggregated sub-item area signal of an item observes the sum of the
/// current areas of its current sub-items.
pub proof fn lemma_total_window_surface_field(d: GraphData, rid: i32)
    requires
        d.wf(),
    ensures
        wf(total_window_surface_expr(rid), d),
        eval_spec(total_window_surface_expr(rid), d) == Ok::<int, EvalError>(
            windows_area_sum(d, rid as int),
        ),
{
}

/// The surface signal observes walls minus aggregated sub-item area.
pub proof fn lemma_surface_field(d: GraphData, i: usize, rid: i32)
    requires
        d.wf(),
        i < d.rooms.len(),
        rid as int == d.rooms[i as int].id,
    ensures
        wf(surface_expr(i, rid), d),
        eval_spec(surface_expr(i, rid), d) == Ok::<int, EvalError>(
            room_surface(d, d.rooms[i as int]),
        ),
{
    lemma_limits_pos();
    let r = d.rooms[i as int];
    let c2 = Sig::Const(2);
    let cl = Sig::Cell(CellRef::RoomLength(i));
    let cw = Sig::Cell(CellRef::RoomWidth(i));
    let ch = Sig::Cell(CellRef::RoomHeight(i));
    let hl = Sig::Mul(Box::new(ch), Box::new(cl));
    let hw = Sig::Mul(Box::new(ch), Box::new(cw));
    let wl = Sig::Mul(Box::new(cw), Box::new(cl));
    let m1 = Sig::Mul(Box::new(c2), Box::new(hl));
    let m2 = Sig::Mul(Box::new(c2), Box::new(hw));
    let m3 = Sig::Mul(Box::new(c2), Box::new(wl));
    let a1 = Sig::Add(Box::new(m1), Box::new(m2));
    let walls = Sig::Add(Box::new(a1), Box::new(m3));
    let sum = Sig::SumRoomWindowAreas(rid);
    let e = Sig::Sub(Box::new(walls), Box::new(sum));
    assert(surface_expr(i, rid) == e);
    assert(bound(c2) == 3);
    assert(bound(cl) == cell_limit());
    assert(bound(cw) == cell_limit());
    assert(bound(ch) == cell_limit());
    assert(bound(hl) == bound(ch) * bound(cl));
    assert(bound(hl) == area_limit());
    assert(bound(hw) == bound(ch) * bound(cw));
    assert(bound(hw) == area_limit());
    assert(bound(wl) == bound(cw) * bound(cl));
    assert(bound(wl) == area_limit());
    assert(bound(m1) == bound(c2) * bound(hl));
    assert(bound(m1) == 3 * area_limit());
    assert(bound(m2) == bound(c2) * bound(hw));
    assert(bound(m2) == 3 * area_limit());
    assert(bound(m3) == bound(c2) * bound(wl));
    assert(bound(m3) == 3 * area_limit());
    assert(bound(a1) == 6 * area_limit());
    assert(bound(walls) == 9 * area_limit());
    assert(bound(sum) == MAX_ENTITIES * area_limit());
    assert(wf(cl, d) && wf(cw, d) && wf(ch, d) && wf(c2, d));
    assert(wf(hl, d));
    assert(wf(hw, d));
    assert(wf(wl, d));
    assert(wf(m1, d));
    assert(wf(m2, d));
    assert(wf(m3, d));
    assert(wf(a1, d));
    assert(wf(walls, d));
    assert(wf(sum, d));
    assert(wf(e, d));
    assert(eval_spec(cl, d) == Ok::<int, EvalError>(r.length));
    assert(eval_spec(cw, d) == Ok::<int, EvalError>(r.width));
    assert(eval_spec(ch, d) == Ok::<int, EvalError>(r.height));
    assert(eval_spec(c2, d) == Ok::<int, EvalError>(2));
    assert(eval_spec(hl, d) == Ok::<int, EvalError>(r.height * r.length));
    assert(eval_spec(hw, d) == Ok::<int, EvalError>(r.height * r.width));
    assert(eval_spec(wl, d) == Ok::<int, EvalError>(r.width * r.length));
    assert(eval_spec(m1, d) == Ok::<int, EvalError>(2 * (r.height * r.length)));
    assert(eval_spec(m2, d) == Ok::<int, EvalError>(2 * (r.height * r.width)));
    assert(eval_spec(m3, d) == Ok::<int, EvalError>(2 * (r.width * r.length)));
    assert(eval_spec(a1, d) == Ok::<int, EvalError>(
        2 * (r.height * r.length) + 2 * (r.height * r.width),
    ));
    assert(eval_spec(walls, d) == Ok::<int, EvalError>(room_walls(r)));
    assert(eval_spec(sum, d) == Ok::<int, EvalError>(windows_area_sum(d, rid as int)));
    assert(eval_spec(e, d) == Ok::<int, EvalError>(room_surface(d, r)));
}

/// The total-volume signal of a container observes the sum of the current
/// volumes of its current items.
pub proof fn lemma_total_volume_field(d: GraphData, hid: i32)
    requires
        d.wf(),
    ensures
        wf(total_volume_expr(hid), d),
        eval_spec(total_volume_expr(hid), d) == Ok::<int, EvalError>(
            rooms_volume_sum(d, hid as int),
        ),
{
}

/// The total-sub-item-area signal of a container observes the flattened
/// aggregate over its items' sub-items.
pub proof fn lemma_total_window_area_field(d: GraphData, hid: i32)
    requires
        d.wf(),
    ensures
        wf(total_window_area_expr(hid), d),
        eval_spec(total_window_area_expr(hid), d) == Ok::<int, EvalError>(
            house_windows_area_sum(d, hid as int),
        ),
{
}

/// The volume-share signal switches to the currently resolved parent and
/// observes the scaled ratio of the item's volume to that parent's total
/// volume; it fails exactly as the parent lookup or the ratio fails.
pub proof fn lemma_volume_percentage_field(d: GraphData, i: usize, pid: i32)
    requires
        d.wf(),
        i < d.rooms.len(),
        pid as int == d.rooms[i as int].parent_id,
    ensures
        wf(volume_percentage_expr(i, pid), d),
        eval_spec(volume_percentage_expr(i, pid), d) == room_volume_percentage(
            d,
            d.rooms[i as int],
        ),
{
    lemma_limits_pos();
    lemma_volume_field(d, i);
    let v = volume_expr(i);
    let sw = Sig::SwitchTotalVolume(pid);
    let e = Sig::RatioScaled(Box::new(v), Box::new(sw));
    assert(volume_percentage_expr(i, pid) == e);
    assert(bound(v) * PCT_SCALE <= sig_limit());
    assert(wf(sw, d));
    assert(wf(e, d));
    let swr = eval_spec(sw, d);
    assert(swr == if count_houses(d, pid as int) == 0 {
        Err::<int, EvalError>(EvalError::MissingRelation)
    } else if count_houses(d, pid as int) > 1 {
        Err::<int, EvalError>(EvalError::Multiplicity)
    } else {
        Ok::<int, EvalError>(rooms_volume_sum(d, pid as int))
    });
    assert(eval_spec(e, d) == room_volume_percentage(d, d.rooms[i as int]));
}

fn build_area_expr(i: usize) -> (e: Sig)
    ensures
        e == area_expr(i),
{
    Sig::Mul(
        Box::new(Sig::Cell(CellRef::WindowWidth(i))),
        Box::new(Sig::Cell(CellRef::WindowHeight(i))),
    )
}

fn build_volume_expr(i: usize) -> (e: Sig)
    ensures
        e == volume_expr(i),
{
    Sig::Mul(
        Box::new(
            Sig::Mul(
                Box::new(Sig::Cell(CellRef::RoomLength(i))),
                Box::new(Sig::Cell(CellRef::RoomWidth(i))),
            ),
        ),
        Box::new(Sig::Cell(CellRef::RoomHeight(i))),
    )
}

fn build_scaled_wall(a: CellRef, b: CellRef) -> (e: Sig)
    ensures
        e == (Sig::Mul(
            Box::new(Sig::Const(2)),
            Box::new(Sig::Mul(Box::new(Sig::Cell(a)), Box::new(Sig::Cell(b)))),
        )),
{
    Sig::Mul(
        Box::new(Sig::Const(2)),
        Box::new(Sig::Mul(Box::new(Sig::Cell(a)), Box::new(Sig::Cell(b)))),
    )
}

fn build_surface_expr(i: usize, rid: i32) -> (e: Sig)
    ensures
        e == surface_expr(i, rid),
{
    let hl = build_scaled_wall(CellRef::RoomHeight(i), CellRef::RoomLength(i));
    let hw = build_scaled_wall(CellRef::RoomHeight(i), CellRef::RoomWidth(i));
    let wl = build_scaled_wall(CellRef::RoomWidth(i), CellRef::RoomLength(i));
    let walls = Sig::Add(Box::new(Sig::Add(Box::new(hl), Box::new(hw))), Box::new(wl));
    Sig::Sub(Box::new(walls), Box::new(Sig::SumRoomWindowAreas(rid)))
}

fn build_volume_percentage_expr(i: usize, pid: i32) -> (e: Sig)
    ensures
        e == volume_percentage_expr(i, pid),
{
    Sig::RatioScaled(
        Box::new(build_volume_expr(i)),
        Box::new(Sig::SwitchTotalVolume(pid)),
    )
}

impl Window {
    /// Current width of this sub-item's raw cell.
    pub fn width(&self, root: &Root) -> (r: u32)
        requires
            root.inv(),
            self.index < root.windows@.len(),
        ensures
            r as int == root.data().windows[self.index as int].width,
    {
        root.windows[self.index].width
    }

    /// Current height of this sub-item's raw cell.
    pub fn height(&self, root: &Root) -> (r: u32)
        requires
            root.inv(),
            self.index < root.windows@.len(),
        ensures
            r as int == root.data().windows[self.index as int].height,
    {
        root.windows[self.index].height
    }

    /// Write this sub-item's width cell: the single mutation entry point of
    /// that cell; every derived signal downstream observes the new value.
    pub fn set_width(&self, root: &mut Root, v: u32)
        requires
            old(root).inv(),
            self.index < old(root).windows@.len(),
        ensures
            final(root).inv(),
            final(root).houses@.len() == old(root).houses@.len(),
            final(root).rooms@.len() == old(root).rooms@.len(),
            final(root).windows@.len() == old(root).windows@.len(),
            final(root).houses == old(root).houses,
            final(root).rooms == old(root).rooms,
            forall|j: int| 0 <= j < old(root).windows@.len() && j != self.index as int ==> final(root).windows@[j] == old(root).windows@[j],
            final(root).windows@[self.index as int] == (WindowRec { width: v, ..old(root).windows@[self.index as int] }),
            final(root).data().windows == old(root).data().windows.update(
                self.index as int,
                WindowData { width: v as int, ..old(root).data().windows[self.index as int] },
            ),
            final(root).data().houses == old(root).data().houses,
            final(root).data().rooms == old(root).data().rooms,
    {
        let i = self.index;
        root.windows[i].width = v;
        proof {
            assert forall|j: int| 0 <= j < root.windows@.len() implies window_rec_inv(
                #[trigger] root.windows@[j],
                j,
            ) by {
                if j != i as int {
                    assert(root.windows@[j] == old(root).windows@[j]);
                }
            }
            assert(root.data().windows =~= old(root).data().windows.update(
                i as int,
                WindowData { width: v as int, ..old(root).data().windows[i as int] },
            ));
            assert(root.data().houses =~= old(root).data().houses);
            assert(root.data().rooms =~= old(root).data().rooms);
        }
    }

    /// Write this sub-item's height cell.
    pub fn set_height(&self, root: &mut Root, v: u32)
        requires
            old(root).inv(),
            self.index < old(root).windows@.len(),
        ensures
            final(root).inv(),
            final(root).houses@.len() == old(root).houses@.len(),
            final(root).rooms@.len() == old(root).rooms@.len(),
            final(root).windows@.len() == old(root).windows@.len(),
            final(root).houses == old(root).houses,
            final(root).rooms == old(root).rooms,
            forall|j: int| 0 <= j < old(root).windows@.len() && j != self.index as int ==> final(root).windows@[j] == old(root).windows@[j],
            final(root).windows@[self.index as int] == (WindowRec { height: v, ..old(root).windows@[self.index as int] }),
            final(root).data().windows == old(root).data().windows.update(
                self.index as int,
                WindowData { height: v as int, ..old(root).data().windows[self.index as int] },
            ),
            final(root).data().houses == old(root).data().houses,
            final(root).data().rooms == old(root).data().rooms,
    {
        let i = self.index;
        root.windows[i].height = v;
        proof {
            assert forall|j: int| 0 <= j < root.windows@.len() implies window_rec_inv(
                #[trigger] root.windows@[j],
                j,
            ) by {
                if j != i as int {
                    assert(root.windows@[j] == old(root).windows@[j]);
                }
            }
            assert(root.data().windows =~= old(root).data().windows.update(
                i as int,
                WindowData { height: v as int, ..old(root).data().windows[i as int] },
            ));
            assert(root.data().houses =~= old(root).data().houses);
            assert(root.data().rooms =~= old(root).data().rooms);
        }
    }

    /// Current area of this sub-item, observed through its memoized derived
    /// signal: built on first request, shared by every later one.
    pub fn area(&self, root: &mut Root) -> (r: i128)
        requires
            old(root).inv(),
            self.index < old(root).windows@.len(),
        ensures
            final(root).inv(),
            final(root).houses@.len() == old(root).houses@.len(),
            final(root).rooms@.len() == old(root).rooms@.len(),
            final(root).windows@.len() == old(root).windows@.len(),
            final(root).houses == old(root).houses,
            final(root).rooms == old(root).rooms,
            forall|j: int| 0 <= j < old(root).windows@.len() && j != self.index as int ==> final(root).windows@[j] == old(root).windows@[j],
            final(root).windows@[self.index as int] == (WindowRec { area: final(root).windows@[self.index as int].area, ..old(root).windows@[self.index as int] }),
            old(root).windows@[self.index as int].area.stored() is Some ==> final(root).windows@[self.index as int].area == old(root).windows@[self.index as int].area,
            final(root).data() == old(root).data(),
            r as int == window_area(old(root).data().windows[self.index as int]),
            final(root).windows@[self.index as int].area.stored() == Some(
                area_expr(self.index),
            ),
    {
        let i = self.index;
        if !root.windows[i].area.is_built() {
            let e = build_area_expr(i);
            root.windows[i].area.init(e);
            proof {
                assert forall|j: int| 0 <= j < root.windows@.len() implies window_rec_inv(
                    #[trigger] root.windows@[j],
                    j,
                ) by {
                    if j != i as int {
                        assert(root.windows@[j] == old(root).windows@[j]);
                    }
                }
                assert(root.data().windows =~= old(root).data().windows);
                assert(root.data().houses =~= old(root).data().houses);
                assert(root.data().rooms =~= old(root).data().rooms);
                assert(root.data() == old(root).data());
            }
        }
        proof {
            assert(root.inv());
            assert(root.data() == old(root).data());
            root.lemma_data_wf();
            lemma_area_field(root.data(), i);
        }
        let sig = root.windows[i].area.get();
        let res = eval(sig, root);
        res.unwrap()
    }
}

impl Room {
    /// Current length of this item's raw cell.
    pub fn length(&self, root: &Root) -> (r: u32)
        requires
            root.inv(),
            self.index < root.rooms@.len(),
        ensures
            r as int == root.data().rooms[self.index as int].length,
    {
        root.rooms[self.index].length
    }

    /// Current width of this item's raw cell.
    pub fn width(&self, root: &Root) -> (r: u32)
        requires
            root.inv(),
            self.index < root.rooms@.len(),
        ensures
            r as int == root.data().rooms[self.index as int].width,
    {
        root.rooms[self.index].width
    }

    /// Current height of this item's raw cell.
    pub fn height(&self, root: &Root) -> (r: u32)
        requires
            root.inv(),
            self.index < root.rooms@.len(),
        ensures
            r as int == root.data().rooms[self.index as int].height,
    {
        root.rooms[self.index].height
    }

    /// Write this item's length cell.
    pub fn set_length(&self, root: &mut Root, v: u32)
        requires
            old(root).inv(),
            self.index < old(root).rooms@.len(),
        ensures
            final(root).inv(),
            final(root).houses@.len() == old(root).houses@.len(),
            final(root).rooms@.len() == old(root).rooms@.len(),
            final(root).windows@.len() == old(root).windows@.len(),
            final(root).houses == old(root).houses,
            final(root).windows == old(root).windows,
            forall|j: int| 0 <= j < old(root).rooms@.len() && j != self.index as int ==> final(root).rooms@[j] == old(root).rooms@[j],
            final(root).rooms@[self.index as int] == (RoomRec { length: v, ..old(root).rooms@[self.index as int] }),
            final(root).data().rooms == old(root).data().rooms.update(
                self.index as int,
                RoomData { length: v as int, ..old(root).data().rooms[self.index as int] },
            ),
            final(root).data().houses == old(root).data().houses,
            final(root).data().windows == old(root).data().windows,
    {
        let i = self.index;
        root.rooms[i].length = v;
        proof {
            self.lemma_room_cell_write(root, old(root), i as int);
            assert(root.data().rooms =~= old(root).data().rooms.update(
                i as int,
                RoomData { length: v as int, ..old(root).data().rooms[i as int] },
            ));
        }
    }

    /// Write this item's width cell.
    pub fn set_width(&self, root: &mut Root, v: u32)
        requires
            old(root).inv(),
            self.index < old(root).rooms@.len(),
        ensures
            final(root).inv(),
            final(root).houses@.len() == old(root).houses@.len(),
            final(root).rooms@.len() == old(root).rooms@.len(),
            final(root).windows@.len() == old(root).windows@.len(),
            final(root).houses == old(root).houses,
            final(root).windows == old(root).windows,
            forall|j: int| 0 <= j < old(root).rooms@.len() && j != self.index as int ==> final(root).rooms@[j] == old(root).rooms@[j],
            final(root).rooms@[self.index as int] == (RoomRec { width: v, ..old(root).rooms@[self.index as int] }),
            final(root).data().rooms == old(root).data().rooms.update(
                self.index as int,
                RoomData { width: v as int, ..old(root).data().rooms[self.index as int] },
            ),
            final(root).data().houses == old(root).data().houses,
            final(root).data().windows == old(root).data().windows,
    {
        let i = self.index;
        root.rooms[i].width = v;
        proof {
            self.lemma_room_cell_write(root, old(root), i as int);
            assert(root.data().rooms =~= old(root).data().rooms.update(
                i as int,
                RoomData { width: v as int, ..old(root).data().rooms[i as int] },
            ));
        }
    }

    /// Write this item's height cell.
    pub fn set_height(&self, root: &mut Root, v: u32)
        requires
            old(root).inv(),
            self.index < old(root).rooms@.len(),
        ensures
            final(root).inv(),
            final(root).houses@.len() == old(root).houses@.len(),
            final(root).rooms@.len() == old(root).rooms@.len(),
            final(root).windows@.len() == old(root).windows@.len(),
            final(root).houses == old(root).houses,
            final(root).windows == old(root).windows,
            forall|j: int| 0 <= j < old(root).rooms@.len() && j != self.index as int ==> final(root).rooms@[j] == old(root).rooms@[j],
            final(root).rooms@[self.index as int] == (RoomRec { height: v, ..old(root).rooms@[self.index as int] }),
            final(root).data().rooms == old(root).data().rooms.update(
                self.index as int,
                RoomData { height: v as int, ..old(root).data().rooms[self.index as int] },
            ),
            final(root).data().houses == old(root).data().houses,
            final(root).data().windows == old(root).data().windows,
    {
        let i = self.index;
        root.rooms[i].height = v;
        proof {
            self.lemma_room_cell_write(root, old(root), i as int);
            assert(root.data().rooms =~= old(root).data().rooms.update(
                i as int,
                RoomData { height: v as int, ..old(root).data().rooms[i as int] },
            ));
        }
    }

    /// After a write that only touched the raw cells of the item at `i`,
    /// the invariant still holds and the other indexes kept their state.
    proof fn lemma_room_cell_write(&self, cur: &Root, prev: &Root, i: int)
        requires
            prev.inv(),
            0 <= i < prev.rooms@.len(),
            cur.houses == prev.houses,
            cur.windows == prev.windows,
            cur.rooms@.len() == prev.rooms@.len(),
            forall|j: int|
                0 <= j < prev.rooms@.len() && j != i ==> cur.rooms@[j] == prev.rooms@[j],
            cur.rooms@[i].id == prev.rooms@[i].id,
            cur.rooms@[i].parent_id == prev.rooms@[i].parent_id,
            cur.rooms@[i].volume == prev.rooms@[i].volume,
            cur.rooms@[i].volume_percentage == prev.rooms@[i].volume_percentage,
            cur.rooms@[i].total_window_surface == prev.rooms@[i].total_window_surface,
            cur.rooms@[i].surface == prev.rooms@[i].surface,
        ensures
            cur.inv(),
            cur.data().houses == prev.data().houses,
            cur.data().windows == prev.data().windows,
    {
        assert forall|j: int| 0 <= j < cur.rooms@.len() implies room_rec_inv(
            #[trigger] cur.rooms@[j],
            j,
        ) by {
            if j != i {
                assert(cur.rooms@[j] == prev.rooms@[j]);
            }
            assert(room_rec_inv(prev.rooms@[j], j));
        }
        assert(cur.data().houses =~= prev.data().houses);
        assert(cur.data().windows =~= prev.data().windows);
    }

    /// Current volume of this item, observed through its memoized signal.
    pub fn volume(&self, root: &mut Root) -> (r: i128)
        requires
            old(root).inv(),
            self.index < old(root).rooms@.len(),
        ensures
            final(root).inv(),
            final(root).houses@.len() == old(root).houses@.len(),
            final(root).rooms@.len() == old(root).rooms@.len(),
            final(root).windows@.len() == old(root).windows@.len(),
            final(root).houses == old(root).houses,
            final(root).windows == old(root).windows,
            forall|j: int| 0 <= j < old(root).rooms@.len() && j != self.index as int ==> final(root).rooms@[j] == old(root).rooms@[j],
            final(root).rooms@[self.index as int] == (RoomRec { volume: final(root).rooms@[self.index as int].volume, ..old(root).rooms@[self.index as int] }),
            old(root).rooms@[self.index as int].volume.stored() is Some ==> final(root).rooms@[self.index as int].volume == old(root).rooms@[self.index as int].volume,
            final(root).data() == old(root).data(),
            r as int == room_volume(old(root).data().rooms[self.index as int]),
            final(root).rooms@[self.index as int].volume.stored() == Some(
                volume_expr(self.index),
            ),
    {
        let i = self.index;
        if !root.rooms[i].volume.is_built() {
            let e = build_volume_expr(i);
            root.rooms[i].volume.init(e);
            proof {
                self.lemma_room_memo_write(root, old(root), i as int);
            }
        }
        proof {
            assert(root.inv());
            assert(root.data() == old(root).data());
            root.lemma_data_wf();
            lemma_volume_field(root.data(), i);
        }
        let sig = root.rooms[i].volume.get();
        let res = eval(sig, root);
        res.unwrap()
    }

    /// Current aggregated sub-item area of this item, observed through its
    /// memoized signal.
    pub fn total_window_surface(&self, root: &mut Root) -> (r: i128)
        requires
            old(root).inv(),
            self.index < old(root).rooms@.len(),
        ensures
            final(root).inv(),
            final(root).houses@.len() == old(root).houses@.len(),
            final(root).rooms@.len() == old(root).rooms@.len(),
            final(root).windows@.len() == old(root).windows@.len(),
            final(root).houses == old(root).houses,
            final(root).windows == old(root).windows,
            forall|j: int| 0 <= j < old(root).rooms@.len() && j != self.index as int ==> final(root).rooms@[j] == old(root).rooms@[j],
            final(root).rooms@[self.index as int] == (RoomRec { total_window_surface: final(root).rooms@[self.index as int].total_window_surface, ..old(root).rooms@[self.index as int] }),
            old(root).rooms@[self.index as int].total_window_surface.stored() is Some ==> final(root).rooms@[self.index as int].total_window_surface == old(root).rooms@[self.index as int].total_window_surface,
            final(root).data() == old(root).data(),
            r as int == windows_area_sum(
                old(root).data(),
                old(root).data().rooms[self.index as int].id,
            ),
            final(root).rooms@[self.index as int].total_window_surface.stored() == Some(
                total_window_surface_expr(final(root).rooms@[self.index as int].id),
            ),
    {
        let i = self.index;
        if !root.rooms[i].total_window_surface.is_built() {
            let rid = root.rooms[i].id;
            let e = Sig::SumRoomWindowAreas(rid);
            proof {
                assert(e == total_window_surface_expr(rid));
            }
            root.rooms[i].total_window_surface.init(e);
            proof {
                self.lemma_room_memo_write(root, old(root), i as int);
            }
        }
        proof {
            assert(root.inv());
            assert(root.data() == old(root).data());
            root.lemma_data_wf();
            lemma_total_window_surface_field(root.data(), root.rooms@[i as int].id);
        }
        let sig = root.rooms[i].total_window_surface.get();
        let res = eval(sig, root);
        res.unwrap()
    }

    /// Current net surface of this item: walls minus sub-item areas,
    /// observed through its memoized signal.
    pub fn surface(&self, root: &mut Root) -> (r: i128)
        requires
            old(root).inv(),
            self.index < old(root).rooms@.len(),
        ensures
            final(root).inv(),
            final(root).houses@.len() == old(root).houses@.len(),
            final(root).rooms@.len() == old(root).rooms@.len(),
            final(root).windows@.len() == old(root).windows@.len(),
            final(root).houses == old(root).houses,
            final(root).windows == old(root).windows,
            forall|j: int| 0 <= j < old(root).rooms@.len() && j != self.index as int ==> final(root).rooms@[j] == old(root).rooms@[j],
            final(root).rooms@[self.index as int] == (RoomRec { surface: final(root).rooms@[self.index as int].surface, ..old(root).rooms@[self.index as int] }),
            old(root).rooms@[self.index as int].surface.stored() is Some ==> final(root).rooms@[self.index as int].surface == old(root).rooms@[self.index as int].surface,
            final(root).data() == old(root).data(),
            r as int == room_surface(
                old(root).data(),
                old(root).data().rooms[self.index as int],
            ),
            final(root).rooms@[self.index as int].surface.stored() == Some(
                surface_expr(self.index, final(root).rooms@[self.index as int].id),
            ),
    {
        let i = self.index;
        if !root.rooms[i].surface.is_built() {
            let rid = root.rooms[i].id;
            let e = build_surface_expr(i, rid);
            root.rooms[i].surface.init(e);
            proof {
                self.lemma_room_memo_write(root, old(root), i as int);
            }
        }
        proof {
            assert(root.inv());
            assert(root.data() == old(root).data());
            root.lemma_data_wf();
            lemma_surface_field(root.data(), i, root.rooms@[i as int].id);
        }
        let sig = root.rooms[i].surface.get();
        let res = eval(sig, root);
        res.unwrap()
    }

    /// Current share of its container's total volume, scaled by
    /// `PCT_SCALE`, observed through its memoized switch signal. Fails with
    /// the missing-relation or multiplicity error exactly when the parent
    /// lookup does, and with the undefined-ratio error exactly when the
    /// container's total volume is zero.
    pub fn volume_percentage(&self, root: &mut Root) -> (r: Result<i128, EvalError>)
        requires
            old(root).inv(),
            self.index < old(root).rooms@.len(),
        ensures
            final(root).inv(),
            final(root).houses@.len() == old(root).houses@.len(),
            final(root).rooms@.len() == old(root).rooms@.len(),
            final(root).windows@.len() == old(root).windows@.len(),
            final(root).houses == old(root).houses,
            final(root).windows == old(root).windows,
            forall|j: int| 0 <= j < old(root).rooms@.len() && j != self.index as int ==> final(root).rooms@[j] == old(root).rooms@[j],
            final(root).rooms@[self.index as int] == (RoomRec { volume_percentage: final(root).rooms@[self.index as int].volume_percentage, ..old(root).rooms@[self.index as int] }),
            old(root).rooms@[self.index as int].volume_percentage.stored() is Some ==> final(root).rooms@[self.index as int].volume_percentage == old(root).rooms@[self.index as int].volume_percentage,
            final(root).data() == old(root).data(),
            lift(r) == room_volume_percentage(
                old(root).data(),
                old(root).data().rooms[self.index as int],
            ),
            final(root).rooms@[self.index as int].volume_percentage.stored() == Some(
                volume_percentage_expr(
                    self.index,
                    final(root).rooms@[self.index as int].parent_id,
                ),
            ),
    {
        let i = self.index;
        if !root.rooms[i].volume_percentage.is_built() {
            let pid = root.rooms[i].parent_id;
            let e = build_volume_percentage_expr(i, pid);
            root.rooms[i].volume_percentage.init(e);
            proof {
                self.lemma_room_memo_write(root, old(root), i as int);
            }
        }
        proof {
            assert(root.inv());
            assert(root.data() == old(root).data());
            root.lemma_data_wf();
            lemma_volume_percentage_field(root.data(), i, root.rooms@[i as int].parent_id);
        }
        let sig = root.rooms[i].volume_percentage.get();
        eval(sig, root)
    }

    /// After a write that only touched memoized fields of the item at `i`
    /// and left each of them canonical, the invariant still holds and the
    /// graph state is unchanged.
    proof fn lemma_room_memo_write(&self, cur: &Root, prev: &Root, i: int)
        requires
            prev.inv(),
            0 <= i < prev.rooms@.len(),
            cur.houses == prev.houses,
            cur.windows == prev.windows,
            cur.rooms@.len() == prev.rooms@.len(),
            forall|j: int|
                0 <= j < prev.rooms@.len() && j != i ==> cur.rooms@[j] == prev.rooms@[j],
            cur.rooms@[i].id == prev.rooms@[i].id,
            cur.rooms@[i].parent_id == prev.rooms@[i].parent_id,
            cur.rooms@[i].length == prev.rooms@[i].length,
            cur.rooms@[i].width == prev.rooms@[i].width,
            cur.rooms@[i].height == prev.rooms@[i].height,
            room_rec_inv(cur.rooms@[i], i),
        ensures
            cur.inv(),
            cur.data() == prev.data(),
    {
        assert forall|j: int| 0 <= j < cur.rooms@.len() implies room_rec_inv(
            #[trigger] cur.rooms@[j],
            j,
        ) by {
            if j != i {
                assert(cur.rooms@[j] == prev.rooms@[j]);
                assert(room_rec_inv(prev.rooms@[j], j));
            }
        }
        assert(cur.data().houses =~= prev.data().houses);
        assert(cur.data().windows =~= prev.data().windows);
        assert(cur.data().rooms =~= prev.data().rooms);
    }
}

impl House {
    /// Current total volume of this container: the aggregate over its
    /// current items, observed through its memoized signal.
    pub fn total_volume(&self, root: &mut Root) -> (r: i128)
        requires
            old(root).inv(),
            self.index < old(root).houses@.len(),
        ensures
            final(root).inv(),
            final(root).houses@.len() == old(root).houses@.len(),
            final(root).rooms@.len() == old(root).rooms@.len(),
            final(root).windows@.len() == old(root).windows@.len(),
            final(root).rooms == old(root).rooms,
            final(root).windows == old(root).windows,
            forall|j: int| 0 <= j < old(root).houses@.len() && j != self.index as int ==> final(root).houses@[j] == old(root).houses@[j],
            final(root).houses@[self.index as int] == (HouseRec { total_volume: final(root).houses@[self.index as int].total_volume, ..old(root).houses@[self.index as int] }),
            old(root).houses@[self.index as int].total_volume.stored() is Some ==> final(root).houses@[self.index as int].total_volume == old(root).houses@[self.index as int].total_volume,
            final(root).data() == old(root).data(),
            r as int == rooms_volume_sum(
                old(root).data(),
                old(root).data().houses[self.index as int].id,
            ),
            final(root).houses@[self.index as int].total_volume.stored() == Some(
                total_volume_expr(final(root).houses@[self.index as int].id),
            ),
    {
        let i = self.index;
        if !root.houses[i].total_volume.is_built() {
            let hid = root.houses[i].id;
            let e = Sig::SumRoomVolumes(hid);
            proof {
                assert(e == total_volume_expr(hid));
            }
            root.houses[i].total_volume.init(e);
            proof {
                self.lemma_house_memo_write(root, old(root), i as int);
            }
        }
        proof {
            assert(root.inv());
            assert(root.data() == old(root).data());
            root.lemma_data_wf();
            lemma_total_volume_field(root.data(), root.houses@[i as int].id);
        }
        let sig = root.houses[i].total_volume.get();
        let res = eval(sig, root);
        res.unwrap()
    }

    /// Current total sub-item area of this container: the flattened
    /// aggregate over its items' sub-items, observed through its memoized
    /// signal.
    pub fn total_window_area(&self, root: &mut Root) -> (r: i128)
        requires
            old(root).inv(),
            self.index < old(root).houses@.len(),
        ensures
            final(root).inv(),
            final(root).houses@.len() == old(root).houses@.len(),
            final(root).rooms@.len() == old(root).rooms@.len(),
            final(root).windows@.len() == old(root).windows@.len(),
            final(root).rooms == old(root).rooms,
            final(root).windows == old(root).windows,
            forall|j: int| 0 <= j < old(root).houses@.len() && j != self.index as int ==> final(root).houses@[j] == old(root).houses@[j],
            final(root).houses@[self.index as int] == (HouseRec { total_window_area: final(root).houses@[self.index as int].total_window_area, ..old(root).houses@[self.index as int] }),
            old(root).houses@[self.index as int].total_window_area.stored() is Some ==> final(root).houses@[self.index as int].total_window_area == old(root).houses@[self.index as int].total_window_area,
            final(root).data() == old(root).data(),
            r as int == house_windows_area_sum(
                old(root).data(),
                old(root).data().houses[self.index as int].id,
            ),
            final(root).houses@[self.index as int].total_window_area.stored() == Some(
                total_window_area_expr(final(root).houses@[self.index as int].id),
            ),
    {
        let i = self.index;
        if !root.houses[i].total_window_area.is_built() {
            let hid = root.houses[i].id;
            let e = Sig::SumHouseWindowAreas(hid);
            proof {
                assert(e == total_window_area_expr(hid));
            }
            root.houses[i].total_window_area.init(e);
            proof {
                self.lemma_house_memo_write(root, old(root), i as int);
            }
        }
        proof {
            assert(root.inv());
            assert(root.data() == old(root).data());
            root.lemma_data_wf();
            lemma_total_window_area_field(root.data(), root.houses@[i as int].id);
        }
        let sig = root.houses[i].total_window_area.get();
        let res = eval(sig, root);
        res.unwrap()
    }

    /// After a write that only touched memoized fields of the container at
    /// `i` and left each of them canonical, the invariant still holds and
    /// the graph state is unchanged.
    proof fn lemma_house_memo_write(&self, cur: &Root, prev: &Root, i: int)
        requires
            prev.inv(),
            0 <= i < prev.houses@.len(),
            cur.rooms == prev.rooms,
            cur.windows == prev.windows,
            cur.houses@.len() == prev.houses@.len(),
            forall|j: int|
                0 <= j < prev.houses@.len() && j != i ==> cur.houses@[j] == prev.houses@[j],
            cur.houses@[i].id == prev.houses@[i].id,
            house_rec_inv(cur.houses@[i], i),
        ensures
            cur.inv(),
            cur.data() == prev.data(),
    {
        assert forall|j: int| 0 <= j < cur.houses@.len() implies house_rec_inv(
            #[trigger] cur.houses@[j],
            j,
        ) by {
            if j != i {
                assert(cur.houses@[j] == prev.houses@[j]);
                assert(house_rec_inv(prev.houses@[j], j));
            }
        }
        assert(cur.data().houses =~= prev.data().houses);
        assert(cur.data().windows =~= prev.data().windows);
        assert(cur.data().rooms =~= prev.data().rooms);
    }
}

impl House {
    /// The filter-collection combinator over the item index: handles of the
    /// items currently under this container, in original relative order;
    /// recomputed from the current index on every observation.
    pub fn rooms(&self, root: &Root) -> (r: Vec<Room>)
        requires
            root.inv(),
            self.index < root.houses@.len(),
        ensures
            r@.map_values(|x: Room| x.index as int) == room_indices(
                root.data(),
                root.data().houses[self.index as int].id,
            ),
            forall|k: int| 0 <= k < r@.len() ==> (#[trigger] r@[k]).index < root.rooms@.len(),
    {
        let ghost d = root.data();
        let hid = root.houses[self.index].id;
        proof {
            assert(d.houses[self.index as int] == root.houses@[self.index as int].data());
        }
        let n = root.rooms.len();
        let mut out: Vec<Room> = Vec::new();
        let mut i: usize = 0;
        while i < n
            invariant
                root.inv(),
                d == root.data(),
                n == root.rooms@.len(),
                0 <= i <= n,
                out@.map_values(|x: Room| x.index as int) == room_indices_upto(
                    d,
                    hid as int,
                    i as int,
                ),
                forall|k: int| 0 <= k < out@.len() ==> (#[trigger] out@[k]).index < n,
            decreases n - i,
        {
            proof {
                assert(d.rooms[i as int] == root.rooms@[i as int].data());
            }
            if root.rooms[i].parent_id == hid {
                let ghost before = out@;
                out.push(Room { index: i });
                proof {
                    assert(out@.map_values(|x: Room| x.index as int) =~= before.map_values(
                        |x: Room| x.index as int,
                    ).push(i as int));
                }
            }
            i = i + 1;
        }
        out
    }

    /// The map-each-and-flatten combinator: handles of every sub-item of
    /// every item currently under this container, items in index order and
    /// each item's sub-items in index order.
    pub fn windows(&self, root: &Root) -> (r: Vec<Window>)
        requires
            root.inv(),
            self.index < root.houses@.len(),
        ensures
            r@.map_values(|x: Window| x.index as int) == house_window_indices(
                root.data(),
                root.data().houses[self.index as int].id,
            ),
            forall|k: int| 0 <= k < r@.len() ==> (#[trigger] r@[k]).index < root.windows@.len(),
    {
        let ghost d = root.data();
        let hid = root.houses[self.index].id;
        proof {
            assert(d.houses[self.index as int] == root.houses@[self.index as int].data());
        }
        let n = root.rooms.len();
        let nw = root.windows.len();
        let mut out: Vec<Window> = Vec::new();
        let mut i: usize = 0;
        while i < n
            invariant
                root.inv(),
                d == root.data(),
                n == root.rooms@.len(),
                nw == root.windows@.len(),
                0 <= i <= n,
                out@.map_values(|x: Window| x.index as int) == house_window_indices_upto(
                    d,
                    hid as int,
                    i as int,
                ),
                forall|k: int| 0 <= k < out@.len() ==> (#[trigger] out@[k]).index < nw,
            decreases n - i,
        {
            proof {
                assert(d.rooms[i as int] == root.rooms@[i as int].data());
            }
            if root.rooms[i].parent_id == hid {
                let rid = root.rooms[i].id;
                let ghost outer = out@.map_values(|x: Window| x.index as int);
                let mut j: usize = 0;
                while j < nw
                    invariant
                        root.inv(),
                        d == root.data(),
                        nw == root.windows@.len(),
                        0 <= j <= nw,
                        rid as int == d.rooms[i as int].id,
                        out@.map_values(|x: Window| x.index as int) == outer
                            + window_indices_upto(d, rid as int, j as int),
                        forall|k: int| 0 <= k < out@.len() ==> (#[trigger] out@[k]).index < nw,
                    decreases nw - j,
                {
                    proof {
                        assert(d.windows[j as int] == root.windows@[j as int].data());
                    }
                    if root.windows[j].room_id == rid {
                        let ghost before = out@;
                        out.push(Window { index: j });
                        proof {
                            assert(out@.map_values(|x: Window| x.index as int)
                                =~= before.map_values(|x: Window| x.index as int).push(
                                j as int,
                            ));
                            assert(outer + window_indices_upto(d, rid as int, j as int).push(
                                j as int,
                            ) =~= (outer + window_indices_upto(d, rid as int, j as int)).push(
                                j as int,
                            ));
                        }
                    }
                    j = j + 1;
                }
                proof {
                    assert(house_window_indices_upto(d, hid as int, i as int + 1) == outer
                        + window_indices(d, rid as int));
                }
            }
            i = i + 1;
        }
        out
    }
}

impl Room {
    /// Resolve this item's parent container through the index: exactly one
    /// container must currently carry the item's parent key. Yields the
    /// missing-relation error when none does and the multiplicity error when
    /// several do; unrelated entities are unaffected either way.
    pub fn house(&self, root: &Root) -> (r: Result<House, EvalError>)
        requires
            root.inv(),
            self.index < root.rooms@.len(),
        ensures
            match r {
                Ok(h) => resolve_house(
                    root.data(),
                    root.data().rooms[self.index as int].parent_id,
                ) == Ok::<int, EvalError>(h.index as int) && h.index < root.houses@.len(),
                Err(e) => resolve_house(
                    root.data(),
                    root.data().rooms[self.index as int].parent_id,
                ) == Err::<int, EvalError>(e),
            },
    {
        let ghost d = root.data();
        let pid = root.rooms[self.index].parent_id;
        proof {
            assert(d.rooms[self.index as int] == root.rooms@[self.index as int].data());
        }
        let c = count_houses_exec(root, pid);
        if c == 0 {
            Err(EvalError::MissingRelation)
        } else if c > 1 {
            Err(EvalError::Multiplicity)
        } else {
            proof {
                lemma_count_first(d, pid as int, root.houses@.len() as int);
            }
            match first_house_exec(root, pid) {
                Some(i) => Ok(House { index: i }),
                None => {
                    proof {
                        assert(false);
                    }
                    Err(EvalError::MissingRelation)
                },
            }
        }
    }

    /// The filter-collection combinator over the sub-item index: handles of
    /// the sub-items currently under this item, in original relative order.
    pub fn windows(&self, root: &Root) -> (r: Vec<Window>)
        requires
            root.inv(),
            self.index < root.rooms@.len(),
        ensures
            r@.map_values(|x: Window| x.index as int) == window_indices(
                root.data(),
                root.data().rooms[self.index as int].id,
            ),
            forall|k: int| 0 <= k < r@.len() ==> (#[trigger] r@[k]).index < root.windows@.len(),
    {
        let ghost d = root.data();
        let rid = root.rooms[self.index].id;
        proof {
            assert(d.rooms[self.index as int] == root.rooms@[self.index as int].data());
        }
        let n = root.windows.len();
        let mut out: Vec<Window> = Vec::new();
        let mut i: usize = 0;
        while i < n
            invariant
                root.inv(),
                d == root.data(),
                n == root.windows@.len(),
                0 <= i <= n,
                out@.map_values(|x: Window| x.index as int) == window_indices_upto(
                    d,
                    rid as int,
                    i as int,
                ),
                forall|k: int| 0 <= k < out@.len() ==> (#[trigger] out@[k]).index < n,
            decreases n - i,
        {
            proof {
                assert(d.windows[i as int] == root.windows@[i as int].data());
            }
            if root.windows[i].room_id == rid {
                let ghost before = out@;
                out.push(Window { index: i });
                proof {
                    assert(out@.map_values(|x: Window| x.index as int) =~= before.map_values(
                        |x: Window| x.index as int,
                    ).push(i as int));
                }
            }
            i = i + 1;
        }
        out
    }
}

} // verus!
