//! First-class signals: the combinator layer.
//!
//! A [`Sig`] is a description of a derived value: a value cell, a constant,
//! an arithmetic combination of other signals, an aggregate over a filtered,
//! dynamically-changing collection of entities, a switch that follows a
//! parent entity resolved by id, or a scaled ratio. Observing a signal means
//! evaluating it against the current graph state; the value of a signal is
//! wholly determined by the current raw values, so every observer of the
//! same signal sees the same values, however many there are.

use vstd::prelude::*;
use crate::error::EvalError;
use crate::model::{
    GraphData, MAX_ENTITIES, PCT_SCALE, area_limit, cell_limit, count_houses,
    house_windows_area_sum, lemma_house_windows_area_sum_bound, lemma_rooms_volume_sum_bound,
    lemma_windows_area_sum_bound, ratio_scaled, rooms_volume_sum, sig_limit, volume_limit,
    windows_area_sum,
};

verus! {

/// A reference to one raw value cell of one entity, by entity index.
#[derive(Clone, Copy, Debug, PartialEq, Eq, Structural)]
pub enum CellRef {
    RoomLength(usize),
    RoomWidth(usize),
    RoomHeight(usize),
    WindowWidth(usize),
    WindowHeight(usize),
}

/// A derived signal. Each variant is one combinator:
/// - `Cell` follows one raw value cell;
/// - `Const` never changes;
/// - `Add`, `Sub` and `Mul` combine two signals, recomputed when either
///   changes;
/// - `SumRoomVolumes(hid)` aggregates the volume of every item whose parent
///   key is `hid`, following membership changes of the index;
/// - `SumRoomWindowAreas(rid)` aggregates the area of every sub-item of item
///   `rid`;
/// - `SumHouseWindowAreas(hid)` aggregates the area of every sub-item of
///   every item of container `hid`, items in index order;
/// - `SwitchTotalVolume(hid)` follows whichever container currently resolves
///   from id `hid` and produces that container's total volume;
/// - `RatioScaled` combines two signals into their scaled quotient.
#[derive(Debug)]
pub enum Sig {
    Cell(CellRef),
    Const(u32),
    Add(Box<Sig>, Box<Sig>),
    Sub(Box<Sig>, Box<Sig>),
    Mul(Box<Sig>, Box<Sig>),
    SumRoomVolumes(i32),
    SumRoomWindowAreas(i32),
    SumHouseWindowAreas(i32),
    SwitchTotalVolume(i32),
    RatioScaled(Box<Sig>, Box<Sig>),
}

/// The value of a cell reference in graph state `d`.
pub open spec fn cell_value(c: CellRef, d: GraphData) -> int {
    match c {
        CellRef::RoomLength(i) => d.rooms[i as int].length,
        CellRef::RoomWidth(i) => d.rooms[i as int].width,
        CellRef::RoomHeight(i) => d.rooms[i as int].height,
        CellRef::WindowWidth(i) => d.windows[i as int].width,
        CellRef::WindowHeight(i) => d.windows[i as int].height,
    }
}

/// Whether a cell reference points into the graph.
pub open spec fn cell_wf(c: CellRef, d: GraphData) -> bool {
    match c {
        CellRef::RoomLength(i) => i < d.rooms.len(),
        CellRef::RoomWidth(i) => i < d.rooms.len(),
        CellRef::RoomHeight(i) => i < d.rooms.len(),
        CellRef::WindowWidth(i) => i < d.windows.len(),
        CellRef::WindowHeight(i) => i < d.windows.len(),
    }
}

/// A strict bound on the magnitude of a signal's value, computed from its
/// structure alone. Always at least 1.
pub open spec fn bound(e: Sig) -> int
    decreases e,
{
    match e {
        Sig::Cell(_) => cell_limit(),
        Sig::Const(c) => c + 1,
        Sig::Add(a, b) => bound(*a) + bound(*b),
        Sig::Sub(a, b) => bound(*a) + bound(*b),
        Sig::Mul(a, b) => bound(*a) * bound(*b),
        Sig::SumRoomVolumes(_) => MAX_ENTITIES * volume_limit(),
        Sig::SumRoomWindowAreas(_) => MAX_ENTITIES * area_limit(),
        Sig::SumHouseWindowAreas(_) => MAX_ENTITIES * MAX_ENTITIES * area_limit(),
        Sig::SwitchTotalVolume(_) => MAX_ENTITIES * volume_limit(),
        Sig::RatioScaled(a, _) => bound(*a) * PCT_SCALE,
    }
}

/// A signal is well formed in graph state `d` when every cell it references
/// exists and its bound stays below `sig_limit`, so that evaluation fits in
/// an `i128`. Appending entities or writing cells preserves this.
pub open spec fn wf(e: Sig, d: GraphData) -> bool
    decreases e,
{
    match e {
        Sig::Cell(c) => cell_wf(c, d),
        Sig::Const(_) => true,
        Sig::Add(a, b) => wf(*a, d) && wf(*b, d) && bound(*a) + bound(*b) <= sig_limit(),
        Sig::Sub(a, b) => wf(*a, d) && wf(*b, d) && bound(*a) + bound(*b) <= sig_limit(),
        Sig::Mul(a, b) => wf(*a, d) && wf(*b, d) && bound(*a) * bound(*b) <= sig_limit(),
        Sig::SumRoomVolumes(_) => true,
        Sig::SumRoomWindowAreas(_) => true,
        Sig::SumHouseWindowAreas(_) => true,
        Sig::SwitchTotalVolume(_) => true,
        Sig::RatioScaled(a, b) => wf(*a, d) && wf(*b, d) && bound(*a) * PCT_SCALE <= sig_limit(),
    }
}

/// The value a signal produces in graph state `d`: the semantics of the
/// combinator layer. Errors of a sub-signal propagate, left side first.
pub open spec fn eval_spec(e: Sig, d: GraphData) -> Result<int, EvalError>
    decreases e,
{
    match e {
        Sig::Cell(c) => Ok(cell_value(c, d)),
        Sig::Const(c) => Ok(c as int),
        Sig::Add(a, b) => match (eval_spec(*a, d), eval_spec(*b, d)) {
            (Err(err), _) => Err(err),
            (_, Err(err)) => Err(err),
            (Ok(x), Ok(y)) => Ok(x + y),
        },
        Sig::Sub(a, b) => match (eval_spec(*a, d), eval_spec(*b, d)) {
            (Err(err), _) => Err(err),
            (_, Err(err)) => Err(err),
            (Ok(x), Ok(y)) => Ok(x - y),
        },
        Sig::Mul(a, b) => match (eval_spec(*a, d), eval_spec(*b, d)) {
            (Err(err), _) => Err(err),
            (_, Err(err)) => Err(err),
            (Ok(x), Ok(y)) => Ok(x * y),
        },
        Sig::SumRoomVolumes(hid) => Ok(rooms_volume_sum(d, hid as int)),
        Sig::SumRoomWindowAreas(rid) => Ok(windows_area_sum(d, rid as int)),
        Sig::SumHouseWindowAreas(hid) => Ok(house_windows_area_sum(d, hid as int)),
        Sig::SwitchTotalVolume(hid) => if count_houses(d, hid as int) == 0 {
            Err(EvalError::MissingRelation)
        } else if count_houses(d, hid as int) > 1 {
            Err(EvalError::Multiplicity)
        } else {
            Ok(rooms_volume_sum(d, hid as int))
        },
        Sig::RatioScaled(a, b) => match (eval_spec(*a, d), eval_spec(*b, d)) {
            (Err(err), _) => Err(err),
            (_, Err(err)) => Err(err),
            (Ok(x), Ok(y)) => ratio_scaled(x, y),
        },
    }
}

/// Every bound is at least 1.
pub proof fn lemma_bound_pos(e: Sig)
    ensures
        bound(e) >= 1,
    decreases e,
{
    match e {
        Sig::Add(a, b) => {
            lemma_bound_pos(*a);
            lemma_bound_pos(*b);
        },
        Sig::Sub(a, b) => {
            lemma_bound_pos(*a);
            lemma_bound_pos(*b);
        },
        Sig::Mul(a, b) => {
            lemma_bound_pos(*a);
            lemma_bound_pos(*b);
            assert(bound(*a) * bound(*b) >= 1) by (nonlinear_arith)
                requires
                    bound(*a) >= 1,
                    bound(*b) >= 1,
            ;
        },
        Sig::RatioScaled(a, _) => {
            lemma_bound_pos(*a);
            assert(bound(*a) * PCT_SCALE >= 1) by (nonlinear_arith)
                requires
                    bound(*a) >= 1,
            ;
        },
        Sig::SumRoomVolumes(_) => {
            lemma_limits_pos();
        },
        Sig::SumRoomWindowAreas(_) => {
            lemma_limits_pos();
        },
        Sig::SumHouseWindowAreas(_) => {
            lemma_limits_pos();
        },
        Sig::SwitchTotalVolume(_) => {
            lemma_limits_pos();
        },
        _ => {},
    }
}

/// The structural bounds of the aggregate combinators are positive.
pub proof fn lemma_limits_pos()
    ensures
        area_limit() >= 1,
        volume_limit() >= 1,
        MAX_ENTITIES * volume_limit() >= 1,
        MAX_ENTITIES * area_limit() >= 1,
        MAX_ENTITIES * MAX_ENTITIES * area_limit() >= 1,
        MAX_ENTITIES * volume_limit() <= sig_limit(),
        MAX_ENTITIES * area_limit() <= sig_limit(),
        MAX_ENTITIES * MAX_ENTITIES * area_limit() <= sig_limit(),
        cell_limit() * cell_limit() == area_limit(),
        area_limit() * cell_limit() == volume_limit(),
        area_limit() == 0x1_0000_0000_0000_0000,
        volume_limit() == 0x1_0000_0000_0000_0000_0000_0000,
        volume_limit() <= sig_limit(),
        area_limit() <= sig_limit(),
        9 * area_limit() + MAX_ENTITIES * area_limit() <= sig_limit(),
        volume_limit() * PCT_SCALE <= sig_limit(),
{
    assert(area_limit() * cell_limit() == volume_limit()) by (nonlinear_arith)
        requires
            area_limit() == cell_limit() * cell_limit(),
            volume_limit() == cell_limit() * cell_limit() * cell_limit(),
    ;
    assert(0x1_0000_0000_0000_0000_0000_0000 * (PCT_SCALE as int)
        == 0x1_0000_0000_0000_0000_0000_0000 * 1000000) by (nonlinear_arith)
        requires
            PCT_SCALE == 1000000u32,
    ;
    assert(area_limit() == 0x1_0000_0000_0000_0000) by (nonlinear_arith)
        requires
            area_limit() == cell_limit() * cell_limit(),
            cell_limit() == 0x1_0000_0000,
    ;
    assert(volume_limit() == 0x1_0000_0000_0000_0000_0000_0000) by (nonlinear_arith)
        requires
            volume_limit() == cell_limit() * cell_limit() * cell_limit(),
            cell_limit() == 0x1_0000_0000,
    ;
    assert(MAX_ENTITIES * volume_limit() == 0x1_0000_0000_0000_0000_0000_0000_0000)
        by (nonlinear_arith)
        requires
            volume_limit() == 0x1_0000_0000_0000_0000_0000_0000,
            MAX_ENTITIES == 0x10000,
    ;
    assert(MAX_ENTITIES * area_limit() == 0x1_0000_0000_0000_0000_0000) by (nonlinear_arith)
        requires
            area_limit() == 0x1_0000_0000_0000_0000,
            MAX_ENTITIES == 0x10000,
    ;
    assert(MAX_ENTITIES * MAX_ENTITIES * area_limit() == 0x1_0000_0000_0000_0000_0000_0000)
        by (nonlinear_arith)
        requires
            area_limit() == 0x1_0000_0000_0000_0000,
            MAX_ENTITIES == 0x10000,
    ;
}

/// The value of a well-formed signal stays strictly within its bound.
pub proof fn lemma_eval_in_range(e: Sig, d: GraphData)
    requires
        d.wf(),
        wf(e, d),
    ensures
        eval_spec(e, d) matches Ok(v) ==> -bound(e) < v < bound(e),
    decreases e,
{
    match e {
        Sig::Cell(_) => {},
        Sig::Const(_) => {},
        Sig::Add(a, b) => {
            lemma_eval_in_range(*a, d);
            lemma_eval_in_range(*b, d);
        },
        Sig::Sub(a, b) => {
            lemma_eval_in_range(*a, d);
            lemma_eval_in_range(*b, d);
        },
        Sig::Mul(a, b) => {
            lemma_eval_in_range(*a, d);
            lemma_eval_in_range(*b, d);
            lemma_bound_pos(*a);
            lemma_bound_pos(*b);
            if eval_spec(*a, d) matches Ok(x) && eval_spec(*b, d) matches Ok(y) {
                let x = eval_spec(*a, d)->Ok_0;
                let y = eval_spec(*b, d)->Ok_0;
                assert(-(bound(*a) * bound(*b)) < x * y < bound(*a) * bound(*b))
                    by (nonlinear_arith)
                    requires
                        -bound(*a) < x < bound(*a),
                        -bound(*b) < y < bound(*b),
                        bound(*a) >= 1,
                        bound(*b) >= 1,
                ;
            }
        },
        Sig::SumRoomVolumes(hid) => {
            lemma_rooms_volume_sum_bound(d, hid as int, d.rooms.len() as int);
            assert(d.rooms.len() * (volume_limit() - 1) < MAX_ENTITIES * volume_limit())
                by (nonlinear_arith)
                requires
                    d.rooms.len() <= MAX_ENTITIES,
                    volume_limit() >= 1,
            ;
        },
        Sig::SumRoomWindowAreas(rid) => {
            lemma_windows_area_sum_bound(d, rid as int, d.windows.len() as int);
            assert(d.windows.len() * (area_limit() - 1) < MAX_ENTITIES * area_limit())
                by (nonlinear_arith)
                requires
                    d.windows.len() <= MAX_ENTITIES,
                    area_limit() >= 1,
            ;
        },
        Sig::SumHouseWindowAreas(hid) => {
            lemma_house_windows_area_sum_bound(d, hid as int, d.rooms.len() as int);
            assert(d.rooms.len() * MAX_ENTITIES * (area_limit() - 1)
                < MAX_ENTITIES * MAX_ENTITIES * area_limit()) by (nonlinear_arith)
                requires
                    d.rooms.len() <= MAX_ENTITIES,
                    area_limit() >= 1,
            ;
        },
        Sig::SwitchTotalVolume(hid) => {
            lemma_rooms_volume_sum_bound(d, hid as int, d.rooms.len() as int);
            assert(d.rooms.len() * (volume_limit() - 1) < MAX_ENTITIES * volume_limit())
                by (nonlinear_arith)
                requires
                    d.rooms.len() <= MAX_ENTITIES,
                    volume_limit() >= 1,
            ;
        },
        Sig::RatioScaled(a, b) => {
            lemma_eval_in_range(*a, d);
            lemma_eval_in_range(*b, d);
            lemma_bound_pos(*a);
            if eval_spec(*a, d) matches Ok(x) && eval_spec(*b, d) matches Ok(y) {
                let x = eval_spec(*a, d)->Ok_0;
                let y = eval_spec(*b, d)->Ok_0;
                if x >= 0 && y > 0 {
                    assert(0 <= (x * PCT_SCALE) / y < bound(*a) * PCT_SCALE)
                        by (nonlinear_arith)
                        requires
                            0 <= x < bound(*a),
                            y >= 1,
                            bound(*a) >= 1,
                    ;
                }
            }
        },
    }
}

} // verus!
