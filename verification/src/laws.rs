//! The laws the engine obeys, stated over the model and proved once for
//! every state the graph can reach.

use vstd::prelude::*;
use crate::error::EvalError;
use crate::graph::{
    Root, lemma_area_field, lemma_surface_field, lemma_total_volume_field,
    lemma_total_window_area_field, lemma_total_window_surface_field, lemma_volume_field,
    lemma_volume_percentage_field,
};
use crate::model::{
    GraphData, RoomData, WindowData, count_houses, house_windows_area_sum,
    house_windows_area_sum_upto, lemma_count_depends_on_houses, lemma_house_sum_no_windows,
    lemma_member_count_at_most_one, lemma_member_count_depends_on_rooms,
    lemma_member_count_zero_iff, lemma_volume_sum_prefix, lemma_volume_sum_same_members,
    lemma_area_sum_prefix, matched_window_total_upto, member_rooms_with_id,
    member_rooms_with_id_upto, per_window_total_upto, room_indices_upto, room_surface,
    room_volume, room_volume_percentage, rooms_volume_sum, rooms_volume_sum_upto, seq_sum,
    unique_member_ids, window_area, window_indices_upto, windows_area_sum,
    windows_area_sum_upto, windows_prefix,
};
use crate::sig::{Sig, eval_spec};

verus! {

/// Whatever raw-field mutations led to the current state, the value observed
/// through a built derived field of an item is the pure function of the
/// current raw values along its dependency chain: nothing stale survives a
/// write.
pub proof fn lemma_room_observations_current(root: Root, i: usize)
    requires
        root.inv(),
        i < root.rooms@.len(),
    ensures
        root.rooms@[i as int].volume.stored() matches Some(e) ==> eval_spec(e, root.data())
            == Ok::<int, EvalError>(room_volume(root.data().rooms[i as int])),
        root.rooms@[i as int].total_window_surface.stored() matches Some(e) ==> eval_spec(
            e,
            root.data(),
        ) == Ok::<int, EvalError>(
            windows_area_sum(root.data(), root.data().rooms[i as int].id),
        ),
        root.rooms@[i as int].surface.stored() matches Some(e) ==> eval_spec(e, root.data())
            == Ok::<int, EvalError>(room_surface(root.data(), root.data().rooms[i as int])),
        root.rooms@[i as int].volume_percentage.stored() matches Some(e) ==> eval_spec(
            e,
            root.data(),
        ) == room_volume_percentage(root.data(), root.data().rooms[i as int]),
{
    root.lemma_data_wf();
    let d = root.data();
    let rec = root.rooms@[i as int];
    assert(d.rooms[i as int] == rec.data());
    if rec.volume.stored() is Some {
        lemma_volume_field(d, i);
    }
    if rec.total_window_surface.stored() is Some {
        lemma_total_window_surface_field(d, rec.id);
    }
    if rec.surface.stored() is Some {
        lemma_surface_field(d, i, rec.id);
    }
    if rec.volume_percentage.stored() is Some {
        lemma_volume_percentage_field(d, i, rec.parent_id);
    }
}

/// The container counterpart: observed aggregates equal the sums over the
/// container's current items and their current cells.
pub proof fn lemma_house_observations_current(root: Root, i: usize)
    requires
        root.inv(),
        i < root.houses@.len(),
    ensures
        root.houses@[i as int].total_volume.stored() matches Some(e) ==> eval_spec(
            e,
            root.data(),
        ) == Ok::<int, EvalError>(
            rooms_volume_sum(root.data(), root.data().houses[i as int].id),
        ),
        root.houses@[i as int].total_window_area.stored() matches Some(e) ==> eval_spec(
            e,
            root.data(),
        ) == Ok::<int, EvalError>(
            house_windows_area_sum(root.data(), root.data().houses[i as int].id),
        ),
{
    root.lemma_data_wf();
    let d = root.data();
    let rec = root.houses@[i as int];
    assert(d.houses[i as int] == rec.data());
    if rec.total_volume.stored() is Some {
        lemma_total_volume_field(d, rec.id);
    }
    if rec.total_window_area.stored() is Some {
        lemma_total_window_area_field(d, rec.id);
    }
}

/// The sub-item counterpart: the observed area is the product of the two
/// current cells.
pub proof fn lemma_window_observations_current(root: Root, i: usize)
    requires
        root.inv(),
        i < root.windows@.len(),
    ensures
        root.windows@[i as int].area.stored() matches Some(e) ==> eval_spec(e, root.data())
            == Ok::<int, EvalError>(window_area(root.data().windows[i as int])),
{
    root.lemma_data_wf();
    let d = root.data();
    assert(d.windows[i as int] == root.windows@[i as int].data());
    if root.windows@[i as int].area.stored() is Some {
        lemma_area_field(d, i);
    }
}

/// Requesting the same derived field through any two access histories that
/// reached the same graph state yields the same stored signal, built once
/// (the build count is 1), so all subscribers observe identical value
/// sequences.
pub proof fn lemma_memoized_field_shared(r1: Root, r2: Root, i: usize)
    requires
        r1.inv(),
        r2.inv(),
        r1.data() == r2.data(),
        i < r1.rooms@.len(),
        r1.rooms@[i as int].surface.stored() is Some,
        r2.rooms@[i as int].surface.stored() is Some,
    ensures
        r1.rooms@[i as int].surface.stored() == r2.rooms@[i as int].surface.stored(),
        r1.rooms@[i as int].surface.times_built() == 1,
        r2.rooms@[i as int].surface.times_built() == 1,
{
    assert(r1.data().rooms.len() == r1.rooms@.len());
    assert(r2.data().rooms.len() == r2.rooms@.len());
    assert(r2.data().rooms.len() == r1.data().rooms.len());
    assert(i < r2.rooms@.len());
    assert(r1.data().rooms[i as int] == r1.rooms@[i as int].data());
    assert(r2.data().rooms[i as int] == r2.rooms@[i as int].data());
    assert(r1.rooms@[i as int].id as int == r2.rooms@[i as int].id as int);
    assert(r1.rooms@[i as int].id == r2.rooms@[i as int].id);
}

/// An aggregate equals the arithmetic sum of the current per-element values
/// of exactly the elements currently in the filtered collection.
pub proof fn lemma_aggregate_is_pointwise_sum(d: GraphData, hid: int, n: int)
    requires
        0 <= n <= d.rooms.len(),
    ensures
        rooms_volume_sum_upto(d, hid, n) == seq_sum(
            room_indices_upto(d, hid, n).map_values(|j: int| room_volume(d.rooms[j])),
        ),
    decreases n,
{
    let f = |j: int| room_volume(d.rooms[j]);
    if n > 0 {
        lemma_aggregate_is_pointwise_sum(d, hid, n - 1);
        let prev = room_indices_upto(d, hid, n - 1);
        if d.rooms[n - 1].parent_id == hid {
            assert(room_indices_upto(d, hid, n) == prev.push(n - 1));
            assert(prev.push(n - 1).map_values(f) =~= prev.map_values(f).push(f(n - 1)));
            assert(prev.map_values(f).push(f(n - 1)).drop_last() =~= prev.map_values(f));
        }
    } else {
        assert(room_indices_upto(d, hid, 0).map_values(f) =~= Seq::<int>::empty());
    }
}

/// The sub-item counterpart: an item's aggregated area equals the
/// arithmetic sum of the current areas of exactly its current sub-items.
pub proof fn lemma_subitem_aggregate_is_pointwise_sum(d: GraphData, rid: int, n: int)
    requires
        0 <= n <= d.windows.len(),
    ensures
        windows_area_sum_upto(d, rid, n) == seq_sum(
            window_indices_upto(d, rid, n).map_values(|j: int| window_area(d.windows[j])),
        ),
    decreases n,
{
    let f = |j: int| window_area(d.windows[j]);
    if n > 0 {
        lemma_subitem_aggregate_is_pointwise_sum(d, rid, n - 1);
        let prev = window_indices_upto(d, rid, n - 1);
        if d.windows[n - 1].room_id == rid {
            assert(window_indices_upto(d, rid, n) == prev.push(n - 1));
            assert(prev.push(n - 1).map_values(f) =~= prev.map_values(f).push(f(n - 1)));
            assert(prev.map_values(f).push(f(n - 1)).drop_last() =~= prev.map_values(f));
        }
    } else {
        assert(window_indices_upto(d, rid, 0).map_values(f) =~= Seq::<int>::empty());
    }
}

/// Adding an item to the index moves a container's total volume by exactly
/// that item's volume when it joins the filtered collection, and not at all
/// when it does not.
pub proof fn lemma_aggregate_tracks_items(d1: GraphData, d2: GraphData, r: RoomData, hid: int)
    requires
        d2.rooms == d1.rooms.push(r),
    ensures
        rooms_volume_sum(d2, hid) == rooms_volume_sum(d1, hid) + if r.parent_id == hid {
            room_volume(r)
        } else {
            0int
        },
{
    let n = d1.rooms.len() as int;
    assert forall|j: int| 0 <= j < n implies #[trigger] d1.rooms[j] == d2.rooms[j] by {
        assert(d2.rooms[j] == d1.rooms.push(r)[j]);
    }
    lemma_volume_sum_prefix(d1, d2, hid, n);
    assert(d2.rooms[n] == r);
}

/// Adding a sub-item to the index moves an item's aggregated area by exactly
/// that sub-item's area when it joins the filtered collection.
pub proof fn lemma_aggregate_tracks_subitems(
    d1: GraphData,
    d2: GraphData,
    w: WindowData,
    rid: int,
)
    requires
        d2.windows == d1.windows.push(w),
    ensures
        windows_area_sum(d2, rid) == windows_area_sum(d1, rid) + if w.room_id == rid {
            window_area(w)
        } else {
            0int
        },
{
    let n = d1.windows.len() as int;
    assert forall|j: int| 0 <= j < n implies #[trigger] d1.windows[j] == d2.windows[j] by {
        assert(d2.windows[j] == d1.windows.push(w)[j]);
    }
    lemma_area_sum_prefix(d1, d2, rid, n);
    assert(d2.windows[n] == w);
}

/// Adding a sub-item to the index moves a container's flattened aggregate
/// by that sub-item's area once per member item carrying its parent key:
/// the exact container-level membership delta, whatever ids repeat.
pub proof fn lemma_container_aggregate_tracks_subitems(
    d1: GraphData,
    d2: GraphData,
    w: WindowData,
    hid: int,
)
    requires
        d2.rooms == d1.rooms,
        d2.windows == d1.windows.push(w),
    ensures
        house_windows_area_sum(d2, hid) == house_windows_area_sum(d1, hid)
            + member_rooms_with_id(d1, hid, w.room_id) * window_area(w),
{
    lemma_container_delta_upto(d1, d2, w, hid, d1.rooms.len() as int);
}

proof fn lemma_container_delta_upto(d1: GraphData, d2: GraphData, w: WindowData, hid: int, n: int)
    requires
        d2.rooms == d1.rooms,
        d2.windows == d1.windows.push(w),
        0 <= n <= d1.rooms.len(),
    ensures
        house_windows_area_sum_upto(d2, hid, n) == house_windows_area_sum_upto(d1, hid, n)
            + member_rooms_with_id_upto(d1, hid, w.room_id, n) * window_area(w),
    decreases n,
{
    if n > 0 {
        lemma_container_delta_upto(d1, d2, w, hid, n - 1);
        let r = d1.rooms[n - 1];
        assert(d2.rooms[n - 1] == r);
        if r.parent_id == hid {
            lemma_aggregate_tracks_subitems(d1, d2, w, r.id);
            let m = member_rooms_with_id_upto(d1, hid, w.room_id, n - 1);
            if r.id == w.room_id {
                assert((m + 1) * window_area(w) == m * window_area(w) + window_area(w))
                    by (nonlinear_arith);
            }
        }
    }
}

/// The container-level delta in its unit-weight form: under unique member
/// ids, the sub-item joins the aggregate with its full area when its parent
/// key matches a member item, and not at all when it matches none.
pub proof fn lemma_container_aggregate_tracks_subitems_unique(
    d1: GraphData,
    d2: GraphData,
    w: WindowData,
    hid: int,
)
    requires
        d2.rooms == d1.rooms,
        d2.windows == d1.windows.push(w),
        unique_member_ids(d1, hid),
    ensures
        house_windows_area_sum(d2, hid) == house_windows_area_sum(d1, hid) + if (exists|j: int|
            0 <= j < d1.rooms.len() && (#[trigger] d1.rooms[j]).parent_id == hid
                && d1.rooms[j].id == w.room_id) {
            window_area(w)
        } else {
            0int
        },
{
    lemma_container_aggregate_tracks_subitems(d1, d2, w, hid);
    let n = d1.rooms.len() as int;
    lemma_member_count_zero_iff(d1, hid, w.room_id, n);
    lemma_member_count_at_most_one(d1, hid, w.room_id, n);
    let c = member_rooms_with_id(d1, hid, w.room_id);
    if (exists|j: int|
        0 <= j < d1.rooms.len() && (#[trigger] d1.rooms[j]).parent_id == hid && d1.rooms[j].id
            == w.room_id) {
        assert(c != 0);
        assert(c == 1);
    } else {
        assert(c == 0);
    }
}

/// The container's flattened aggregate equals the sum over the sub-item
/// index of each sub-item's area weighted by how many member items carry
/// its parent key — the per-sub-item reading of the nested sum.
pub proof fn lemma_container_aggregate_per_window(d: GraphData, hid: int)
    ensures
        house_windows_area_sum(d, hid) == per_window_total_upto(
            d,
            hid,
            d.windows.len() as int,
        ),
{
    let n = d.windows.len() as int;
    lemma_per_window_upto(d, hid, n);
    let dn = windows_prefix(d, n);
    assert(dn.windows =~= d.windows);
    assert(dn == d);
}

proof fn lemma_per_window_upto(d: GraphData, hid: int, n: int)
    requires
        0 <= n <= d.windows.len(),
    ensures
        house_windows_area_sum(windows_prefix(d, n), hid) == per_window_total_upto(d, hid, n),
    decreases n,
{
    let rlen = d.rooms.len() as int;
    if n == 0 {
        let d0 = windows_prefix(d, 0);
        assert(d0.windows.len() == 0);
        lemma_house_sum_no_windows(d0, hid, rlen);
    } else {
        lemma_per_window_upto(d, hid, n - 1);
        let dp = windows_prefix(d, n - 1);
        let dn = windows_prefix(d, n);
        let w = d.windows[n - 1];
        assert(dn.windows =~= dp.windows.push(w));
        lemma_container_aggregate_tracks_subitems(dp, dn, w, hid);
        lemma_member_count_depends_on_rooms(dp, d, hid, w.room_id, rlen);
    }
}

/// The per-sub-item reading in its unit-weight form: under unique member
/// ids, the container's flattened aggregate is the sum of the areas of
/// exactly those sub-items whose parent key matches a member item.
pub proof fn lemma_container_aggregate_per_window_unique(d: GraphData, hid: int)
    requires
        unique_member_ids(d, hid),
    ensures
        house_windows_area_sum(d, hid) == matched_window_total_upto(
            d,
            hid,
            d.windows.len() as int,
        ),
{
    lemma_container_aggregate_per_window(d, hid);
    lemma_totals_agree(d, hid, d.windows.len() as int);
}

proof fn lemma_totals_agree(d: GraphData, hid: int, n: int)
    requires
        unique_member_ids(d, hid),
        0 <= n <= d.windows.len(),
    ensures
        per_window_total_upto(d, hid, n) == matched_window_total_upto(d, hid, n),
    decreases n,
{
    let rlen = d.rooms.len() as int;
    if n > 0 {
        lemma_totals_agree(d, hid, n - 1);
        let rid = d.windows[n - 1].room_id;
        lemma_member_count_zero_iff(d, hid, rid, rlen);
        lemma_member_count_at_most_one(d, hid, rid, rlen);
        let c = member_rooms_with_id(d, hid, rid);
        let a = window_area(d.windows[n - 1]);
        assert(per_window_total_upto(d, hid, n) == per_window_total_upto(d, hid, n - 1) + c
            * a);
        if (exists|j: int|
            0 <= j < d.rooms.len() && (#[trigger] d.rooms[j]).parent_id == hid
                && d.rooms[j].id == rid) {
            assert(c != 0);
            assert(c == 1);
            assert(matched_window_total_upto(d, hid, n) == matched_window_total_upto(
                d,
                hid,
                n - 1,
            ) + a);
            assert(c * a == a) by (nonlinear_arith)
                requires
                    c == 1,
            ;
        } else {
            assert(c == 0);
            assert(matched_window_total_upto(d, hid, n) == matched_window_total_upto(
                d,
                hid,
                n - 1,
            ));
            assert(c * a == 0) by (nonlinear_arith)
                requires
                    c == 0,
            ;
        }
    }
}

/// The switch signal follows whichever container currently resolves from
/// the parent key: its value is that container's current total volume, and
/// the lookup errors are reported exactly when resolution fails.
pub proof fn lemma_switch_follows_current_target(d: GraphData, pid: i32)
    ensures
        count_houses(d, pid as int) == 0 ==> eval_spec(Sig::SwitchTotalVolume(pid), d)
            == Err::<int, EvalError>(EvalError::MissingRelation),
        count_houses(d, pid as int) == 1 ==> eval_spec(Sig::SwitchTotalVolume(pid), d)
            == Ok::<int, EvalError>(rooms_volume_sum(d, pid as int)),
        count_houses(d, pid as int) > 1 ==> eval_spec(Sig::SwitchTotalVolume(pid), d)
            == Err::<int, EvalError>(EvalError::Multiplicity),
{
}

/// Once the switch follows one target, mutations under entities the target
/// does not own leave the switched value untouched: the dependent value
/// stops reflecting any non-target parent's subsequent changes.
pub proof fn lemma_switch_independent_of_other_parents(d1: GraphData, d2: GraphData, pid: i32)
    requires
        d1.houses == d2.houses,
        d1.rooms.len() == d2.rooms.len(),
        forall|j: int|
            0 <= j < d1.rooms.len() ==> (#[trigger] d1.rooms[j]).parent_id
                == d2.rooms[j].parent_id,
        forall|j: int|
            0 <= j < d1.rooms.len() && d1.rooms[j].parent_id == pid as int
                ==> #[trigger] d1.rooms[j] == d2.rooms[j],
    ensures
        eval_spec(Sig::SwitchTotalVolume(pid), d1) == eval_spec(Sig::SwitchTotalVolume(pid), d2),
{
    lemma_count_depends_on_houses(d1, d2, pid as int, d1.houses.len() as int);
    lemma_volume_sum_same_members(d1, d2, pid as int, d1.rooms.len() as int);
}

} // verus!
