//! End-to-end behaviour of the entity graph. Raw dimensions are fixed-point
//! integers in hundredths of a unit, so areas are in ten-thousandths and
//! volumes in millionths of the respective unit.

use reactive_tree::error::EvalError;
use reactive_tree::graph::{House, Room, Root, Window};

#[test]
fn scenario_totals_and_recompute() {
    let mut root = Root::new();
    let house = House::new(&mut root, 1);
    let room1 = Room::new(&mut root, 1, 1, 100, 100, 200);
    let room2 = Room::new(&mut root, 2, 1, 100, 100, 100);
    let window1 = Window::new(&mut root, 1, 1, 20, 20);

    // 1x1x2 + 1x1x1 = 3.0 cubic units
    assert_eq!(house.total_volume(&mut root), 3_000_000);
    // 2*(2*1) + 2*(2*1) + 2*(1*1) - 0.2*0.2 = 9.96 square units
    assert_eq!(room1.surface(&mut root), 99_600);
    assert_eq!(window1.area(&mut root), 400);

    // raising the window height recomputes the surface from current cells
    window1.set_height(&mut root, 40);
    assert_eq!(window1.area(&mut root), 800);
    assert_eq!(room1.surface(&mut root), 99_200);
    assert_eq!(room1.total_window_surface(&mut root), 800);
    assert_eq!(house.total_window_area(&mut root), 800);

    // the sibling has no window and keeps its own surface
    assert_eq!(room2.surface(&mut root), 60_000);
    assert_eq!(house.total_volume(&mut root), 3_000_000);
}

#[test]
fn derived_fields_track_every_mutation() {
    let mut root = Root::new();
    let _house = House::new(&mut root, 1);
    let room = Room::new(&mut root, 1, 1, 100, 100, 100);
    assert_eq!(room.volume(&mut root), 1_000_000);
    room.set_length(&mut root, 300);
    assert_eq!(room.volume(&mut root), 3_000_000);
    room.set_width(&mut root, 200);
    assert_eq!(room.volume(&mut root), 6_000_000);
    room.set_height(&mut root, 50);
    assert_eq!(room.volume(&mut root), 3_000_000);
    assert_eq!(room.length(&root), 300);
    assert_eq!(room.width(&root), 200);
    assert_eq!(room.height(&root), 50);
}

#[test]
fn builder_runs_once_per_field() {
    let mut root = Root::new();
    let house = House::new(&mut root, 1);
    let room = Room::new(&mut root, 1, 1, 100, 100, 200);
    assert_eq!(root.rooms[room.index].surface.build_count(), 0);
    let first = room.surface(&mut root);
    let second = room.surface(&mut root);
    assert_eq!(first, second);
    assert_eq!(root.rooms[room.index].surface.build_count(), 1);
    let _ = house.total_volume(&mut root);
    let _ = house.total_volume(&mut root);
    assert_eq!(root.houses[house.index].total_volume.build_count(), 1);
}

#[test]
fn sibling_fields_not_rederived_by_unrelated_mutation() {
    let mut root = Root::new();
    let _house = House::new(&mut root, 1);
    let room1 = Room::new(&mut root, 1, 1, 100, 100, 200);
    let room2 = Room::new(&mut root, 2, 1, 100, 100, 100);
    let window1 = Window::new(&mut root, 1, 1, 20, 20);
    assert_eq!(room1.surface(&mut root), 99_600);
    assert_eq!(room2.surface(&mut root), 60_000);
    window1.set_height(&mut root, 40);
    assert_eq!(room1.surface(&mut root), 99_200);
    // the sibling's memoized field was built once and never rebuilt
    assert_eq!(root.rooms[room2.index].surface.build_count(), 1);
    assert_eq!(room2.surface(&mut root), 60_000);
    assert_eq!(root.rooms[room2.index].surface.build_count(), 1);
}

#[test]
fn volume_share_of_container() {
    let mut root = Root::new();
    let _house = House::new(&mut root, 1);
    let room1 = Room::new(&mut root, 1, 1, 100, 100, 200);
    let room2 = Room::new(&mut root, 2, 1, 100, 100, 100);
    // 2.0 of 3.0 in parts per million, truncated
    assert_eq!(room1.volume_percentage(&mut root), Ok(666_666));
    assert_eq!(room2.volume_percentage(&mut root), Ok(333_333));
}

#[test]
fn volume_share_undefined_for_zero_total() {
    let mut root = Root::new();
    let _house = House::new(&mut root, 1);
    let room = Room::new(&mut root, 1, 1, 0, 100, 100);
    assert_eq!(room.volume_percentage(&mut root), Err(EvalError::UndefinedRatio));
}

#[test]
fn missing_parent_is_reported_not_defaulted() {
    let mut root = Root::new();
    let room = Room::new(&mut root, 1, 99, 100, 100, 100);
    assert_eq!(room.house(&root).unwrap_err(), EvalError::MissingRelation);
    assert_eq!(room.volume_percentage(&mut root), Err(EvalError::MissingRelation));
    // an unrelated entity keeps working
    assert_eq!(room.volume(&mut root), 1_000_000);
}

#[test]
fn ambiguous_parent_is_reported() {
    let mut root = Root::new();
    let _h1 = House::new(&mut root, 5);
    let _h2 = House::new(&mut root, 5);
    let room = Room::new(&mut root, 1, 5, 100, 100, 100);
    assert_eq!(room.house(&root).unwrap_err(), EvalError::Multiplicity);
    assert_eq!(room.volume_percentage(&mut root), Err(EvalError::Multiplicity));
}

#[test]
fn switch_follows_the_resolved_parent() {
    let mut root = Root::new();
    let room = Room::new(&mut root, 1, 7, 100, 100, 100);
    // no target yet
    assert_eq!(room.volume_percentage(&mut root), Err(EvalError::MissingRelation));
    // the parent appears: the switch follows it
    let house7 = House::new(&mut root, 7);
    assert!(room.house(&root).is_ok());
    assert_eq!(room.volume_percentage(&mut root), Ok(1_000_000));
    // a mutation under a different container leaves the value untouched
    let _other_house = House::new(&mut root, 8);
    let other_room = Room::new(&mut root, 2, 8, 400, 400, 400);
    other_room.set_height(&mut root, 900);
    assert_eq!(room.volume_percentage(&mut root), Ok(1_000_000));
    assert_eq!(house7.total_volume(&mut root), 1_000_000);
    // a second container with the same id makes resolution ambiguous
    let _twin = House::new(&mut root, 7);
    assert_eq!(room.volume_percentage(&mut root), Err(EvalError::Multiplicity));
}

#[test]
fn aggregate_tracks_membership() {
    let mut root = Root::new();
    let house = House::new(&mut root, 1);
    assert_eq!(house.total_volume(&mut root), 0);
    let room1 = Room::new(&mut root, 1, 1, 100, 100, 100);
    assert_eq!(house.total_volume(&mut root), 1_000_000);
    let _room2 = Room::new(&mut root, 2, 1, 200, 100, 100);
    assert_eq!(house.total_volume(&mut root), 3_000_000);
    // an item of another container does not contribute
    let _stranger = Room::new(&mut root, 3, 9, 500, 500, 500);
    assert_eq!(house.total_volume(&mut root), 3_000_000);
    assert_eq!(room1.total_window_surface(&mut root), 0);
    let _w1 = Window::new(&mut root, 1, 1, 20, 20);
    assert_eq!(room1.total_window_surface(&mut root), 400);
    let _w2 = Window::new(&mut root, 2, 1, 10, 10);
    assert_eq!(room1.total_window_surface(&mut root), 500);
}

#[test]
fn container_aggregate_tracks_subitem_membership() {
    let mut root = Root::new();
    let house = House::new(&mut root, 1);
    let _room1 = Room::new(&mut root, 1, 1, 100, 100, 100);
    assert_eq!(house.total_window_area(&mut root), 0);
    let _w1 = Window::new(&mut root, 1, 1, 20, 20);
    assert_eq!(house.total_window_area(&mut root), 400);
    // a sub-item whose parent key matches no member item adds nothing
    let _stray = Window::new(&mut root, 2, 77, 50, 50);
    assert_eq!(house.total_window_area(&mut root), 400);
    let _w2 = Window::new(&mut root, 3, 1, 10, 10);
    assert_eq!(house.total_window_area(&mut root), 500);
}

#[test]
fn filtered_collections_keep_index_order() {
    let mut root = Root::new();
    let house = House::new(&mut root, 1);
    let room1 = Room::new(&mut root, 1, 1, 100, 100, 100);
    let _foreign = Room::new(&mut root, 9, 2, 100, 100, 100);
    let room2 = Room::new(&mut root, 2, 1, 100, 100, 100);
    let w1 = Window::new(&mut root, 1, 1, 10, 10);
    let w2 = Window::new(&mut root, 2, 2, 20, 20);
    let w3 = Window::new(&mut root, 3, 1, 30, 30);
    let rooms = house.rooms(&root);
    assert_eq!(rooms.len(), 2);
    assert_eq!(rooms[0].index, room1.index);
    assert_eq!(rooms[1].index, room2.index);
    let room1_windows = room1.windows(&root);
    assert_eq!(room1_windows.len(), 2);
    assert_eq!(room1_windows[0].index, w1.index);
    assert_eq!(room1_windows[1].index, w3.index);
    // flattened: room 1's sub-items in index order, then room 2's
    let all = house.windows(&root);
    assert_eq!(all.len(), 3);
    assert_eq!(all[0].index, w1.index);
    assert_eq!(all[1].index, w3.index);
    assert_eq!(all[2].index, w2.index);
}

#[test]
fn window_cells_read_back() {
    let mut root = Root::new();
    let _house = House::new(&mut root, 1);
    let _room = Room::new(&mut root, 1, 1, 100, 100, 100);
    let w = Window::new(&mut root, 1, 1, 25, 35);
    assert_eq!(w.width(&root), 25);
    assert_eq!(w.height(&root), 35);
    w.set_width(&mut root, 40);
    assert_eq!(w.width(&root), 40);
    assert_eq!(w.area(&mut root), 1400);
}
