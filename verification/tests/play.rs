use voxel_world::{Axis, Coord, Input, Key, RayStep, World};

fn empty_world(sx: i32, sy: i32, sz: i32) -> World {
    let mut w = World::new(3);
    w.size = Coord::new(sx, sy, sz);
    w.build_terrain(&vec![-1; (sx * sz) as usize], &vec![false; (sx * sz) as usize]);
    w.updated = false;
    w
}

#[test]
fn ray_moves_into_empty_cell() {
    let w = empty_world(4, 4, 4);
    let r = w.traverse_step(Coord::new(1, 1, 1), Axis::X, Coord::new(1, -1, 1));
    assert_eq!(r, RayStep::Moved(Coord::new(2, 1, 1)));
    let r = w.traverse_step(Coord::new(1, 1, 1), Axis::Y, Coord::new(1, -1, 1));
    assert_eq!(r, RayStep::Moved(Coord::new(1, 0, 1)));
}

#[test]
fn ray_leaves_grid() {
    let w = empty_world(4, 4, 4);
    assert_eq!(w.traverse_step(Coord::new(3, 1, 1), Axis::X, Coord::new(1, 1, 1)), RayStep::Exited);
    assert_eq!(w.traverse_step(Coord::new(1, 0, 1), Axis::Y, Coord::new(1, -1, 1)), RayStep::Exited);
    assert_eq!(w.traverse_step(Coord::new(4, 2, 2), Axis::Z, Coord::new(-1, 1, 1)), RayStep::Exited);
}

#[test]
fn ray_hits_solid_block_with_facing_normal() {
    let mut w = empty_world(4, 4, 4);
    w.set_block(2, 1, 1, 3);
    let from = Coord::new(1, 1, 1);
    match w.traverse_step(from, Axis::X, Coord::new(1, 1, 1)) {
        RayStep::Hit(b, n) => {
            assert_eq!(b, Coord::new(2, 1, 1));
            assert_eq!(n, Coord::new(-1, 0, 0));
            assert_eq!(Coord::new(b.x + n.x, b.y + n.y, b.z + n.z), from);
        }
        other => panic!("{other:?}"),
    }
    let from = Coord::new(2, 1, 2);
    assert_eq!(
        w.traverse_step(from, Axis::Z, Coord::new(1, 1, -1)),
        RayStep::Hit(Coord::new(2, 1, 1), Coord::new(0, 0, 1))
    );
    w.set_block(1, 2, 1, 3);
    assert_eq!(
        w.traverse_step(Coord::new(1, 1, 1), Axis::Y, Coord::new(1, 1, 1)),
        RayStep::Hit(Coord::new(1, 2, 1), Coord::new(0, -1, 0))
    );
}

#[test]
fn ray_start_is_clamped_into_grid() {
    let w = empty_world(4, 5, 6);
    assert_eq!(w.clamp_to_grid(Coord::new(-3, 2, 9)), Coord::new(0, 2, 6));
    assert_eq!(w.clamp_to_grid(Coord::new(4, 5, 6)), Coord::new(4, 5, 6));
    assert_eq!(w.clamp_to_grid(Coord::new(i32::MAX, i32::MIN, 3)), Coord::new(4, 0, 3));
}

#[test]
fn place_puts_selected_block_in_front_of_face() {
    let mut w = empty_world(4, 4, 4);
    w.selected_block = 6;
    w.place_block(Coord::new(2, 1, 1), Coord::new(-1, 0, 0));
    assert_eq!(w.get_block(1, 1, 1), 6);
    assert_eq!(w.get_block(2, 1, 1), 0);
    assert!(w.updated);
}

#[test]
fn place_outside_grid_does_nothing() {
    let mut w = empty_world(4, 4, 4);
    let before = w.blocks.clone();
    w.place_block(Coord::new(0, 1, 1), Coord::new(-1, 0, 0));
    assert_eq!(w.blocks, before);
    assert!(!w.updated);
}

#[test]
fn break_clears_hit_block() {
    let mut w = empty_world(4, 4, 4);
    w.set_block(3, 3, 3, 2);
    w.updated = false;
    w.break_block(Coord::new(3, 3, 3));
    assert_eq!(w.get_block(3, 3, 3), 0);
    assert!(w.updated);
    let before = w.blocks.clone();
    w.break_block(Coord::new(3, 4, 3));
    assert_eq!(w.blocks, before);
}

#[test]
fn place_then_break_restores_air() {
    let mut w = empty_world(4, 4, 4);
    let before = w.blocks.clone();
    w.place_block(Coord::new(1, 1, 1), Coord::new(0, 1, 0));
    w.break_block(Coord::new(1, 2, 1));
    assert_eq!(w.blocks, before);
}

#[test]
fn highest_held_digit_is_selected() {
    let mut w = World::new(0);
    let mut input = Input::new();
    w.select_from_keys(&input);
    assert_eq!(w.selected_block, 1);
    input.handle_key(Key::Digit4, true, false);
    w.select_from_keys(&input);
    assert_eq!(w.selected_block, 4);
    input.handle_key(Key::Digit7, true, false);
    input.handle_key(Key::Digit2, true, false);
    w.select_from_keys(&input);
    assert_eq!(w.selected_block, 7);
    input.handle_key(Key::Digit7, false, false);
    input.handle_key(Key::Digit4, false, false);
    input.handle_key(Key::Digit2, false, false);
    input.handle_key(Key::KeyW, true, false);
    w.select_from_keys(&input);
    assert_eq!(w.selected_block, 7);
}

#[test]
fn ray_leaving_unallocated_world_reads_nothing() {
    let w = World::new(0);
    assert!(w.blocks.is_empty());
    assert_eq!(w.traverse_step(Coord::new(0, 5, 5), Axis::X, Coord::new(-1, 1, 1)), RayStep::Exited);
    assert_eq!(w.traverse_step(Coord::new(256, 5, 5), Axis::X, Coord::new(1, 1, 1)), RayStep::Exited);
}

#[test]
fn walk_through_empty_world_ends_within_bound() {
    let w = empty_world(3, 4, 5);
    let step = Coord::new(1, -1, 1);
    let axes = [Axis::X, Axis::Y, Axis::Z];
    let mut coord = Coord::new(0, 4, 0);
    let mut taken = 0;
    loop {
        let r = w.traverse_step(coord, axes[taken % 3], step);
        taken += 1;
        match r {
            RayStep::Moved(c) => coord = c,
            RayStep::Exited => break,
            RayStep::Hit(..) => panic!("no block to hit"),
        }
        assert!(taken <= 3 + 4 + 5 + 1);
    }
    assert!(taken <= 3 + 4 + 5 + 1);
}
