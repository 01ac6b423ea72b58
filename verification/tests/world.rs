use voxel_world::{column_block, Coord, World, WORLD_EDGE};

fn small_world(sx: i32, sy: i32, sz: i32) -> World {
    let mut w = World::new(7);
    w.size = Coord::new(sx, sy, sz);
    let heights = vec![-1; (sx * sz) as usize];
    let trees = vec![false; (sx * sz) as usize];
    w.build_terrain(&heights, &trees);
    w.updated = false;
    w
}

#[test]
fn new_world_has_fixed_size_and_no_blocks() {
    let w = World::new(67);
    assert_eq!(w.seed, 67);
    assert_eq!(w.size, Coord::new(WORLD_EDGE, WORLD_EDGE, WORLD_EDGE));
    assert_eq!(WORLD_EDGE, 256);
    assert!(w.blocks.is_empty());
    assert!(!w.updated);
    assert_eq!(w.selected_block, 1);
}

#[test]
fn get_block_outside_grid_is_air() {
    let w = World::new(1);
    assert_eq!(w.get_block(-1, 0, 0), 0);
    assert_eq!(w.get_block(0, 256, 0), 0);
    assert_eq!(w.get_block(0, 0, i32::MAX), 0);
    assert_eq!(w.get_block(i32::MIN, i32::MIN, i32::MIN), 0);
}

#[test]
fn set_then_get_round_trip() {
    let mut w = small_world(3, 4, 5);
    w.set_block(2, 3, 4, 9);
    assert_eq!(w.get_block(2, 3, 4), 9);
    assert_eq!(w.get_block(1, 3, 4), 0);
    assert!(w.updated);
    w.set_block(2, 3, 4, 4);
    assert_eq!(w.get_block(2, 3, 4), 4);
}

#[test]
fn set_outside_grid_is_ignored() {
    let mut w = small_world(3, 4, 5);
    let before = w.blocks.clone();
    w.set_block(3, 0, 0, 9);
    w.set_block(0, -1, 0, 9);
    w.set_block(0, 0, 5, 9);
    assert_eq!(w.blocks, before);
    assert!(!w.updated);
}

#[test]
fn blocks_are_stored_x_then_y_then_z() {
    let mut w = small_world(3, 4, 5);
    w.set_block(1, 0, 0, 11);
    w.set_block(0, 1, 0, 12);
    w.set_block(0, 0, 1, 13);
    w.set_block(2, 3, 4, 14);
    assert_eq!(w.blocks[1], 11);
    assert_eq!(w.blocks[3], 12);
    assert_eq!(w.blocks[12], 13);
    assert_eq!(w.blocks[59], 14);
    assert_eq!(w.blocks.len(), 60);
}

#[test]
fn fill_covers_box_and_skips_outside() {
    let mut w = small_world(4, 4, 4);
    w.fill_blocks(-2, 1, 2, 1, 2, 9, 5);
    for z in 0..4 {
        for y in 0..4 {
            for x in 0..4 {
                let inside = x <= 1 && (1..=2).contains(&y) && z >= 2;
                assert_eq!(w.get_block(x, y, z), if inside { 5 } else { 0 }, "{x} {y} {z}");
            }
        }
    }
    assert!(w.updated);
}

#[test]
fn fill_twice_same_as_once() {
    let mut a = small_world(4, 4, 4);
    let mut b = small_world(4, 4, 4);
    a.fill_blocks(0, 0, 0, 2, 2, 2, 3);
    b.fill_blocks(0, 0, 0, 2, 2, 2, 3);
    b.fill_blocks(0, 0, 0, 2, 2, 2, 3);
    assert_eq!(a.blocks, b.blocks);
}

#[test]
fn fill_last_block_wins() {
    let mut a = small_world(4, 4, 4);
    a.fill_blocks(1, 1, 1, 3, 3, 3, 2);
    a.fill_blocks(1, 1, 1, 3, 3, 3, 8);
    let mut b = small_world(4, 4, 4);
    b.fill_blocks(1, 1, 1, 3, 3, 3, 8);
    assert_eq!(a.blocks, b.blocks);
}

#[test]
fn fill_single_block_is_set() {
    let mut a = small_world(4, 4, 4);
    a.fill_blocks(2, 1, 3, 2, 1, 3, 6);
    let mut b = small_world(4, 4, 4);
    b.set_block(2, 1, 3, 6);
    assert_eq!(a.blocks, b.blocks);
}

#[test]
fn fill_disjoint_boxes_commute() {
    let mut a = small_world(4, 4, 4);
    a.fill_blocks(0, 0, 0, 1, 3, 3, 2);
    a.fill_blocks(2, 0, 0, 3, 3, 3, 7);
    let mut b = small_world(4, 4, 4);
    b.fill_blocks(2, 0, 0, 3, 3, 3, 7);
    b.fill_blocks(0, 0, 0, 1, 3, 3, 2);
    assert_eq!(a.blocks, b.blocks);
}

#[test]
fn fill_missing_grid_changes_nothing() {
    let mut w = small_world(4, 4, 4);
    let before = w.blocks.clone();
    w.fill_blocks(4, 0, 0, 9, 3, 3, 1);
    w.fill_blocks(0, -5, 0, 3, -1, 3, 1);
    w.fill_blocks(3, 3, 3, 0, 0, 0, 1);
    assert_eq!(w.blocks, before);
    assert!(!w.updated);
}

#[test]
fn fill_on_unallocated_world_outside_grid_is_allowed() {
    let mut w = World::new(0);
    w.fill_blocks(-3, -3, -3, -1, -1, -1, 4);
    assert!(w.blocks.is_empty());
    assert!(!w.updated);
}

#[test]
fn column_layers() {
    assert_eq!(column_block(10, 10), 2);
    assert_eq!(column_block(9, 10), 3);
    assert_eq!(column_block(6, 10), 3);
    assert_eq!(column_block(5, 10), 1);
    assert_eq!(column_block(0, 10), 1);
    assert_eq!(column_block(11, 10), 0);
    assert_eq!(column_block(i32::MIN, i32::MIN), 2);
    assert_eq!(column_block(i32::MIN, i32::MAX), 1);
    assert_eq!(column_block(i32::MAX, i32::MIN), 0);
}

#[test]
fn zero_size_world_has_no_positions() {
    let mut w = World::new(1);
    w.size = Coord::new(0, 4, 4);
    w.build_terrain(&vec![], &vec![]);
    assert!(w.blocks.is_empty());
    assert!(!w.updated);
    w.set_block(0, 0, 0, 3);
    w.fill_blocks(-5, -5, -5, 5, 5, 5, 3);
    assert_eq!(w.get_block(0, 0, 0), 0);
    assert!(!w.updated);
}

#[test]
fn flat_world_without_height_has_no_writes() {
    let mut w = World::new(1);
    w.size = Coord::new(2, 0, 2);
    w.build_terrain(&vec![3; 4], &vec![true; 4]);
    assert!(w.blocks.is_empty());
    assert!(!w.updated);
}
