use voxel_world::{column_block, Coord, World, DIRT, GRASS, LEAVES, LOG, STONE};

fn sized(sx: i32, sy: i32, sz: i32, seed: u32) -> World {
    let mut w = World::new(seed);
    w.size = Coord::new(sx, sy, sz);
    w
}

#[test]
fn terrain_without_trees_is_layered() {
    let mut w = sized(3, 12, 2, 0);
    let heights = vec![5, 0, -3, 11, 8, 20];
    let trees = vec![false; 6];
    w.build_terrain(&heights, &trees);
    assert_eq!(w.blocks.len(), 72);
    for z in 0..2 {
        for x in 0..3 {
            let h = heights[(z * 3 + x) as usize];
            for y in 0..12 {
                assert_eq!(w.get_block(x, y, z), column_block(y, h));
            }
        }
    }
    assert_eq!(w.get_block(0, 5, 0), GRASS);
    assert_eq!(w.get_block(0, 4, 0), DIRT);
    assert_eq!(w.get_block(0, 1, 0), DIRT);
    assert_eq!(w.get_block(0, 0, 0), STONE);
    assert_eq!(w.get_block(0, 6, 0), 0);
    assert!(w.updated);
}

#[test]
fn terrain_entirely_below_grid_is_air_and_not_updated() {
    let mut w = sized(2, 4, 2, 0);
    w.build_terrain(&vec![-1; 4], &vec![false; 4]);
    assert!(w.blocks.iter().all(|b| *b == 0));
    assert!(!w.updated);
}

#[test]
fn tree_shape() {
    let mut w = sized(5, 12, 5, 0);
    let heights = vec![0; 25];
    let mut trees = vec![false; 25];
    trees[2 * 5 + 2] = true;
    w.build_terrain(&heights, &trees);
    for y in 1..=3 {
        assert_eq!(w.get_block(2, y, 2), LOG);
    }
    for y in 4..=5 {
        for z in 0..5 {
            for x in 0..5 {
                assert_eq!(w.get_block(x, y, z), LEAVES);
            }
        }
    }
    for z in 0..5 {
        for x in 0..5 {
            let layer = (1..=3).contains(&x) && (1..=3).contains(&z);
            assert_eq!(w.get_block(x, 6, z), if layer { LEAVES } else { 0 });
            let plus = (x == 2 && (1..=3).contains(&z)) || (z == 2 && (1..=3).contains(&x));
            assert_eq!(w.get_block(x, 7, z), if plus { LEAVES } else { 0 });
            assert_eq!(w.get_block(x, 8, z), 0);
            assert_eq!(w.get_block(x, 0, z), GRASS);
        }
    }
}

#[test]
fn later_ground_covers_earlier_leaves() {
    let mut w = sized(3, 12, 1, 0);
    let heights = vec![0, 10, 0];
    let trees = vec![true, false, false];
    w.build_terrain(&heights, &trees);
    // the tree of column 0 put leaves at (1, 4) and (2, 4); column 1's ground
    // came later and covered them, column 2's air did not
    assert_eq!(w.get_block(1, 4, 0), STONE);
    assert_eq!(w.get_block(1, 10, 0), GRASS);
    assert_eq!(w.get_block(2, 4, 0), LEAVES);
    assert_eq!(w.get_block(0, 2, 0), LOG);
}

#[test]
fn later_tree_covers_earlier_ground() {
    let mut w = sized(3, 12, 1, 0);
    let heights = vec![9, 0, 0];
    let trees = vec![false, true, false];
    w.build_terrain(&heights, &trees);
    // column 1's leaves at y = 4 and 5 replace column 0's stone and dirt there
    assert_eq!(w.get_block(0, 4, 0), LEAVES);
    assert_eq!(w.get_block(0, 5, 0), LEAVES);
    assert_eq!(w.get_block(0, 6, 0), LEAVES);
    assert_eq!(w.get_block(0, 9, 0), GRASS);
    assert_eq!(w.get_block(0, 3, 0), STONE);
}

#[test]
fn generate_lays_ground_whatever_the_trees() {
    let mut w = sized(16, 24, 16, 67);
    let heights = vec![6; 256];
    w.generate(&heights);
    assert!(w.updated);
    for z in 0..16 {
        for x in 0..16 {
            assert_eq!(w.get_block(x, 6, z), GRASS);
            for y in 2..6 {
                assert_eq!(w.get_block(x, y, z), DIRT);
            }
            for y in 0..2 {
                assert_eq!(w.get_block(x, y, z), STONE);
            }
            for y in 14..24 {
                assert_eq!(w.get_block(x, y, z), 0);
            }
        }
    }
}

#[test]
fn generate_is_fixed_by_the_seed() {
    let heights: Vec<i32> = (0..(64 * 64)).map(|i| (i % 7) as i32 + 3).collect();
    let mut a = sized(64, 32, 64, 5);
    let mut b = sized(64, 32, 64, 5);
    a.generate(&heights);
    b.generate(&heights);
    assert_eq!(a.blocks, b.blocks);
}

#[test]
fn generate_full_world() {
    let mut w = World::new(67);
    let heights = vec![127; 256 * 256];
    w.generate(&heights);
    assert_eq!(w.blocks.len(), 256 * 256 * 256);
    assert_eq!(w.get_block(100, 127, 100), GRASS);
    assert_eq!(w.get_block(100, 126, 100), DIRT);
    assert_eq!(w.get_block(100, 0, 100), STONE);
    assert_eq!(w.get_block(100, 200, 100), 0);
    let trunks = (0..256)
        .flat_map(|z| (0..256).map(move |x| (x, z)))
        .filter(|(x, z)| w.get_block(*x, 128, *z) == LOG)
        .count();
    // one column in a hundred carries a tree, on average
    assert!(trunks > 300 && trunks < 1000, "{trunks}");
}

#[test]
fn rebuild_leaves_no_trace_of_earlier_blocks() {
    let heights = vec![2, 4, 1, 3, 0, 2];
    let trees = vec![false, true, false, false, false, true];
    let mut a = sized(3, 16, 2, 1);
    a.build_terrain(&heights, &trees);
    a.set_block(0, 12, 0, 9);
    a.break_block(Coord::new(1, 4, 0));
    a.build_terrain(&heights, &trees);
    let mut b = sized(3, 16, 2, 99);
    b.build_terrain(&heights, &trees);
    assert_eq!(a.blocks, b.blocks);
}
