use voxel_world::{workgroup_count, Coord, World};

#[test]
fn workgroups_cover_the_screen() {
    assert_eq!(workgroup_count(0), 0);
    assert_eq!(workgroup_count(1), 1);
    assert_eq!(workgroup_count(16), 1);
    assert_eq!(workgroup_count(17), 2);
    assert_eq!(workgroup_count(1920), 120);
    assert_eq!(workgroup_count(1080), 68);
    assert_eq!(workgroup_count(u32::MAX - 15), 268435455);
}

#[test]
fn voxel_upload_layout_and_bytes() {
    let mut w = World::new(0);
    w.size = Coord::new(3, 2, 2);
    w.build_terrain(&vec![-1; 6], &vec![false; 6]);
    w.set_block(1, 0, 0, 0x0102_0304);
    w.set_block(2, 1, 1, 5);
    let u = w.voxel_upload();
    assert_eq!(u.bytes.len(), 48);
    assert_eq!(u.bytes_per_row, 12);
    assert_eq!(u.rows_per_image, 2);
    assert_eq!((u.width, u.height, u.depth), (3, 2, 2));
    let word = &u.bytes[4..8];
    assert!(word == [4, 3, 2, 1] || word == [1, 2, 3, 4]);
    assert_eq!(u32::from_ne_bytes([u.bytes[44], u.bytes[45], u.bytes[46], u.bytes[47]]), 5);
    assert!(u.bytes[..4].iter().all(|b| *b == 0));
}

#[test]
fn default_world_upload_shape() {
    let w = World::new(67);
    let u = w.voxel_upload();
    assert_eq!(u.bytes_per_row, 1024);
    assert_eq!(u.rows_per_image, 256);
    assert_eq!((u.width, u.height, u.depth), (256, 256, 256));
    assert!(u.bytes.is_empty());
}
