//! A voxel world: a dense grid of block ids with bounds-checked reads and
//! writes, box fills, terrain generation, ray-step decisions and the key and
//! mouse-button state that drives the game.
pub mod coord;
pub mod grid_math;
pub mod input;
pub mod laws;
pub mod play;
pub mod rng;
pub mod terrain;
pub mod upload;
pub mod world;

pub use coord::{Axis, Coord};
pub use play::RayStep;
pub use input::{CursorChange, Input, Key, MouseButton};
pub use terrain::{
    column_block, DIRT, GRASS, LEAVES, LOG, STONE, TREE_CHANCE_DEN, TREE_CHANCE_NUM,
};
pub use upload::{workgroup_count, VoxelUpload, WORKGROUP_EDGE};
pub use world::{World, WORLD_EDGE};
