# voxel_world

A small voxel sandbox: a 256³ grid of block ids with generated terrain and
trees, a camera that walks and flies through it, and a ray that picks the
block under the cross-hair for placing or breaking. The picture is drawn by
a compute shader that walks the same grid.

- `src/` is the verified library: the block grid and its reads, writes and
  box fills (`world.rs`), terrain and trees (`terrain.rs`), the per-cell step
  of a ray, block selection, placing and breaking (`play.rs`), held keys and
  buttons (`input.rs`), the bytes and layout handed to the GPU (`upload.rs`),
  index arithmetic (`grid_math.rs`), the random generator behind trees
  (`rng.rs`) and properties that span several operations (`laws.rs`).
- `app/` is the program around it: window and events, the GPU pipeline, the
  camera, the noise that shapes the terrain, and the floating-point part of
  the ray walk. It reads `src/shader.wgsl` and `assets/textures.png` at start.
- `tests/` exercises the library on concrete worlds.
