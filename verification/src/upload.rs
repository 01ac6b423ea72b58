//! What the renderer hands the GPU: the blocks as bytes with their layout,
//! and how many 16x16 workgroups cover the screen.
use vstd::prelude::*;
use crate::world::World;

verus! {

/// Side of the square workgroup the compute shader runs in, in pixels.
pub const WORKGROUP_EDGE: u32 = 16;

/// `256` to the power `j`, for `j` in `0..4`.
pub open spec fn byte_weight(j: int) -> int {
    if j == 0 {
        1
    } else if j == 1 {
        256
    } else if j == 2 {
        65536
    } else {
        16777216
    }
}

/// Byte `j` of `w`, counting from the least significant.
pub open spec fn byte_of(w: u32, j: int) -> u8 {
    ((w as int / byte_weight(j)) % 256) as u8
}

/// The words as bytes, least significant byte of each word first.
pub open spec fn le_bytes(words: Seq<u32>) -> Seq<u8> {
    Seq::new((4 * words.len()) as nat, |i: int| byte_of(words[i / 4], i % 4))
}

/// The words as bytes, most significant byte of each word first.
pub open spec fn be_bytes(words: Seq<u32>) -> Seq<u8> {
    Seq::new((4 * words.len()) as nat, |i: int| byte_of(words[i / 4], 3 - i % 4))
}

/// `bytemuck::cast_slice` from `u32` to `u8`: the same memory seen as
/// bytes, four per word in the machine's byte order. Its source never fails
/// for this pair of types (a `u8` needs no alignment and a `u32` is four
/// bytes). Which of the two byte orders comes out depends on the machine and
/// is not stated.
#[verifier::external_body]
fn cast_blocks(blocks: &Vec<u32>) -> (bytes: &[u8])
    ensures
        bytes@ == le_bytes(blocks@) || bytes@ == be_bytes(blocks@),
{
    bytemuck::cast_slice(blocks.as_slice())
}

/// The blocks as raw texel bytes with the shape of the 3D texture that holds
/// them.
pub struct VoxelUpload<'a> {
    pub bytes: &'a [u8],
    pub bytes_per_row: u32,
    pub rows_per_image: u32,
    pub width: u32,
    pub height: u32,
    pub depth: u32,
}

impl World {
    /// The blocks as bytes in the machine's order, four per block, laid out
    /// as a texture `size.x` by `size.y` by `size.z` texels with one row of
    /// `4 * size.x` bytes per `(y, z)`.
    pub fn voxel_upload(&self) -> (u: VoxelUpload<'_>)
        requires
            self.wf(),
            4 * self.size.x <= u32::MAX,
        ensures
            u.bytes@ == le_bytes(self.blocks@) || u.bytes@ == be_bytes(self.blocks@),
            u.bytes_per_row == 4 * self.size.x,
            u.rows_per_image == self.size.y,
            u.width == self.size.x,
            u.height == self.size.y,
            u.depth == self.size.z,
    {
        VoxelUpload {
            bytes: cast_blocks(&self.blocks),
            bytes_per_row: self.size.x as u32 * 4,
            rows_per_image: self.size.y as u32,
            width: self.size.x as u32,
            height: self.size.y as u32,
            depth: self.size.z as u32,
        }
    }
}

/// The number of 16-pixel workgroups that cover `pixels` pixels: the least
/// count whose groups reach past the last pixel.
pub fn workgroup_count(pixels: u32) -> (n: u32)
    requires
        pixels + 15 <= u32::MAX,
    ensures
        n == (pixels + 15) / 16,
        n * 16 >= pixels,
        n * 16 < pixels + 16,
{
    (pixels + (WORKGROUP_EDGE - 1)) / WORKGROUP_EDGE
}

} // verus!
