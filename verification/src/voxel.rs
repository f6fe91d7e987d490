//! Voxel addressing inside a terrain chunk.

use vstd::prelude::*;

verus! {

/// Edge length of a terrain chunk, in voxels.
pub const CHUNK_SIZE: usize = 32;

/// Number of voxels in a chunk (`CHUNK_SIZE` cubed).
pub const CHUNK_VOL: usize = 32768;

/// Flattened index of voxel `(ix, iy, iz)` inside a chunk: x varies fastest, then y, then z.
pub open spec fn spec_voxel_index(ix: int, iy: int, iz: int) -> int {
    ix + iy * 32 + iz * 1024
}

/// Whether `(ix, iy, iz)` addresses a voxel of a chunk.
pub open spec fn in_chunk(ix: int, iy: int, iz: int) -> bool {
    &&& 0 <= ix < 32
    &&& 0 <= iy < 32
    &&& 0 <= iz < 32
}

/// Index of voxel `(ix, iy, iz)` in a chunk's density array. The flattened index must address
/// the array (it does for every voxel of the chunk).
pub fn voxel_index(ix: usize, iy: usize, iz: usize) -> (idx: usize)
    requires
        spec_voxel_index(ix as int, iy as int, iz as int) < CHUNK_VOL,
    ensures
        idx == spec_voxel_index(ix as int, iy as int, iz as int),
        idx == ix + 32 * iy + 1024 * iz,
{
    ix + iy * CHUNK_SIZE + iz * CHUNK_SIZE * CHUNK_SIZE
}

/// Whether the flattened index of `(ix, iy, iz)` addresses a chunk's density array.
pub fn addresses_voxel(ix: usize, iy: usize, iz: usize) -> (b: bool)
    ensures
        b == (spec_voxel_index(ix as int, iy as int, iz as int) < CHUNK_VOL),
{
    ix < CHUNK_VOL && iy < 1024 && iz < 32 && ix + iy * CHUNK_SIZE + iz * CHUNK_SIZE * CHUNK_SIZE < CHUNK_VOL
}

/// Index of the voxel `(ix, iy, iz)` given in signed coordinates, or `None` when the
/// coordinates lie outside the chunk (where the terrain reads as air).
pub fn voxel_index_in_chunk(ix: i32, iy: i32, iz: i32) -> (idx: Option<usize>)
    ensures
        match idx {
            Some(i) => in_chunk(ix as int, iy as int, iz as int)
                && i == spec_voxel_index(ix as int, iy as int, iz as int),
            None => !in_chunk(ix as int, iy as int, iz as int),
        },
        (0 <= ix < 32 && 0 <= iy < 32 && 0 <= iz < 32) <==> idx is Some,
        idx matches Some(i) ==> i == ix + 32 * iy + 1024 * iz,
{
    let s: i32 = 32;
    if ix < 0 || iy < 0 || iz < 0 || ix >= s || iy >= s || iz >= s {
        return None;
    }
    Some(voxel_index(ix as usize, iy as usize, iz as usize))
}

/// Whether the world voxel coordinate of voxel `i` of chunk coordinate `chunk` is an `i32`.
pub open spec fn world_coord_fits(chunk: int, i: int) -> bool {
    i32::MIN <= chunk * 32 + i <= i32::MAX
}

/// World voxel coordinate, on one axis, of voxel `i` of the chunk at coordinate `chunk`, or
/// `None` when it does not fit in an `i32`.
pub fn voxel_world_coord(chunk: i32, i: usize) -> (w: Option<i32>)
    requires
        i < 32,
    ensures
        match w {
            Some(c) => world_coord_fits(chunk as int, i as int) && c == chunk * 32 + i,
            None => !world_coord_fits(chunk as int, i as int),
        },
        w is Some <==> (i32::MIN <= chunk * 32 + i <= i32::MAX),
{
    let c = chunk as i64 * 32 + i as i64;
    if c < i32::MIN as i64 || c > i32::MAX as i64 {
        None
    } else {
        Some(c as i32)
    }
}

/// Distinct voxels of a chunk have distinct indices, and every index addresses the array.
pub proof fn lemma_voxel_index_injective(ix: int, iy: int, iz: int, jx: int, jy: int, jz: int)
    requires
        in_chunk(ix, iy, iz),
        in_chunk(jx, jy, jz),
        spec_voxel_index(ix, iy, iz) == spec_voxel_index(jx, jy, jz),
    ensures
        ix == jx,
        iy == jy,
        iz == jz,
        0 <= spec_voxel_index(ix, iy, iz) < 32768,
{
}


/// Every voxel of the chunk, faces and corners included, lies in the chunk, and nothing outside
/// the 32-cube does; stepping one voxel along x, y or z moves the index by 1, 32 or 1024, from 0
/// at the origin voxel.
pub proof fn lemma_chunk_voxels(ix: int, iy: int, iz: int)
    ensures
        (0 <= ix < 32 && 0 <= iy < 32 && 0 <= iz < 32) <==> in_chunk(ix, iy, iz),
        spec_voxel_index(0, 0, 0) == 0,
        spec_voxel_index(ix + 1, iy, iz) == spec_voxel_index(ix, iy, iz) + 1,
        spec_voxel_index(ix, iy + 1, iz) == spec_voxel_index(ix, iy, iz) + 32,
        spec_voxel_index(ix, iy, iz + 1) == spec_voxel_index(ix, iy, iz) + 1024,
        in_chunk(ix, iy, iz) ==> 0 <= spec_voxel_index(ix, iy, iz) < 32768,
{
}

/// The world coordinate of voxel `i` of chunk `chunk` fits exactly when `32 * chunk + i` is an `i32`.
pub proof fn lemma_world_coord_fits(chunk: int, i: int)
    ensures
        world_coord_fits(chunk, i) <==> (i32::MIN <= 32 * chunk + i && 32 * chunk + i <= i32::MAX),
{
}

} // verus!
