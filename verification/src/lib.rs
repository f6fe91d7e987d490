//! Verified game logic of a first-person voxel-terrain walkthrough: chunk bookkeeping,
//! voxel indexing, input latching, pointer-lock and terrain-deformation decisions.

pub mod chunk_pos;
pub mod chunk_map;
pub mod chunk_manager;
pub mod voxel;
pub mod cursor;
pub mod player;
pub mod deform;
