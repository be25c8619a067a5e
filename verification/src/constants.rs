use vstd::prelude::*;

verus! {

/// Frames per second the frame loop aims for.
pub const FPS: u64 = 60;

/// Whether the window may be resized.
pub const RESIZABLE: bool = true;

/// Number of tiles along one side of a chunk.
pub const CHUNK_SIZE: usize = 16;

/// Number of chunks along one side of the square neighbourhood that is kept
/// loaded around the reference entity.
pub const RENDER_DISTANCE: usize = 3;

/// Number of coordinate units that make up one tile.
pub const TILE_UNITS: i64 = 1000;

/// Number of coordinate units along one side of a chunk.
pub const CHUNK_UNITS: i64 = 16000;

/// The side of a chunk, in coordinate units, is that of its tiles.
pub proof fn lemma_chunk_units()
    ensures
        CHUNK_UNITS == CHUNK_SIZE * TILE_UNITS,
{
}

} // verus!
