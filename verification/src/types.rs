use vstd::prelude::*;

verus! {

/// A coordinate in fixed point: `TILE_UNITS` units are one tile.
pub type PosType = i64;

pub type SizeType = u16;

/// A chunk coordinate, counted in whole chunks.
pub type ChunkPosType = i32;

/// Dense index of an object type in the registry.
pub type GameObjectTypeId = u8;

/// Index of an update behaviour in the registry's deduplicated table.
pub type UpdateFnIdType = GameObjectTypeId;

} // verus!
