use vstd::prelude::*;
use crate::types::PosType;
use crate::types::ChunkPosType;
use crate::constants::CHUNK_SIZE;
use crate::constants::TILE_UNITS;
use crate::constants::CHUNK_UNITS;

verus! {

/// Identifies one chunk: a square of `CHUNK_SIZE` by `CHUNK_SIZE` tiles.
#[derive(Clone, Copy, Debug, PartialEq, Eq, Structural)]
pub struct ChunkPos {
    pub x: ChunkPosType,
    pub y: ChunkPosType,
}

/// Where an entity is: anywhere in the world, or anchored to one tile.
#[derive(Clone, Copy, Debug, PartialEq, Eq, Structural)]
pub enum Position {
    /// A free position, in coordinate units.
    Free { x: PosType, y: PosType, top: bool },
    /// The tile in column `col` and row `row` of `chunk`.
    Tile { chunk: ChunkPos, col: u8, row: u8, top: bool },
}

/// `v` limited to the range from `lo` to `hi`.
pub open spec fn clamp(v: int, lo: int, hi: int) -> int {
    if v < lo {
        lo
    } else if v > hi {
        hi
    } else {
        v
    }
}

/// The chunk coordinate that holds the coordinate `v`: `v` divided by the
/// side of a chunk and rounded down, limited to the range of chunk
/// coordinates.
pub open spec fn chunk_of_coord(v: int) -> int {
    clamp(v / (CHUNK_UNITS as int), i32::MIN as int, i32::MAX as int)
}

/// The coordinate of the tile `local` in the chunk with coordinate `chunk`.
pub open spec fn tile_coord(chunk: int, local: int) -> int {
    (chunk * (CHUNK_SIZE as int) + local) * (TILE_UNITS as int)
}

/// `v` moved by `amount`, limited to the range of coordinates.
pub open spec fn moved(v: int, amount: int) -> int {
    clamp(v + amount, i64::MIN as int, i64::MAX as int)
}

fn add_saturating(v: PosType, amount: PosType) -> (r: PosType)
    ensures
        r == moved(v as int, amount as int),
{
    match v.checked_add(amount) {
        Some(sum) => sum,
        None => if amount < 0 {
            i64::MIN
        } else {
            i64::MAX
        },
    }
}

fn tile_units(chunk: ChunkPosType, local: u8) -> (r: PosType)
    ensures
        r == tile_coord(chunk as int, local as int),
{
    let side: i64 = CHUNK_SIZE as i64;
    assert(-0x8_0000_0000 <= chunk * side <= 0x8_0000_0000) by (nonlinear_arith)
        requires
            side == 16,
            -0x8000_0000 <= chunk <= 0x7fff_ffff,
    ;
    (chunk as i64 * side + local as i64) * TILE_UNITS
}

fn chunk_coord(v: PosType) -> (r: ChunkPosType)
    ensures
        r == chunk_of_coord(v as int),
{
    let q: i64 = match v.checked_div_euclid(CHUNK_UNITS) {
        Some(q) => q,
        None => 0,
    };
    if q < -2147483648 {
        -2147483648
    } else if q > 2147483647 {
        2147483647
    } else {
        q as i32
    }
}

impl Position {
    /// Whether this is a free position.
    pub open spec fn spec_is_free(self) -> bool {
        self is Free
    }

    /// The layering flag.
    pub open spec fn spec_top(self) -> bool {
        match self {
            Position::Free { top, .. } => top,
            Position::Tile { top, .. } => top,
        }
    }

    /// The absolute horizontal coordinate.
    pub open spec fn spec_x(self) -> int {
        match self {
            Position::Free { x, .. } => x as int,
            Position::Tile { chunk, col, .. } => tile_coord(chunk.x as int, col as int),
        }
    }

    /// The absolute vertical coordinate.
    pub open spec fn spec_y(self) -> int {
        match self {
            Position::Free { y, .. } => y as int,
            Position::Tile { chunk, row, .. } => tile_coord(chunk.y as int, row as int),
        }
    }

    /// The chunk that contains the position.
    pub open spec fn spec_chunk(self) -> ChunkPos {
        match self {
            Position::Free { x, y, .. } => ChunkPos {
                x: chunk_of_coord(x as int) as i32,
                y: chunk_of_coord(y as int) as i32,
            },
            Position::Tile { chunk, .. } => chunk,
        }
    }

    /// The layer of the position: 0 for a tile, 1 for a free position, 3 for
    /// a tile on top, 4 for a free position on top.
    pub open spec fn spec_order(self) -> int {
        if self.spec_is_free() {
            if self.spec_top() { 4 } else { 1 }
        } else {
            if self.spec_top() { 3 } else { 0 }
        }
    }

    /// The same position with the layering flag set.
    pub open spec fn with_top(self) -> Position {
        match self {
            Position::Free { x, y, .. } => Position::Free { x, y, top: true },
            Position::Tile { chunk, col, row, .. } => Position::Tile { chunk, col, row, top: true },
        }
    }

    /// The position after a horizontal move by `amount`: a free position
    /// moves, as far as the range of coordinates goes, and a tile position
    /// stays.
    pub open spec fn spec_move_x(self, amount: int) -> Position {
        match self {
            Position::Free { x, y, top } => Position::Free { x: moved(x as int, amount) as i64, y, top },
            Position::Tile { .. } => self,
        }
    }

    /// The position after a vertical move by `amount`.
    pub open spec fn spec_move_y(self, amount: int) -> Position {
        match self {
            Position::Free { x, y, top } => Position::Free { x, y: moved(y as int, amount) as i64, top },
            Position::Tile { .. } => self,
        }
    }

    /// A tile position lies inside its chunk.
    pub open spec fn wf(self) -> bool {
        match self {
            Position::Free { .. } => true,
            Position::Tile { col, row, .. } => col < CHUNK_SIZE && row < CHUNK_SIZE,
        }
    }

    pub fn free(x: PosType, y: PosType) -> (p: Self)
        ensures
            p == (Position::Free { x, y, top: false }),
    {
        Self::Free { x, y, top: false }
    }

    pub fn tile(chunk: ChunkPos, col: u8, row: u8) -> (p: Self)
        ensures
            p == (Position::Tile { chunk, col, row, top: false }),
    {
        Self::Tile { chunk, col, row, top: false }
    }

    /// Sets the layering flag.
    pub fn top(&mut self) -> (r: &mut Self)
        ensures
            *r == old(self).with_top(),
            *final(self) == *final(r),
    {
        match self {
            Self::Free { top, .. } => {
                *top = true;
            },
            Self::Tile { top, .. } => {
                *top = true;
            },
        };
        self
    }

    /// Moves a free position horizontally; a tile position stays.
    pub fn move_x(&mut self, amount: PosType)
        ensures
            *final(self) == old(self).spec_move_x(amount as int),
    {
        match self {
            Self::Free { x, .. } => {
                *x = add_saturating(*x, amount);
            },
            Self::Tile { .. } => {},
        }
    }

    /// Moves a free position vertically; a tile position stays.
    pub fn move_y(&mut self, amount: PosType)
        ensures
            *final(self) == old(self).spec_move_y(amount as int),
    {
        match self {
            Self::Free { y, .. } => {
                *y = add_saturating(*y, amount);
            },
            Self::Tile { .. } => {},
        }
    }

    pub fn x(&self) -> (r: PosType)
        ensures
            r == self.spec_x(),
    {
        match self {
            Self::Free { x, .. } => *x,
            Self::Tile { chunk, col, .. } => tile_units(chunk.x, *col),
        }
    }

    pub fn y(&self) -> (r: PosType)
        ensures
            r == self.spec_y(),
    {
        match self {
            Self::Free { y, .. } => *y,
            Self::Tile { chunk, row, .. } => tile_units(chunk.y, *row),
        }
    }

    pub fn chunk(&self) -> (c: ChunkPos)
        ensures
            c == self.spec_chunk(),
    {
        match self {
            Self::Free { x, y, .. } => ChunkPos::new(chunk_coord(*x), chunk_coord(*y)),
            Self::Tile { chunk, .. } => *chunk,
        }
    }

    pub fn order(&self) -> (r: usize)
        ensures
            r == self.spec_order(),
    {
        let top = match self {
            Self::Free { top, .. } => *top,
            Self::Tile { top, .. } => *top,
        };
        if self.is_free() {
            if top { 4 } else { 1 }
        } else {
            if top { 3 } else { 0 }
        }
    }

    pub fn is_free(&self) -> (r: bool)
        ensures
            r == self.spec_is_free(),
    {
        match self {
            Self::Free { .. } => true,
            _ => false,
        }
    }

    pub fn is_tile(&self) -> (r: bool)
        ensures
            r == !self.spec_is_free(),
    {
        match self {
            Self::Tile { .. } => true,
            _ => false,
        }
    }
}

/// A tile position has the coordinates of its cell, counted from the
/// corner of its chunk, and these lie in that chunk.
pub proof fn lemma_tile_coordinates(chunk: ChunkPos, col: u8, row: u8)
    requires
        col < CHUNK_SIZE,
        row < CHUNK_SIZE,
    ensures
        ({
            let p = Position::Tile { chunk, col, row, top: false };
            &&& p.wf()
            &&& p.spec_x() == (chunk.x * CHUNK_SIZE + col) * TILE_UNITS
            &&& p.spec_y() == (chunk.y * CHUNK_SIZE + row) * TILE_UNITS
            &&& p.spec_chunk() == chunk
            &&& chunk_of_coord(p.spec_x()) == chunk.x
            &&& chunk_of_coord(p.spec_y()) == chunk.y
        }),
{
    lemma_cell_in_chunk(chunk.x as int, col as int);
    lemma_cell_in_chunk(chunk.y as int, row as int);
}

/// The coordinate of a cell of a chunk, divided by the side of a chunk and
/// rounded down, is the coordinate of the chunk.
proof fn lemma_cell_in_chunk(chunk: int, local: int)
    requires
        0 <= local < 16,
        i32::MIN <= chunk <= i32::MAX,
    ensures
        chunk_of_coord(tile_coord(chunk, local)) == chunk,
{
    let v = tile_coord(chunk, local);
    assert(v == 16000 * chunk + 1000 * local);
    assert(v / 16000 == chunk) by (nonlinear_arith)
        requires
            v == 16000 * chunk + 1000 * local,
            0 <= local < 16,
    ;
}

/// No move changes the coordinates of a tile position.
pub proof fn lemma_tiles_stay(p: Position, amount: int)
    requires
        p is Tile,
    ensures
        p.spec_move_x(amount) == p,
        p.spec_move_y(amount) == p,
        p.spec_move_x(amount).spec_x() == p.spec_x(),
        p.spec_move_x(amount).spec_y() == p.spec_y(),
        p.spec_move_y(amount).spec_x() == p.spec_x(),
        p.spec_move_y(amount).spec_y() == p.spec_y(),
{
}

/// The chunk of a free position is the one whose square holds the
/// position: each coordinate, divided by the side of a chunk and rounded
/// down. Beyond the range of chunk coordinates it is the nearest chunk.
pub proof fn lemma_chunk_of_free(x: PosType, y: PosType, top: bool)
    ensures
        ({
            let c = (Position::Free { x, y, top }).spec_chunk();
            &&& c.x == clamp(x as int / (CHUNK_UNITS as int), i32::MIN as int, i32::MAX as int)
            &&& c.y == clamp(y as int / (CHUNK_UNITS as int), i32::MIN as int, i32::MAX as int)
            &&& i32::MIN < c.x < i32::MAX ==> c.x * CHUNK_UNITS <= x < (c.x + 1) * CHUNK_UNITS
            &&& i32::MIN < c.y < i32::MAX ==> c.y * CHUNK_UNITS <= y < (c.y + 1) * CHUNK_UNITS
            &&& c.x == i32::MIN ==> x < (i32::MIN + 1) * CHUNK_UNITS
            &&& c.x == i32::MAX ==> x >= i32::MAX * CHUNK_UNITS
            &&& c.y == i32::MIN ==> y < (i32::MIN + 1) * CHUNK_UNITS
            &&& c.y == i32::MAX ==> y >= i32::MAX * CHUNK_UNITS
        }),
{
    lemma_floor(x as int);
    lemma_floor(y as int);
}

/// A coordinate lies between its quotient by the side of a chunk, times
/// that side, and the same with the next quotient.
proof fn lemma_floor(v: int)
    ensures
        (v / 16000) * 16000 <= v < (v / 16000 + 1) * 16000,
{
    assert((v / 16000) * 16000 <= v < (v / 16000 + 1) * 16000) by (nonlinear_arith);
}

impl ChunkPos {
    pub fn new(x: ChunkPosType, y: ChunkPosType) -> (c: Self)
        ensures
            c == (ChunkPos { x, y }),
    {
        Self { x, y }
    }
}

} // verus!
