use vstd::prelude::*;
use crate::components::position::clamp;
use crate::game::render::ScreenRect;
use crate::game::render::MAX_RECT_POSITION;
use crate::game::render::MAX_RECT_SIZE;
use crate::game::render::MIN_RECT_POSITION;
use crate::random::random_below;

verus! {

/// One of the four ways a texture can be turned.
#[derive(Clone, Copy, Debug, PartialEq, Eq, Structural)]
pub enum Direction {
    Twelve,
    Three,
    Six,
    Nine,
}

impl Direction {
    /// The clockwise rotation, in degrees.
    pub open spec fn spec_degrees(self) -> int {
        match self {
            Direction::Twelve => 0,
            Direction::Three => 90,
            Direction::Six => 180,
            Direction::Nine => 270,
        }
    }

    /// The direction with the given number: 0, 1 and 2 count clockwise from
    /// `Twelve`, and every other number is `Nine`.
    pub open spec fn spec_from_index(n: int) -> Direction {
        if n == 0 {
            Direction::Twelve
        } else if n == 1 {
            Direction::Three
        } else if n == 2 {
            Direction::Six
        } else {
            Direction::Nine
        }
    }

    pub fn degrees(&self) -> (d: u16)
        ensures
            d == self.spec_degrees(),
    {
        match self {
            Self::Twelve => 0,
            Self::Three => 90,
            Self::Six => 180,
            Self::Nine => 270,
        }
    }

    pub fn from_index(n: u32) -> (d: Self)
        ensures
            d == Self::spec_from_index(n as int),
    {
        match n {
            0 => Self::Twelve,
            1 => Self::Three,
            2 => Self::Six,
            _ => Self::Nine,
        }
    }
}

/// How an entity's texture is turned and scaled when it is drawn.
#[derive(Clone, Copy, Debug, PartialEq, Eq, Structural)]
pub struct TextureTransform {
    pub direction: Direction,
    /// The scale in percent: 100 draws the texture at the size of its tile.
    pub scale: u32,
}

/// The size `size` scaled to `scale` percent, rounded down, as far as the
/// sizes of rectangles go.
pub open spec fn scaled(size: int, scale: int) -> int {
    clamp(size * scale / 100, 1, MAX_RECT_SIZE as int)
}

/// The corner of a rectangle of the size `size` around the middle of one
/// that lies at `at` and has the size `old_size`, as far as the positions of
/// rectangles go.
pub open spec fn recentred(at: int, old_size: int, size: int) -> int {
    clamp(
        clamp(at + old_size / 2, MIN_RECT_POSITION as int, MAX_RECT_POSITION as int) - size / 2,
        MIN_RECT_POSITION as int,
        MAX_RECT_POSITION as int,
    )
}

fn scale_size(size: u32, scale: u32) -> (r: u32)
    ensures
        r == scaled(size as int, scale as int),
{
    assert(0 <= size * scale <= 0xffff_ffff * 0xffff_ffff) by (nonlinear_arith)
        requires
            0 <= size <= 0xffff_ffff,
            0 <= scale <= 0xffff_ffff,
    ;
    let product: u64 = size as u64 * scale as u64;
    let v = product / 100;
    if v < 1 {
        1
    } else if v > MAX_RECT_SIZE as u64 {
        MAX_RECT_SIZE
    } else {
        v as u32
    }
}

fn recentre(at: i32, old_size: u32, size: u32) -> (r: i32)
    requires
        1 <= size <= MAX_RECT_SIZE,
    ensures
        r == recentred(at as int, old_size as int, size as int),
{
    let middle: i64 = at as i64 + (old_size / 2) as i64;
    let middle: i64 = if middle > MAX_RECT_POSITION as i64 {
        MAX_RECT_POSITION as i64
    } else if middle < MIN_RECT_POSITION as i64 {
        MIN_RECT_POSITION as i64
    } else {
        middle
    };
    let corner: i64 = middle - (size / 2) as i64;
    if corner > MAX_RECT_POSITION as i64 {
        MAX_RECT_POSITION
    } else if corner < MIN_RECT_POSITION as i64 {
        MIN_RECT_POSITION
    } else {
        corner as i32
    }
}

impl TextureTransform {
    /// The rectangle in which a texture is drawn for an entity that takes
    /// up the rectangle `rect`: scaled, around the same middle.
    pub open spec fn spec_frame(&self, rect: ScreenRect) -> ScreenRect {
        let width = scaled(rect.width as int, self.scale as int);
        let height = scaled(rect.height as int, self.scale as int);
        ScreenRect {
            x: recentred(rect.x as int, rect.width as int, width) as i32,
            y: recentred(rect.y as int, rect.height as int, height) as i32,
            width: width as u32,
            height: height as u32,
        }
    }

    pub fn frame(&self, rect: ScreenRect) -> (r: ScreenRect)
        ensures
            r == self.spec_frame(rect),
    {
        let width = scale_size(rect.width, self.scale);
        let height = scale_size(rect.height, self.scale);
        ScreenRect {
            x: recentre(rect.x, rect.width, width),
            y: recentre(rect.y, rect.height, height),
            width,
            height,
        }
    }

    pub fn new() -> (t: Self)
        ensures
            t == (TextureTransform { direction: Direction::Twelve, scale: 100 }),
    {
        Self { direction: Direction::Twelve, scale: 100 }
    }

    /// Turns the texture in a direction drawn at random; the scale stays.
    pub fn random_direction(self) -> (t: Self)
        ensures
            t.scale == self.scale,
    {
        let n = random_below(4);
        Self { direction: Direction::from_index(n), scale: self.scale }
    }

    pub fn scale(self, value: u32) -> (t: Self)
        ensures
            t == (TextureTransform { direction: self.direction, scale: value }),
    {
        Self { direction: self.direction, scale: value }
    }
}

} // verus!
