use vstd::prelude::*;
use crate::game::render::ScreenRect;
use crate::game::render::truncated;
use crate::utils::KeyedSlice;

verus! {

type PosType = i16;

type SizeType = PosType;

type MarginType = SizeType;

type Point = (PosType, PosType);

/// The corner, or the centre, of a rectangle from which a position in it is
/// measured.
#[derive(PartialEq, Eq, Structural, Clone, Copy, Debug)]
pub enum Positioning {
    TopLeft,
    TopRight,
    BottomLeft,
    BottomRight,
    Center,
}

/// One of the two directions in which elements are laid out.
#[derive(PartialEq, Eq, Structural, Clone, Copy, Debug)]
pub enum Orientation {
    Horizontal,
    Vertical,
}

/// The space that is left free on each side of an element.
#[derive(PartialEq, Eq, Structural, Clone, Copy, Debug)]
pub struct Margin {
    pub top: MarginType,
    pub bottom: MarginType,
    pub left: MarginType,
    pub right: MarginType,
}

/// A rectangle of the interface, which may hold others. A new one holds
/// none.
pub struct RectElement {
    pub x: PosType,
    pub y: PosType,
    pub width: SizeType,
    pub height: SizeType,
    pub children: Option<KeyedSlice<RectElement>>,
}

/// Whether the mouse is over an element, and where it is, measured from
/// the corner of the element.
#[derive(PartialEq, Eq, Structural, Clone, Copy, Debug)]
pub struct CheckResult {
    pub hovered: bool,
    pub x: PosType,
    pub y: PosType,
}

/// How to lay out a row or a column of elements of one size: with the size
/// or the spacing given, the other follows from the room that there is;
/// with both given, the elements are centred.
#[derive(Clone, Copy, Debug)]
pub struct SpaceEvenlyArgs {
    pub count: u8,
    pub margin: Margin,
    pub size: Option<SizeType>,
    pub spacing: Option<SizeType>,
    pub orientation: Orientation,
}

/// Whether `v` is a position or a size that an element can have.
pub open spec fn fits(v: int) -> bool {
    i16::MIN <= v <= i16::MAX
}

/// `a` divided by `b` and rounded towards zero.
pub open spec fn quotient(a: int, b: int) -> int {
    if b > 0 {
        truncated(a, b)
    } else {
        -truncated(a, -b)
    }
}

/// The distance between `a` and `b`.
pub open spec fn distance(a: int, b: int) -> int {
    if a >= b {
        a - b
    } else {
        b - a
    }
}

/// The smaller of `a` and `b`.
pub open spec fn smaller(a: int, b: int) -> int {
    if a <= b {
        a
    } else {
        b
    }
}

fn divide(a: i64, b: i64) -> (q: i64)
    requires
        b != 0,
        -0x1_0000_0000 < a < 0x1_0000_0000,
        -0x1_0000_0000 < b < 0x1_0000_0000,
    ensures
        q == quotient(a as int, b as int),
        -0x1_0000_0000 < q < 0x1_0000_0000,
{
    let (n, negative): (i64, bool) = if a < 0 {
        (-a, true)
    } else {
        (a, false)
    };
    let (d, flipped): (i64, bool) = if b < 0 {
        (-b, true)
    } else {
        (b, false)
    };
    assert(0 <= n as int / d as int <= n) by (nonlinear_arith)
        requires
            n >= 0,
            d > 0,
    ;
    let q = n / d;
    if negative != flipped {
        -q
    } else {
        q
    }
}

impl Orientation {
    /// The other direction.
    pub open spec fn spec_opposite(self) -> Orientation {
        match self {
            Orientation::Horizontal => Orientation::Vertical,
            Orientation::Vertical => Orientation::Horizontal,
        }
    }

    pub fn opposite(&self) -> (other: Self)
        ensures
            other == self.spec_opposite(),
    {
        match self {
            Self::Horizontal => Self::Vertical,
            Self::Vertical => Self::Horizontal,
        }
    }
}

impl Margin {
    /// The space that the margin takes along `orientation`.
    pub open spec fn spec_sum(self, orientation: Orientation) -> int {
        match orientation {
            Orientation::Horizontal => self.left + self.right,
            Orientation::Vertical => self.top + self.bottom,
        }
    }

    pub fn new(top: MarginType, bottom: MarginType, left: MarginType, right: MarginType) -> (m: Self)
        ensures
            m == (Margin { top, bottom, left, right }),
    {
        Self { top, bottom, left, right }
    }

    pub fn none() -> (m: Self)
        ensures
            m == (Margin { top: 0, bottom: 0, left: 0, right: 0 }),
    {
        Self { top: 0, bottom: 0, left: 0, right: 0 }
    }

    pub fn sides(horizontal: MarginType, vertical: MarginType) -> (m: Self)
        ensures
            m == (Margin { top: vertical, bottom: vertical, left: horizontal, right: horizontal }),
    {
        Self { top: vertical, bottom: vertical, left: horizontal, right: horizontal }
    }

    pub fn even(amount: MarginType) -> (m: Self)
        ensures
            m == (Margin { top: amount, bottom: amount, left: amount, right: amount }),
    {
        Self { top: amount, bottom: amount, left: amount, right: amount }
    }

    /// The space that the margin takes along `orientation`.
    pub fn sum_from_orientation(&self, orientation: Orientation) -> (sum: MarginType)
        requires
            fits(self.spec_sum(orientation)),
        ensures
            sum == self.spec_sum(orientation),
    {
        match orientation {
            Orientation::Horizontal => self.left + self.right,
            Orientation::Vertical => self.top + self.bottom,
        }
    }
}

/// What `space_evenly` works out before it places the elements: the
/// distance from one element to the next, the size of an element, and the
/// place of the first.
pub struct Spacing {
    pub total: int,
    pub size: int,
    pub start_x: int,
    pub start_y: int,
}

impl RectElement {
    /// The size along `orientation`.
    pub open spec fn spec_size(&self, orientation: Orientation) -> int {
        match orientation {
            Orientation::Horizontal => self.width as int,
            Orientation::Vertical => self.height as int,
        }
    }

    /// The point `(x, y)`, measured from `position`, in the coordinates in
    /// which the element lies.
    pub open spec fn spec_new_point(&self, x: int, y: int, position: Positioning) -> (int, int) {
        match position {
            Positioning::TopLeft => (x + self.x, y + self.y),
            Positioning::TopRight => (self.width - x + self.x, y + self.y),
            Positioning::BottomLeft => (x + self.x, self.height - y + self.y),
            Positioning::BottomRight => (self.width - x + self.x, self.height - y + self.y),
            Positioning::Center => (
                quotient(self.width as int, 2) + x + self.x,
                quotient(self.height as int, 2) + y + self.y,
            ),
        }
    }

    /// The corner opposite to `(x, y)` of a rectangle of the given size
    /// that is measured from `position`.
    pub open spec fn spec_far_corner(x: int, y: int, width: int, height: int, position: Positioning) -> (
        int,
        int,
    ) {
        if position == Positioning::Center {
            (x + quotient(-width, 2), y + quotient(-height, 2))
        } else {
            (x + width, y + height)
        }
    }

    /// The corner of the rectangle with the corners `one` and `other` that is
    /// nearest to the origin.
    pub open spec fn spec_near_corner(one: (int, int), other: (int, int)) -> (int, int) {
        (smaller(one.0, other.0), smaller(one.1, other.1))
    }

    /// What `space_evenly` works out for `settings`, which give a size or a
    /// spacing.
    pub open spec fn spec_spacing(&self, settings: SpaceEvenlyArgs) -> Spacing {
        let count = settings.count as int;
        let o = settings.orientation;
        let one = settings.size is Some != settings.spacing is Some;
        let total: int = if one {
            let given: int = if settings.size is Some {
                settings.size->0 as int
            } else {
                settings.spacing->0 as int
            };
            let sized: int = if settings.size is Some {
                1
            } else {
                0
            };
            given + quotient(
                self.spec_size(o) - settings.margin.spec_sum(o) - given * (count - 1 + sized),
                count - sized,
            )
        } else {
            settings.size->0 + settings.spacing->0
        };
        let size: int = if settings.spacing is Some {
            total - settings.spacing->0
        } else {
            settings.size->0 as int
        };
        if one {
            Spacing {
                total,
                size,
                start_x: settings.margin.left as int,
                start_y: settings.margin.top as int,
            }
        } else {
            let spacing = total - size;
            let near: int = if o == Orientation::Horizontal {
                settings.margin.left as int
            } else {
                settings.margin.top as int
            };
            let extra = quotient(self.spec_size(o), 2) - quotient(total * count - spacing, 2) - near;
            Spacing {
                total,
                size,
                start_x: settings.margin.left + if o == Orientation::Horizontal {
                    extra
                } else {
                    0
                },
                start_y: settings.margin.top + if o == Orientation::Vertical {
                    extra
                } else {
                    0
                },
            }
        }
    }

    /// The place and the size of element `i` of those that `space_evenly`
    /// makes for `settings`, before the element is put into this one.
    pub open spec fn spec_spaced(&self, settings: SpaceEvenlyArgs, i: int) -> (int, int, int, int) {
        let s = self.spec_spacing(settings);
        let across = settings.margin.spec_sum(settings.orientation.spec_opposite());
        if settings.orientation == Orientation::Horizontal {
            (s.start_x + s.total * i, s.start_y, s.size, self.height - across)
        } else {
            (s.start_x, s.start_y + s.total * i, self.width - across, s.size)
        }
    }

    /// Whether `space_evenly` can do its work for `settings`: a size or a
    /// spacing is given, there is an element to share the room where it is
    /// shared, and each element that comes out has a place and a size.
    pub open spec fn spaces(&self, settings: SpaceEvenlyArgs) -> bool {
        &&& settings.size is Some || settings.spacing is Some
        &&& settings.size is Some && settings.spacing is None ==> settings.count != 1
        &&& settings.size is None && settings.spacing is Some ==> settings.count != 0
        &&& forall|i: int|
            0 <= i < settings.count ==> {
                let e = #[trigger] self.spec_spaced(settings, i);
                &&& fits(e.0)
                &&& fits(e.1)
                &&& fits(e.2)
                &&& fits(e.3)
                &&& fits(e.0 + self.x)
                &&& fits(e.1 + self.y)
                &&& fits(e.0 + e.2 + self.x)
                &&& fits(e.1 + e.3 + self.y)
                &&& fits(e.0 + e.2)
                &&& fits(e.1 + e.3)
            }
    }

    fn new(x: PosType, y: PosType, width: SizeType, height: SizeType) -> (e: Self)
        ensures
            e.x == x,
            e.y == y,
            e.width == width,
            e.height == height,
            e.children is None,
    {
        Self { x, y, width, height, children: None }
    }

    /// An element at the origin with the size of the screen.
    pub fn screen(width: SizeType, height: SizeType) -> (e: Self)
        ensures
            e.x == 0,
            e.y == 0,
            e.width == width,
            e.height == height,
            e.children is None,
    {
        Self::new(0, 0, width, height)
    }

    pub fn empty() -> (e: Self)
        ensures
            e.x == 0,
            e.y == 0,
            e.width == 0,
            e.height == 0,
            e.children is None,
    {
        Self::new(0, 0, 0, 0)
    }

    /// A square between two points: it lies at the corner that is nearest
    /// to the origin, and its side is the vertical distance of the points.
    pub fn from_points(one: Point, other: Point) -> (e: Self)
        requires
            fits(distance(one.1 as int, other.1 as int)),
        ensures
            e.x == smaller(one.0 as int, other.0 as int),
            e.y == smaller(one.1 as int, other.1 as int),
            e.width == distance(one.1 as int, other.1 as int),
            e.height == distance(one.1 as int, other.1 as int),
            e.children is None,
    {
        let x = if one.0 <= other.0 {
            one.0
        } else {
            other.0
        };
        let y = if one.1 <= other.1 {
            one.1
        } else {
            other.1
        };
        let side: i32 = if one.1 >= other.1 {
            one.1 as i32 - other.1 as i32
        } else {
            other.1 as i32 - one.1 as i32
        };
        Self::new(x, y, side as i16, side as i16)
    }

    /// The point `(x, y)`, measured from `position`, in the coordinates in
    /// which the element lies.
    pub fn new_point(&self, x: PosType, y: PosType, position: Positioning) -> (p: Point)
        requires
            fits(self.spec_new_point(x as int, y as int, position).0),
            fits(self.spec_new_point(x as int, y as int, position).1),
        ensures
            p.0 == self.spec_new_point(x as int, y as int, position).0,
            p.1 == self.spec_new_point(x as int, y as int, position).1,
    {
        let (px, py): (i64, i64) = match position {
            Positioning::TopLeft => (x as i64, y as i64),
            Positioning::TopRight => (self.width as i64 - x as i64, y as i64),
            Positioning::BottomLeft => (x as i64, self.height as i64 - y as i64),
            Positioning::BottomRight => (self.width as i64 - x as i64, self.height as i64 - y as i64),
            Positioning::Center => (
                divide(self.width as i64, 2) + x as i64,
                divide(self.height as i64, 2) + y as i64,
            ),
        };
        ((px + self.x as i64) as i16, (py + self.y as i64) as i16)
    }

    /// An element of the given size at `(x, y)`, measured from `position`,
    /// in the coordinates in which this element lies.
    pub fn new_rect(
        &self,
        x: PosType,
        y: PosType,
        width: SizeType,
        height: SizeType,
        position: Positioning,
    ) -> (e: Self)
        requires
            self.places(x as int, y as int, width as int, height as int, position),
        ensures
            e.x == self.spec_new_rect(x as int, y as int, width as int, height as int, position).0,
            e.y == self.spec_new_rect(x as int, y as int, width as int, height as int, position).1,
            e.width == width,
            e.height == height,
            e.children is None,
    {
        let one = self.new_point(x, y, position);
        let (fx, fy): (i64, i64) = if position == Positioning::Center {
            (x as i64 + divide(-(width as i64), 2), y as i64 + divide(-(height as i64), 2))
        } else {
            (x as i64 + width as i64, y as i64 + height as i64)
        };
        let other = self.new_point(fx as i16, fy as i16, position);
        let px = if one.0 <= other.0 {
            one.0
        } else {
            other.0
        };
        let py = if one.1 <= other.1 {
            one.1
        } else {
            other.1
        };
        Self::new(px, py, width, height)
    }

    /// Whether `new_rect` can place an element: both of its corners have a
    /// place.
    pub open spec fn places(&self, x: int, y: int, width: int, height: int, position: Positioning) -> bool {
        let far = Self::spec_far_corner(x, y, width, height, position);
        &&& fits(far.0)
        &&& fits(far.1)
        &&& fits(self.spec_new_point(x, y, position).0)
        &&& fits(self.spec_new_point(x, y, position).1)
        &&& fits(self.spec_new_point(far.0, far.1, position).0)
        &&& fits(self.spec_new_point(far.0, far.1, position).1)
    }

    /// The corner, nearest to the origin, of the element that `new_rect`
    /// places.
    pub open spec fn spec_new_rect(&self, x: int, y: int, width: int, height: int, position: Positioning) -> (
        int,
        int,
    ) {
        let far = Self::spec_far_corner(x, y, width, height, position);
        Self::spec_near_corner(
            self.spec_new_point(x, y, position),
            self.spec_new_point(far.0, far.1, position),
        )
    }

    /// The rectangle of the element on the screen. A negative size wraps
    /// round.
    pub fn rect(&self) -> (r: ScreenRect)
        ensures
            r.x == self.x,
            r.y == self.y,
            r.width == if self.width >= 0 {
                self.width as int
            } else {
                self.width + 0x1_0000_0000
            },
            r.height == if self.height >= 0 {
                self.height as int
            } else {
                self.height + 0x1_0000_0000
            },
    {
        let width: u32 = if self.width >= 0 {
            self.width as u32
        } else {
            (self.width as i64 + 0x1_0000_0000) as u32
        };
        let height: u32 = if self.height >= 0 {
            self.height as u32
        } else {
            (self.height as i64 + 0x1_0000_0000) as u32
        };
        ScreenRect { x: self.x as i32, y: self.y as i32, width, height }
    }

    pub fn size_from_orientation(&self, orientation: Orientation) -> (size: SizeType)
        ensures
            size == self.spec_size(orientation),
    {
        match orientation {
            Orientation::Horizontal => self.width,
            Orientation::Vertical => self.height,
        }
    }

    /// Whether the mouse at `(mx, my)` is over the element, and where it
    /// is, measured from the corner of the element.
    pub fn check(&self, mx: PosType, my: PosType) -> (r: CheckResult)
        requires
            fits(mx - self.x),
            fits(my - self.y),
            fits(self.x + self.width),
            fits(self.y + self.height),
        ensures
            r.x == mx - self.x,
            r.y == my - self.y,
            r.hovered == (self.x <= mx < self.x + self.width && self.y <= my < self.y + self.height),
    {
        let x = mx - self.x;
        let y = my - self.y;
        CheckResult {
            hovered: self.x <= mx && mx < self.x + self.width && self.y <= my && my < self.y
                + self.height,
            x,
            y,
        }
    }

    /// A row or a column of `count` elements of one size in this element,
    /// as `settings` say, each placed as `new_rect` places it from the top
    /// left.
    pub fn space_evenly(&self, settings: SpaceEvenlyArgs) -> (arr: Vec<Self>)
        requires
            self.spaces(settings),
        ensures
            arr@.len() == settings.count,
            forall|i: int|
                0 <= i < settings.count ==> {
                    let e = self.spec_spaced(settings, i);
                    let corner = self.spec_new_rect(e.0, e.1, e.2, e.3, Positioning::TopLeft);
                    &&& (#[trigger] arr@[i]).x == corner.0
                    &&& arr@[i].y == corner.1
                    &&& arr@[i].width == e.2
                    &&& arr@[i].height == e.3
                    &&& arr@[i].children is None
                },
    {
        let count: i64 = settings.count as i64;
        let horizontal = settings.orientation == Orientation::Horizontal;
        let along: i64 = self.size_from_orientation(settings.orientation) as i64;
        let margin_along: i64 = match settings.orientation {
            Orientation::Horizontal => settings.margin.left as i64 + settings.margin.right as i64,
            Orientation::Vertical => settings.margin.top as i64 + settings.margin.bottom as i64,
        };
        let margin_across: i64 = match settings.orientation {
            Orientation::Horizontal => settings.margin.top as i64 + settings.margin.bottom as i64,
            Orientation::Vertical => settings.margin.left as i64 + settings.margin.right as i64,
        };
        let one = settings.size.is_some() != settings.spacing.is_some();
        let total: i64 = if one {
            let (given, sized): (i64, i64) = match settings.size {
                Some(size) => (size as i64, 1),
                None => match settings.spacing {
                    Some(spacing) => (spacing as i64, 0),
                    None => (0, 0),
                },
            };
            assert(-0x1000_0000 < given * (count - 1 + sized) < 0x1000_0000) by (nonlinear_arith)
                requires
                    -0x8000 <= given <= 0x7fff,
                    0 <= count <= 255,
                    0 <= sized <= 1,
            ;
            given + divide(along - margin_along - given * (count - 1 + sized), count - sized)
        } else {
            match (settings.size, settings.spacing) {
                (Some(size), Some(spacing)) => size as i64 + spacing as i64,
                _ => 0,
            }
        };
        let size: i64 = match settings.spacing {
            Some(spacing) => total - spacing as i64,
            None => match settings.size {
                Some(size) => size as i64,
                None => 0,
            },
        };
        assert(-0x8000_0000_0000 < total * count < 0x8000_0000_0000) by (nonlinear_arith)
            requires
                -0x2_0000_0000 < total < 0x2_0000_0000,
                0 <= count <= 255,
        ;
        let (start_x, start_y): (i64, i64) = if one {
            (settings.margin.left as i64, settings.margin.top as i64)
        } else {
            let spacing = total - size;
            let near: i64 = if horizontal {
                settings.margin.left as i64
            } else {
                settings.margin.top as i64
            };
            assert(-0x200_0000 < total * count < 0x200_0000) by (nonlinear_arith)
                requires
                    -0x2_0000 < total < 0x2_0000,
                    0 <= count <= 255,
            ;
            let extra = divide(along, 2) - divide(total * count - spacing, 2) - near;
            (
                settings.margin.left as i64 + if horizontal {
                    extra
                } else {
                    0
                },
                settings.margin.top as i64 + if horizontal {
                    0
                } else {
                    extra
                },
            )
        };
        let ghost s = self.spec_spacing(settings);
        assert(s.total == total && s.size == size && s.start_x == start_x && s.start_y == start_y);
        let mut arr: Vec<Self> = Vec::with_capacity(settings.count as usize);
        let mut i: i64 = 0;
        while i < count
            invariant
                0 <= i <= count == settings.count,
                self.spaces(settings),
                s == self.spec_spacing(settings),
                s.total == total && s.size == size && s.start_x == start_x && s.start_y == start_y,
                margin_across == settings.margin.spec_sum(settings.orientation.spec_opposite()),
                horizontal == (settings.orientation == Orientation::Horizontal),
                -0x2_0000_0000 < total < 0x2_0000_0000,
                -0x4_0000_0000 < start_x < 0x4_0000_0000,
                -0x4_0000_0000 < start_y < 0x4_0000_0000,
                arr@.len() == i,
                forall|k: int|
                    0 <= k < i ==> {
                        let e = self.spec_spaced(settings, k);
                        let corner = self.spec_new_rect(e.0, e.1, e.2, e.3, Positioning::TopLeft);
                        &&& (#[trigger] arr@[k]).x == corner.0
                        &&& arr@[k].y == corner.1
                        &&& arr@[k].width == e.2
                        &&& arr@[k].height == e.3
                        &&& arr@[k].children is None
                    },
            decreases count - i,
        {
            let ghost e = self.spec_spaced(settings, i as int);
            assert(-0x8000_0000_0000 < total * i < 0x8000_0000_0000) by (nonlinear_arith)
                requires
                    -0x2_0000_0000 < total < 0x2_0000_0000,
                    0 <= i <= 255,
            ;
            let (x, y, width, height): (i64, i64, i64, i64) = if horizontal {
                (start_x + total * i, start_y, size, self.height as i64 - margin_across)
            } else {
                (start_x, start_y + total * i, self.width as i64 - margin_across, size)
            };
            assert(e == (x as int, y as int, width as int, height as int));
            let element = self.new_rect(
                x as i16,
                y as i16,
                width as i16,
                height as i16,
                Positioning::TopLeft,
            );
            arr.push(element);
            i += 1;
        }
        arr
    }
}

} // verus!
