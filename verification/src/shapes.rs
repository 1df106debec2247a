//! Value types for the shape model: colors, styles, points and geometry.
//!
//! Coordinates are plain signed integers. All geometric arithmetic is
//! specified over unbounded integers; the executable operations either
//! require that the result fits in `i64` or report the overflow.

use vstd::prelude::*;

verus! {

/// A fixed palette of fill colors.
#[derive(Clone, Copy, Debug, PartialEq, Eq, Structural)]
pub enum Color {
    Red,
    Orange,
    Yellow,
    Green,
    Blue,
    Indigo,
    Violet,
    White,
    Black,
}

impl Color {
    /// The successor of a color in the fixed nine-color cycle
    /// Red, Orange, Yellow, Green, Blue, Indigo, Violet, Black, White, Red, ...
    pub open spec fn spec_advance(self) -> Color {
        match self {
            Color::Red => Color::Orange,
            Color::Orange => Color::Yellow,
            Color::Yellow => Color::Green,
            Color::Green => Color::Blue,
            Color::Blue => Color::Indigo,
            Color::Indigo => Color::Violet,
            Color::Violet => Color::Black,
            Color::Black => Color::White,
            Color::White => Color::Red,
        }
    }

    /// Cycle this color to the next one in the fixed nine-color cycle.
    pub fn advance(&mut self)
        ensures
            *final(self) == old(self).spec_advance(),
    {
        *self = match *self {
            Color::Red => Color::Orange,
            Color::Orange => Color::Yellow,
            Color::Yellow => Color::Green,
            Color::Green => Color::Blue,
            Color::Blue => Color::Indigo,
            Color::Indigo => Color::Violet,
            Color::Violet => Color::Black,
            Color::Black => Color::White,
            Color::White => Color::Red,
        };
    }
}

/// Style information for a shape: currently just a fill color.
#[derive(Clone, Copy, Debug, PartialEq, Eq, Structural)]
pub struct Style {
    pub fill: Color,
}

impl Style {
    pub fn new(fill: Color) -> (s: Style)
        ensures
            s == (Style { fill }),
    {
        Style { fill }
    }
}

/// An xy coordinate pair.
#[derive(Clone, Copy, Debug, PartialEq, Eq, Structural)]
pub struct XYPoint {
    pub x: i64,
    pub y: i64,
}

/// Whether an unbounded integer fits in `i64`.
pub open spec fn in_i64(v: int) -> bool {
    i64::MIN <= v <= i64::MAX
}

impl XYPoint {
    pub fn new(x: i64, y: i64) -> (p: XYPoint)
        ensures
            p == (XYPoint { x, y }),
    {
        XYPoint { x, y }
    }

    /// Componentwise sum, used for translation.
    pub fn add(&self, other: &XYPoint) -> (p: XYPoint)
        requires
            in_i64(self.x + other.x),
            in_i64(self.y + other.y),
        ensures
            p.x == self.x + other.x,
            p.y == self.y + other.y,
    {
        XYPoint { x: self.x + other.x, y: self.y + other.y }
    }

    /// Componentwise difference, used for delta computation.
    pub fn subtract(&self, other: &XYPoint) -> (p: XYPoint)
        requires
            in_i64(self.x - other.x),
            in_i64(self.y - other.y),
        ensures
            p.x == self.x - other.x,
            p.y == self.y - other.y,
    {
        XYPoint { x: self.x - other.x, y: self.y - other.y }
    }
}

/// Geometry of a shape: an axis-aligned rectangle or a circle.
#[derive(Clone, Copy, Debug, PartialEq, Eq, Structural)]
pub enum Geometry {
    Rectangle { top_left: XYPoint, size: XYPoint },
    Circle { center: XYPoint, radius: i64 },
}

/// Whether translating `g` by `(dx, dy)` stays within `i64` coordinates.
pub open spec fn offset_fits(g: Geometry, dx: int, dy: int) -> bool {
    match g {
        Geometry::Rectangle { top_left, size } => in_i64(top_left.x + dx) && in_i64(
            top_left.y + dy,
        ),
        Geometry::Circle { center, radius } => in_i64(center.x + dx) && in_i64(center.y + dy),
    }
}

/// The translation of `g` by `(dx, dy)`: rectangle sizes and circle radii
/// are unchanged, reference points move by the delta.
pub open spec fn spec_offset_by(g: Geometry, dx: int, dy: int) -> Geometry {
    match g {
        Geometry::Rectangle { top_left, size } => Geometry::Rectangle {
            top_left: XYPoint { x: (top_left.x + dx) as i64, y: (top_left.y + dy) as i64 },
            size,
        },
        Geometry::Circle { center, radius } => Geometry::Circle {
            center: XYPoint { x: (center.x + dx) as i64, y: (center.y + dy) as i64 },
            radius,
        },
    }
}

impl Geometry {
    pub fn rectangle(left: i64, top: i64, width: i64, height: i64) -> (g: Geometry)
        ensures
            g == (Geometry::Rectangle {
                top_left: XYPoint { x: left, y: top },
                size: XYPoint { x: width, y: height },
            }),
    {
        Geometry::Rectangle {
            top_left: XYPoint::new(left, top),
            size: XYPoint::new(width, height),
        }
    }

    pub fn circle(cx: i64, cy: i64, radius: i64) -> (g: Geometry)
        ensures
            g == (Geometry::Circle { center: XYPoint { x: cx, y: cy }, radius }),
    {
        Geometry::Circle { center: XYPoint::new(cx, cy), radius }
    }

    /// A copy of this geometry translated by `offset`.
    pub fn offset_by(&self, offset: &XYPoint) -> (g: Geometry)
        requires
            offset_fits(*self, offset.x as int, offset.y as int),
        ensures
            g == spec_offset_by(*self, offset.x as int, offset.y as int),
    {
        match self {
            Geometry::Rectangle { top_left, size } => Geometry::Rectangle {
                top_left: top_left.add(offset),
                size: *size,
            },
            Geometry::Circle { center, radius } => Geometry::Circle {
                center: center.add(offset),
                radius: *radius,
            },
        }
    }

    /// A copy of this geometry translated by `offset`, or `None` if the
    /// translated coordinates would not fit in `i64`.
    pub fn checked_offset_by(&self, offset: &XYPoint) -> (r: Option<Geometry>)
        ensures
            match r {
                Some(g) => offset_fits(*self, offset.x as int, offset.y as int) && g
                    == spec_offset_by(*self, offset.x as int, offset.y as int),
                None => !offset_fits(*self, offset.x as int, offset.y as int),
            },
    {
        match self {
            Geometry::Rectangle { top_left, size } => {
                match (top_left.x.checked_add(offset.x), top_left.y.checked_add(offset.y)) {
                    (Some(x), Some(y)) => Some(
                        Geometry::Rectangle { top_left: XYPoint { x, y }, size: *size },
                    ),
                    _ => None,
                }
            },
            Geometry::Circle { center, radius } => {
                match (center.x.checked_add(offset.x), center.y.checked_add(offset.y)) {
                    (Some(x), Some(y)) => Some(
                        Geometry::Circle { center: XYPoint { x, y }, radius: *radius },
                    ),
                    _ => None,
                }
            },
        }
    }
}

/// A shape: geometry plus style.
#[derive(Clone, Copy, Debug, PartialEq, Eq, Structural)]
pub struct Shape {
    pub geometry: Geometry,
    pub style: Style,
}

impl Shape {
    pub fn new(geometry: Geometry, style: Style) -> (s: Shape)
        ensures
            s == (Shape { geometry, style }),
    {
        Shape { geometry, style }
    }
}

} // verus!
