//! Rectangle arithmetic for placing nodes on screen. Coordinates that leave the `i32` range
//! saturate at its ends.
use vstd::prelude::*;

use crate::layout::{ElementPositioning, Orientation};

verus! {

/// A point on screen.
#[derive(Clone, Copy, PartialEq, Eq, Debug, Structural)]
pub struct Point {
    pub x: i32,
    pub y: i32,
}

/// A rectangle: top left corner, width and height.
#[derive(Clone, Copy, PartialEq, Eq, Debug, Structural)]
pub struct Rect {
    pub x: i32,
    pub y: i32,
    pub w: u32,
    pub h: u32,
}

/// Where to draw a node.
#[derive(Clone, Copy, PartialEq, Eq, Debug, Structural)]
pub enum Position {
    /// The node's top left corner goes here, whatever its size.
    TopLeftCorner(Point),
    /// The node is centred here.
    Center(Point),
    /// The node is drawn in this rectangle.
    Rect(Rect),
}

/// `v` saturated into the `i32` range.
pub open spec fn sat_i32(v: int) -> i32 {
    if v < i32::MIN {
        i32::MIN
    } else if v > i32::MAX {
        i32::MAX
    } else {
        v as i32
    }
}

/// `v` saturated into the `u32` range.
pub open spec fn sat_u32(v: int) -> u32 {
    if v < 0 {
        0
    } else if v > u32::MAX {
        u32::MAX
    } else {
        v as u32
    }
}

pub open spec fn imax(a: int, b: int) -> int {
    if a >= b {
        a
    } else {
        b
    }
}

fn to_i32(v: i128) -> (r: i32)
    ensures
        r == sat_i32(v as int),
{
    if v < i32::MIN as i128 {
        i32::MIN
    } else if v > i32::MAX as i128 {
        i32::MAX
    } else {
        v as i32
    }
}

fn to_u32(v: i128) -> (r: u32)
    ensures
        r == sat_u32(v as int),
{
    if v < 0 {
        0
    } else if v > u32::MAX as i128 {
        u32::MAX
    } else {
        v as u32
    }
}

impl Rect {
    /// A rectangle with its corner at `(x, y)`.
    pub fn new(x: i32, y: i32, w: u32, h: u32) -> (r: Rect)
        ensures
            r == (Rect { x, y, w, h }),
    {
        Rect { x, y, w, h }
    }

    /// The top left corner.
    pub fn top_left(&self) -> (r: Point)
        ensures
            r == (Point { x: self.x, y: self.y }),
    {
        Point { x: self.x, y: self.y }
    }
}

/// Left edge of a `width` wide box placed by `pos`, before saturation.
pub open spec fn placed_x(pos: Position, width: int) -> int {
    match pos {
        Position::TopLeftCorner(p) => p.x as int,
        Position::Center(p) => p.x - width / 2,
        Position::Rect(r) => imax(r.x + r.w / 2 - width / 2, r.x as int),
    }
}

/// Top edge of a `height` high box placed by `pos`, before saturation.
pub open spec fn placed_y(pos: Position, height: int) -> int {
    match pos {
        Position::TopLeftCorner(p) => p.y as int,
        Position::Center(p) => p.y - height / 2,
        Position::Rect(r) => imax(r.y + r.h / 2 - height / 2, r.y as int),
    }
}

fn placed(pos: Position, width: u32, height: u32) -> (r: (i128, i128))
    ensures
        r.0 == placed_x(pos, width as int),
        r.1 == placed_y(pos, height as int),
{
    match pos {
        Position::TopLeftCorner(p) => (p.x as i128, p.y as i128),
        Position::Center(p) => (p.x as i128 - width as i128 / 2, p.y as i128 - height as i128 / 2),
        Position::Rect(r) => {
            let cx = r.x as i128 + r.w as i128 / 2 - width as i128 / 2;
            let cy = r.y as i128 + r.h as i128 / 2 - height as i128 / 2;
            (
                if cx >= r.x as i128 {
                    cx
                } else {
                    r.x as i128
                },
                if cy >= r.y as i128 {
                    cy
                } else {
                    r.y as i128
                },
            )
        },
    }
}

impl Position {
    /// A `width`×`height` rectangle placed by this position: at the corner, centred on the
    /// point, or centred in the rectangle (but not left of or above it). In a rectangle, a
    /// side that would stick out takes the rectangle's size instead.
    pub fn into_rect_with_size(self, width: u32, height: u32) -> (r: Rect)
        ensures
            r.x == sat_i32(placed_x(self, width as int)),
            r.y == sat_i32(placed_y(self, height as int)),
            r.w == match self {
                Position::Rect(b) => if placed_x(self, width as int) + width > b.x + b.w {
                    b.w
                } else {
                    width
                },
                _ => width,
            },
            r.h == match self {
                Position::Rect(b) => if placed_y(self, height as int) + height > b.y + b.h {
                    b.h
                } else {
                    height
                },
                _ => height,
            },
    {
        let (x, y) = placed(self, width, height);
        let (w, h) = match self {
            Position::Rect(b) => (
                if x + width as i128 > b.x as i128 + b.w as i128 {
                    b.w
                } else {
                    width
                },
                if y + height as i128 > b.y as i128 + b.h as i128 {
                    b.h
                } else {
                    height
                },
            ),
            _ => (width, height),
        };
        Rect { x: to_i32(x), y: to_i32(y), w, h }
    }

    /// Like `into_rect_with_size`, but the size is kept even where it sticks out of a
    /// rectangle.
    pub fn into_rect_with_size_unbounded(self, width: u32, height: u32) -> (r: Rect)
        ensures
            r.x == sat_i32(placed_x(self, width as int)),
            r.y == sat_i32(placed_y(self, height as int)),
            r.w == width,
            r.h == height,
    {
        let (x, y) = placed(self, width, height);
        Rect { x: to_i32(x), y: to_i32(y), w: width, h: height }
    }
}

/// How much of a side the first half of a split takes.
#[derive(Clone, Copy, PartialEq, Eq, Debug, Structural)]
pub enum SplitAmount {
    /// `num / den` of the side.
    Fraction(u32, u32),
    /// A fixed number of pixels.
    Pixels(u32),
}

/// The extent of the first half of a split of a side `size` long, at most `size`.
pub open spec fn first_extent(amount: SplitAmount, size: int) -> int {
    let e = match amount {
        SplitAmount::Fraction(n, d) => if d == 0 {
            0
        } else {
            size * n / (d as int)
        },
        SplitAmount::Pixels(p) => p as int,
    };
    if e > size {
        size
    } else {
        e
    }
}

/// The extent of the first half of a split of a side `size` long.
pub fn split_extent(amount: SplitAmount, size: u32) -> (r: u32)
    ensures
        r == first_extent(amount, size as int),
{
    let e: u64 = match amount {
        SplitAmount::Fraction(n, d) => if d == 0 {
            0
        } else {
            assert((size as int) * (n as int) <= u32::MAX * u32::MAX) by (nonlinear_arith)
                requires
                    size <= u32::MAX,
                    n <= u32::MAX,
            ;
            size as u64 * n as u64 / d as u64
        },
        SplitAmount::Pixels(p) => p as u64,
    };
    if e > size as u64 {
        size
    } else {
        e as u32
    }
}

/// The two halves of `rect` split along `orientation`: the first takes `first_extent` of
/// the height (vertical) or width (horizontal), the second the rest.
pub fn split_rects(rect: Rect, orientation: Orientation, amount: SplitAmount) -> (r: (Rect, Rect))
    ensures
        orientation == Orientation::Vertical ==> {
            let e = first_extent(amount, rect.h as int);
            &&& r.0 == (Rect { x: rect.x, y: rect.y, w: rect.w, h: e as u32 })
            &&& r.1 == (Rect {
                x: rect.x,
                y: sat_i32(rect.y + e),
                w: rect.w,
                h: (rect.h - e) as u32,
            })
        },
        orientation == Orientation::Horizontal ==> {
            let e = first_extent(amount, rect.w as int);
            &&& r.0 == (Rect { x: rect.x, y: rect.y, w: e as u32, h: rect.h })
            &&& r.1 == (Rect {
                x: sat_i32(rect.x + e),
                y: rect.y,
                w: (rect.w - e) as u32,
                h: rect.h,
            })
        },
{
    match orientation {
        Orientation::Vertical => {
            let e = split_extent(amount, rect.h);
            (
                Rect { x: rect.x, y: rect.y, w: rect.w, h: e },
                Rect { x: rect.x, y: to_i32(rect.y as i128 + e as i128), w: rect.w, h: rect.h - e },
            )
        },
        Orientation::Horizontal => {
            let e = split_extent(amount, rect.w);
            (
                Rect { x: rect.x, y: rect.y, w: e, h: rect.h },
                Rect { x: to_i32(rect.x as i128 + e as i128), y: rect.y, w: rect.w - e, h: rect.h },
            )
        },
    }
}

/// `rect` shrunk by the margins `(top, right, bottom, left)`; a side that the margins
/// exceed becomes empty.
pub fn margin_rect(rect: Rect, margin: (u32, u32, u32, u32)) -> (r: Rect)
    ensures
        r.x == sat_i32(rect.x + margin.1),
        r.y == sat_i32(rect.y + margin.0),
        r.w == sat_u32(rect.w - margin.1 - margin.3),
        r.h == sat_u32(rect.h - margin.0 - margin.2),
{
    Rect {
        x: to_i32(rect.x as i128 + margin.1 as i128),
        y: to_i32(rect.y as i128 + margin.0 as i128),
        w: to_u32(rect.w as i128 - margin.1 as i128 - margin.3 as i128),
        h: to_u32(rect.h as i128 - margin.0 as i128 - margin.2 as i128),
    }
}

/// The side of a region that a node is pinned to.
#[derive(Clone, Copy, PartialEq, Eq, Debug, Structural)]
pub enum AnchorDirection {
    North,
    East,
    South,
    West,
    NorthEast,
    SouthEast,
    SouthWest,
    NorthWest,
}

/// Left edge of a `iw` wide node anchored in `rect`, before saturation.
pub open spec fn anchored_x(d: AnchorDirection, rect: Rect, iw: int) -> int {
    match d {
        AnchorDirection::North | AnchorDirection::South => rect.x + half_trunc(rect.w - iw),
        AnchorDirection::East | AnchorDirection::NorthEast | AnchorDirection::SouthEast => rect.x
            + rect.w - iw,
        AnchorDirection::West | AnchorDirection::NorthWest | AnchorDirection::SouthWest => rect.x as int,
    }
}

/// Top edge of a `ih` high node anchored in `rect`, before saturation.
pub open spec fn anchored_y(d: AnchorDirection, rect: Rect, ih: int) -> int {
    match d {
        AnchorDirection::East | AnchorDirection::West => rect.y + half_trunc(rect.h - ih),
        AnchorDirection::South | AnchorDirection::SouthEast | AnchorDirection::SouthWest => rect.y
            + rect.h - ih,
        AnchorDirection::North | AnchorDirection::NorthEast | AnchorDirection::NorthWest => rect.y as int,
    }
}

/// `v / 2`, rounded towards zero.
pub open spec fn half_trunc(v: int) -> int {
    if v >= 0 {
        v / 2
    } else {
        -((-v) / 2)
    }
}

fn half_toward_zero(v: i128) -> (r: i128)
    requires
        -0x1_0000_0000_0000 <= v <= 0x1_0000_0000_0000,
    ensures
        r == half_trunc(v as int),
{
    if v >= 0 {
        v / 2
    } else {
        -((-v) / 2)
    }
}

/// The rectangle of a `width`×`height` node pinned to side `d` of `rect`.
pub fn anchor_rect(d: AnchorDirection, rect: Rect, width: u32, height: u32) -> (r: Rect)
    ensures
        r.x == sat_i32(anchored_x(d, rect, width as int)),
        r.y == sat_i32(anchored_y(d, rect, height as int)),
        r.w == width,
        r.h == height,
{
    let iw = width as i128;
    let ih = height as i128;
    let x = rect.x as i128;
    let y = rect.y as i128;
    let rw = rect.w as i128;
    let rh = rect.h as i128;
    let cx = match d {
        AnchorDirection::North | AnchorDirection::South => x + half_toward_zero(rw - iw),
        AnchorDirection::East | AnchorDirection::NorthEast | AnchorDirection::SouthEast => x + rw
            - iw,
        _ => x,
    };
    let cy = match d {
        AnchorDirection::East | AnchorDirection::West => y + half_toward_zero(rh - ih),
        AnchorDirection::South | AnchorDirection::SouthEast | AnchorDirection::SouthWest => y + rh
            - ih,
        _ => y,
    };
    Rect { x: to_i32(cx), y: to_i32(cy), w: width, h: height }
}

/// Sum of the first `k` extents, each followed by `margin`.
pub open spec fn stack_offset(extents: Seq<u32>, margin: int, k: int) -> int
    decreases k,
{
    if k <= 0 {
        0
    } else {
        stack_offset(extents, margin, k - 1) + extents[k - 1] + margin
    }
}

/// The corners of the elements of a stack whose own box starts at `corner` and is
/// `extent` wide (vertical) or high (horizontal) across the stacking direction. Element `k`
/// is `stack_offset` further along; centred elements sit in the middle across.
pub fn stack_corners(
    corner: Point,
    orientation: Orientation,
    positioning: ElementPositioning,
    margin: u32,
    extent: u32,
    sizes: &Vec<(u32, u32)>,
) -> (r: Vec<Point>)
    ensures
        r@.len() == sizes@.len(),
        forall|k: int|
            0 <= k < r@.len() ==> {
                let along = stack_offset(
                    if orientation == Orientation::Vertical {
                        sizes@.map_values(|s: (u32, u32)| s.1)
                    } else {
                        sizes@.map_values(|s: (u32, u32)| s.0)
                    },
                    margin as int,
                    k,
                );
                let own = if orientation == Orientation::Vertical {
                    sizes@[k].0
                } else {
                    sizes@[k].1
                };
                let across = if positioning == ElementPositioning::Centered {
                    extent / 2 - own / 2
                } else {
                    0
                };
                if orientation == Orientation::Vertical {
                    #[trigger] r@[k] == (Point {
                        x: sat_i32(corner.x + across),
                        y: sat_i32(corner.y + along),
                    })
                } else {
                    r@[k] == (Point {
                        x: sat_i32(corner.x + along),
                        y: sat_i32(corner.y + across),
                    })
                }
            },
{
    let ghost mains = if orientation == Orientation::Vertical {
        sizes@.map_values(|s: (u32, u32)| s.1)
    } else {
        sizes@.map_values(|s: (u32, u32)| s.0)
    };
    let mut out: Vec<Point> = Vec::new();
    let mut along: i128 = 0;
    let mut k: usize = 0;
    while k < sizes.len()
        invariant
            k <= sizes@.len(),
            out@.len() == k,
            mains.len() == sizes@.len(),
            forall|j: int|
                0 <= j < sizes@.len() ==> #[trigger] mains[j] == if orientation
                    == Orientation::Vertical {
                    sizes@[j].1
                } else {
                    sizes@[j].0
                },
            along == stack_offset(mains, margin as int, k as int),
            0 <= along <= k * 0x2_0000_0000,
            forall|j: int|
                0 <= j < k ==> {
                    let own = if orientation == Orientation::Vertical {
                        sizes@[j].0
                    } else {
                        sizes@[j].1
                    };
                    let across = if positioning == ElementPositioning::Centered {
                        extent / 2 - own / 2
                    } else {
                        0
                    };
                    if orientation == Orientation::Vertical {
                        #[trigger] out@[j] == (Point {
                            x: sat_i32(corner.x + across),
                            y: sat_i32(corner.y + stack_offset(mains, margin as int, j)),
                        })
                    } else {
                        out@[j] == (Point {
                            x: sat_i32(corner.x + stack_offset(mains, margin as int, j)),
                            y: sat_i32(corner.y + across),
                        })
                    }
                },
        decreases sizes@.len() - k,
    {
        let (w, h) = sizes[k];
        let (own, main) = match orientation {
            Orientation::Vertical => (w, h),
            Orientation::Horizontal => (h, w),
        };
        let across: i128 = match positioning {
            ElementPositioning::Centered => extent as i128 / 2 - own as i128 / 2,
            ElementPositioning::TopLeftCornered => 0,
        };
        let p = match orientation {
            Orientation::Vertical => Point {
                x: to_i32(corner.x as i128 + across),
                y: to_i32(corner.y as i128 + along),
            },
            Orientation::Horizontal => Point {
                x: to_i32(corner.x as i128 + along),
                y: to_i32(corner.y as i128 + across),
            },
        };
        out.push(p);
        along = along + main as i128 + margin as i128;
        k += 1;
    }
    out
}

} // verus!
