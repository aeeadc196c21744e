use vstd::prelude::*;

verus! {

/// A point in three-dimensional integer space.
#[derive(Eq, PartialEq, Copy, Clone, Debug)]
pub struct Point3 {
    pub x: i32,
    pub y: i32,
    pub z: i32,
}

/// True when `v` is representable as an `i32`.
pub open spec fn fits_i32(v: int) -> bool {
    i32::MIN <= v <= i32::MAX
}

/// Truncating integer division, as Rust's `/` on integers computes it.
pub open spec fn trunc_div(a: int, b: int) -> int
    recommends
        b != 0,
{
    if a >= 0 {
        if b > 0 {
            a / b
        } else {
            -(a / -b)
        }
    } else {
        if b > 0 {
            -((-a) / b)
        } else {
            (-a) / (-b)
        }
    }
}

/// Divides `a` by `b`, truncating toward zero.
fn div_trunc(a: i32, b: i32) -> (r: i32)
    requires
        div_ok(a, b),
    ensures
        r == trunc_div(a as int, b as int),
{
    let aa: i64 = a as i64;
    let bb: i64 = b as i64;
    let na: i64 = if aa >= 0 { aa } else { -aa };
    let nb: i64 = if bb > 0 { bb } else { -bb };
    assert(0 <= na / nb <= na) by (nonlinear_arith)
        requires
            na >= 0,
            nb > 0,
    ;
    assert(nb > 1 ==> na / nb < na || na == 0) by (nonlinear_arith)
        requires
            na >= 0,
            nb > 0,
    ;
    let m: i64 = na / nb;
    let q: i64 = if (aa >= 0) == (bb > 0) { m } else { -m };
    q as i32
}

impl Point3 {
    /// Creates a point from its three coordinates.
    pub fn new(x: i32, y: i32, z: i32) -> (p: Point3)
        ensures
            p.x == x,
            p.y == y,
            p.z == z,
    {
        Point3 { x, y, z }
    }
}

impl core::ops::Add<Point3> for Point3 {
    type Output = Point3;

    /// Adds two points coordinate by coordinate.
    fn add(self, rhs: Point3) -> (r: Point3) {
        Point3 { x: self.x + rhs.x, y: self.y + rhs.y, z: self.z + rhs.z }
    }
}

impl vstd::std_specs::ops::AddSpecImpl<Point3> for Point3 {
    open spec fn obeys_add_spec() -> bool {
        true
    }

    open spec fn add_req(self, rhs: Point3) -> bool {
        fits_i32(self.x + rhs.x) && fits_i32(self.y + rhs.y) && fits_i32(self.z + rhs.z)
    }

    open spec fn add_spec(self, rhs: Point3) -> Point3 {
        Point3 {
            x: (self.x + rhs.x) as i32,
            y: (self.y + rhs.y) as i32,
            z: (self.z + rhs.z) as i32,
        }
    }
}

impl core::ops::Add<i32> for Point3 {
    type Output = Point3;

    /// Adds the same amount to every coordinate.
    fn add(self, rhs: i32) -> (r: Point3) {
        Point3 { x: self.x + rhs, y: self.y + rhs, z: self.z + rhs }
    }
}

impl vstd::std_specs::ops::AddSpecImpl<i32> for Point3 {
    open spec fn obeys_add_spec() -> bool {
        true
    }

    open spec fn add_req(self, rhs: i32) -> bool {
        fits_i32(self.x + rhs) && fits_i32(self.y + rhs) && fits_i32(self.z + rhs)
    }

    open spec fn add_spec(self, rhs: i32) -> Point3 {
        Point3 { x: (self.x + rhs) as i32, y: (self.y + rhs) as i32, z: (self.z + rhs) as i32 }
    }
}

impl core::ops::Sub<Point3> for Point3 {
    type Output = Point3;

    /// Subtracts two points coordinate by coordinate.
    fn sub(self, rhs: Point3) -> (r: Point3) {
        Point3 { x: self.x - rhs.x, y: self.y - rhs.y, z: self.z - rhs.z }
    }
}

impl vstd::std_specs::ops::SubSpecImpl<Point3> for Point3 {
    open spec fn obeys_sub_spec() -> bool {
        true
    }

    open spec fn sub_req(self, rhs: Point3) -> bool {
        fits_i32(self.x - rhs.x) && fits_i32(self.y - rhs.y) && fits_i32(self.z - rhs.z)
    }

    open spec fn sub_spec(self, rhs: Point3) -> Point3 {
        Point3 {
            x: (self.x - rhs.x) as i32,
            y: (self.y - rhs.y) as i32,
            z: (self.z - rhs.z) as i32,
        }
    }
}

impl core::ops::Sub<i32> for Point3 {
    type Output = Point3;

    /// Subtracts the same amount from every coordinate.
    fn sub(self, rhs: i32) -> (r: Point3) {
        Point3 { x: self.x - rhs, y: self.y - rhs, z: self.z - rhs }
    }
}

impl vstd::std_specs::ops::SubSpecImpl<i32> for Point3 {
    open spec fn obeys_sub_spec() -> bool {
        true
    }

    open spec fn sub_req(self, rhs: i32) -> bool {
        fits_i32(self.x - rhs) && fits_i32(self.y - rhs) && fits_i32(self.z - rhs)
    }

    open spec fn sub_spec(self, rhs: i32) -> Point3 {
        Point3 { x: (self.x - rhs) as i32, y: (self.y - rhs) as i32, z: (self.z - rhs) as i32 }
    }
}

impl core::ops::Mul<Point3> for Point3 {
    type Output = Point3;

    /// Multiplies two points coordinate by coordinate.
    fn mul(self, rhs: Point3) -> (r: Point3) {
        Point3 { x: self.x * rhs.x, y: self.y * rhs.y, z: self.z * rhs.z }
    }
}

impl vstd::std_specs::ops::MulSpecImpl<Point3> for Point3 {
    open spec fn obeys_mul_spec() -> bool {
        true
    }

    open spec fn mul_req(self, rhs: Point3) -> bool {
        fits_i32(self.x * rhs.x) && fits_i32(self.y * rhs.y) && fits_i32(self.z * rhs.z)
    }

    open spec fn mul_spec(self, rhs: Point3) -> Point3 {
        Point3 {
            x: (self.x * rhs.x) as i32,
            y: (self.y * rhs.y) as i32,
            z: (self.z * rhs.z) as i32,
        }
    }
}

impl core::ops::Mul<i32> for Point3 {
    type Output = Point3;

    /// Multiplies every coordinate by the same factor.
    fn mul(self, rhs: i32) -> (r: Point3) {
        Point3 { x: self.x * rhs, y: self.y * rhs, z: self.z * rhs }
    }
}

impl vstd::std_specs::ops::MulSpecImpl<i32> for Point3 {
    open spec fn obeys_mul_spec() -> bool {
        true
    }

    open spec fn mul_req(self, rhs: i32) -> bool {
        fits_i32(self.x * rhs) && fits_i32(self.y * rhs) && fits_i32(self.z * rhs)
    }

    open spec fn mul_spec(self, rhs: i32) -> Point3 {
        Point3 { x: (self.x * rhs) as i32, y: (self.y * rhs) as i32, z: (self.z * rhs) as i32 }
    }
}

/// True when `a / b` on `i32` neither divides by zero nor overflows.
pub open spec fn div_ok(a: i32, b: i32) -> bool {
    b != 0 && !(a == i32::MIN && b == -1)
}

impl core::ops::Div<Point3> for Point3 {
    type Output = Point3;

    /// Divides two points coordinate by coordinate, truncating toward zero.
    fn div(self, rhs: Point3) -> (r: Point3) {
        Point3 {
            x: div_trunc(self.x, rhs.x),
            y: div_trunc(self.y, rhs.y),
            z: div_trunc(self.z, rhs.z),
        }
    }
}

impl vstd::std_specs::ops::DivSpecImpl<Point3> for Point3 {
    open spec fn obeys_div_spec() -> bool {
        true
    }

    open spec fn div_req(self, rhs: Point3) -> bool {
        div_ok(self.x, rhs.x) && div_ok(self.y, rhs.y) && div_ok(self.z, rhs.z)
    }

    open spec fn div_spec(self, rhs: Point3) -> Point3 {
        Point3 {
            x: trunc_div(self.x as int, rhs.x as int) as i32,
            y: trunc_div(self.y as int, rhs.y as int) as i32,
            z: trunc_div(self.z as int, rhs.z as int) as i32,
        }
    }
}

impl core::ops::Div<i32> for Point3 {
    type Output = Point3;

    /// Divides every coordinate by the same divisor, truncating toward zero.
    fn div(self, rhs: i32) -> (r: Point3) {
        Point3 { x: div_trunc(self.x, rhs), y: div_trunc(self.y, rhs), z: div_trunc(self.z, rhs) }
    }
}

impl vstd::std_specs::ops::DivSpecImpl<i32> for Point3 {
    open spec fn obeys_div_spec() -> bool {
        true
    }

    open spec fn div_req(self, rhs: i32) -> bool {
        div_ok(self.x, rhs) && div_ok(self.y, rhs) && div_ok(self.z, rhs)
    }

    open spec fn div_spec(self, rhs: i32) -> Point3 {
        Point3 {
            x: trunc_div(self.x as int, rhs as int) as i32,
            y: trunc_div(self.y as int, rhs as int) as i32,
            z: trunc_div(self.z as int, rhs as int) as i32,
        }
    }
}

/// A cell of the world grid.
#[derive(Eq, PartialEq, Structural, Copy, Clone, Debug)]
pub struct Position {
    pub x: i32,
    pub y: i32,
}

impl Position {
    /// Creates a position from its coordinates.
    pub fn new(x: i32, y: i32) -> (p: Position)
        ensures
            p.x == x,
            p.y == y,
    {
        Position { x, y }
    }
}

/// One of the eight compass directions, or no direction at all.
#[derive(Eq, PartialEq, Structural, Copy, Clone, Debug)]
pub enum Dir {
    N,
    S,
    E,
    W,
    NW,
    SW,
    NE,
    SE,
    Nowhere,
}

/// The grid offset of one step in direction `d`; north is negative `y`.
pub open spec fn dir_delta(d: Dir) -> (int, int) {
    match d {
        Dir::N => (0, -1),
        Dir::S => (0, 1),
        Dir::E => (1, 0),
        Dir::W => (-1, 0),
        Dir::NW => (-1, -1),
        Dir::NE => (1, -1),
        Dir::SW => (-1, 1),
        Dir::SE => (1, 1),
        Dir::Nowhere => (0, 0),
    }
}

/// The direction whose step is the offset `(dx, dy)`; any other offset is no direction.
pub open spec fn delta_dir(dx: int, dy: int) -> Dir {
    if dx == 0 && dy == -1 {
        Dir::N
    } else if dx == 0 && dy == 1 {
        Dir::S
    } else if dx == 1 && dy == 0 {
        Dir::E
    } else if dx == -1 && dy == 0 {
        Dir::W
    } else if dx == -1 && dy == -1 {
        Dir::NW
    } else if dx == 1 && dy == -1 {
        Dir::NE
    } else if dx == -1 && dy == 1 {
        Dir::SW
    } else if dx == 1 && dy == 1 {
        Dir::SE
    } else {
        Dir::Nowhere
    }
}

impl Dir {
    /// The offset of one step in direction `dir`.
    pub fn dir_to_pos(dir: Dir) -> (r: (i32, i32))
        ensures
            (r.0 as int, r.1 as int) == dir_delta(dir),
    {
        match dir {
            Dir::N => (0, -1),
            Dir::S => (0, 1),
            Dir::E => (1, 0),
            Dir::W => (-1, 0),
            Dir::NW => (-1, -1),
            Dir::NE => (1, -1),
            Dir::SW => (-1, 1),
            Dir::SE => (1, 1),
            Dir::Nowhere => (0, 0),
        }
    }

    /// The direction of a unit offset; `Nowhere` for any offset that is not one step.
    pub fn pos_to_dir(pos: (i32, i32)) -> (d: Dir)
        ensures
            d == delta_dir(pos.0 as int, pos.1 as int),
    {
        match pos {
            (0, -1) => Dir::N,
            (0, 1) => Dir::S,
            (1, 0) => Dir::E,
            (-1, 0) => Dir::W,
            (-1, -1) => Dir::NW,
            (1, -1) => Dir::NE,
            (-1, 1) => Dir::SW,
            (1, 1) => Dir::SE,
            _ => Dir::Nowhere,
        }
    }
}

/// Turning a direction into its offset and back gives the same direction.
pub proof fn lemma_dir_round_trip(d: Dir)
    ensures
        delta_dir(dir_delta(d).0, dir_delta(d).1) == d,
{
}

/// A step whose offset is one cell or less in both axes maps to the direction of that offset.
pub proof fn lemma_adjacent_offset_round_trip(dx: int, dy: int)
    requires
        -1 <= dx <= 1,
        -1 <= dy <= 1,
    ensures
        dir_delta(delta_dir(dx, dy)) == (dx, dy),
{
}

} // verus!
