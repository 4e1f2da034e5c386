//! Hex coordinates on a grid of pointy-topped hexagons.
//!
//! Axial coordinates (q, r) are stored as cube coordinates (x, y) with
//! q == x and r == z == -x - y. Incrementing q moves east (right),
//! incrementing r moves south-east (down-right).
use vstd::prelude::*;

verus! {

/// Euclidean remainder of `i` by 6, always in `0..6`.
pub open spec fn mod6(i: int) -> int {
    i % 6
}

/// One of the six directions, by compass name (pointy-topped hexagons),
/// listed in clockwise order starting at north-west.
#[derive(Clone, Copy, PartialEq, Eq, Debug, Structural)]
pub enum Direction {
    NorthWest,
    NorthEast,
    East,
    SouthEast,
    SouthWest,
    West,
}

/// A rotation relative to a direction, in clockwise steps of 60 degrees.
#[derive(Clone, Copy, PartialEq, Eq, Debug, Structural)]
pub enum Angle {
    Forward,
    Right,
    RightBack,
    Back,
    LeftBack,
    Left,
}

impl Angle {
    /// Number of clockwise 60-degree steps.
    pub open spec fn idx(self) -> int {
        match self {
            Angle::Forward => 0,
            Angle::Right => 1,
            Angle::RightBack => 2,
            Angle::Back => 3,
            Angle::LeftBack => 4,
            Angle::Left => 5,
        }
    }

    pub fn steps(self) -> (r: usize)
        ensures
            r == self.idx(),
    {
        match self {
            Angle::Forward => 0,
            Angle::Right => 1,
            Angle::RightBack => 2,
            Angle::Back => 3,
            Angle::LeftBack => 4,
            Angle::Left => 5,
        }
    }
}

impl Direction {
    /// The position of the direction in clockwise order, starting at north-west.
    pub open spec fn idx(self) -> int {
        match self {
            Direction::NorthWest => 0,
            Direction::NorthEast => 1,
            Direction::East => 2,
            Direction::SouthEast => 3,
            Direction::SouthWest => 4,
            Direction::West => 5,
        }
    }

    /// The direction at clockwise position `i` (taken modulo 6).
    pub open spec fn from_idx(i: int) -> Direction {
        let m = mod6(i);
        if m == 0 {
            Direction::NorthWest
        } else if m == 1 {
            Direction::NorthEast
        } else if m == 2 {
            Direction::East
        } else if m == 3 {
            Direction::SouthEast
        } else if m == 4 {
            Direction::SouthWest
        } else {
            Direction::West
        }
    }

    /// The opposite direction.
    pub open spec fn opposite(self) -> Direction {
        Direction::from_idx(self.idx() + 3)
    }

    /// The direction reached by turning clockwise by `a`.
    pub open spec fn turned(self, a: Angle) -> Direction {
        Direction::from_idx(self.idx() + a.idx())
    }

    /// Step along the x axis of the cube coordinates.
    pub open spec fn dx(self) -> int {
        match self {
            Direction::NorthWest => 0,
            Direction::NorthEast => 1,
            Direction::East => 1,
            Direction::SouthEast => 0,
            Direction::SouthWest => -1,
            Direction::West => -1,
        }
    }

    /// Step along the y axis of the cube coordinates.
    pub open spec fn dy(self) -> int {
        match self {
            Direction::NorthWest => 1,
            Direction::NorthEast => 0,
            Direction::East => -1,
            Direction::SouthEast => -1,
            Direction::SouthWest => 0,
            Direction::West => 1,
        }
    }

    pub open spec fn short_name(self) -> Seq<char> {
        match self {
            Direction::NorthWest => "NW"@,
            Direction::NorthEast => "NE"@,
            Direction::East => "E"@,
            Direction::SouthEast => "SE"@,
            Direction::SouthWest => "SW"@,
            Direction::West => "W"@,
        }
    }

    pub open spec fn long_name(self) -> Seq<char> {
        match self {
            Direction::NorthWest => "NorthWest"@,
            Direction::NorthEast => "NorthEast"@,
            Direction::East => "East"@,
            Direction::SouthEast => "SouthEast"@,
            Direction::SouthWest => "SouthWest"@,
            Direction::West => "West"@,
        }
    }

    pub proof fn lemma_idx_range(self)
        ensures
            0 <= self.idx() < 6,
            Direction::from_idx(self.idx()) == self,
    {
    }

    pub proof fn lemma_from_idx(i: int)
        ensures
            Direction::from_idx(i).idx() == mod6(i),
    {
    }

    /// The position in clockwise order, as used to index neighbour arrays.
    pub fn index(self) -> (r: usize)
        ensures
            r == self.idx(),
    {
        match self {
            Direction::NorthWest => 0,
            Direction::NorthEast => 1,
            Direction::East => 2,
            Direction::SouthEast => 3,
            Direction::SouthWest => 4,
            Direction::West => 5,
        }
    }

    /// The direction at position `i` in clockwise order.
    pub fn from_index(i: usize) -> (r: Direction)
        requires
            i < 6,
        ensures
            r.idx() == i,
            r == Direction::from_idx(i as int),
    {
        match i {
            0 => Direction::NorthWest,
            1 => Direction::NorthEast,
            2 => Direction::East,
            3 => Direction::SouthEast,
            4 => Direction::SouthWest,
            _ => Direction::West,
        }
    }

    /// All six directions, clockwise from north-west.
    pub fn all() -> (r: [Direction; 6])
        ensures
            r@.len() == 6,
            forall|i: int| 0 <= i < 6 ==> (#[trigger] r@[i]).idx() == i,
            forall|i: int| 0 <= i < 6 ==> #[trigger] r@[i] == Direction::from_idx(i),
    {
        [
            Direction::NorthWest,
            Direction::NorthEast,
            Direction::East,
            Direction::SouthEast,
            Direction::SouthWest,
            Direction::West,
        ]
    }

    pub fn name_short(&self) -> (r: &'static str)
        ensures
            r@ == self.short_name(),
    {
        proof {
            reveal_strlit("NW");
            reveal_strlit("NE");
            reveal_strlit("E");
            reveal_strlit("SE");
            reveal_strlit("SW");
            reveal_strlit("W");
        }
        match self {
            Direction::NorthWest => "NW",
            Direction::NorthEast => "NE",
            Direction::East => "E",
            Direction::SouthEast => "SE",
            Direction::SouthWest => "SW",
            Direction::West => "W",
        }
    }

    pub fn name_long(&self) -> (r: &'static str)
        ensures
            r@ == self.long_name(),
    {
        match self {
            Direction::NorthWest => "NorthWest",
            Direction::NorthEast => "NorthEast",
            Direction::East => "East",
            Direction::SouthEast => "SouthEast",
            Direction::SouthWest => "SouthWest",
            Direction::West => "West",
        }
    }

    /// The direction at clockwise position `i`, wrapping around (Euclidean remainder).
    pub fn from_int(i: i32) -> (r: Direction)
        ensures
            r.idx() == mod6(i as int),
            r == Direction::from_idx(i as int),
    {
        let m: i32 = if i >= 0 {
            i % 6
        } else {
            let k: i32 = (-(i + 1)) % 6;
            5 - k
        };
        assert(m == mod6(i as int));
        Direction::from_index(m as usize)
    }

    /// The direction at position `value`, if `value` is in `0..6`.
    pub fn try_from_int(value: i32) -> (r: Option<Direction>)
        ensures
            r is Some <==> 0 <= value < 6,
            r matches Some(d) ==> d.idx() == value,
            0 <= value < 6 ==> r == Some(Direction::from_idx(value as int)),
    {
        if 0 <= value && value < 6 {
            Some(Direction::from_index(value as usize))
        } else {
            None
        }
    }

    /// The opposite direction.
    pub fn neg(self) -> (r: Direction)
        ensures
            r == self.opposite(),
            r.idx() == mod6(self.idx() + 3),
    {
        match self {
            Direction::NorthWest => Direction::SouthEast,
            Direction::NorthEast => Direction::SouthWest,
            Direction::East => Direction::West,
            Direction::SouthEast => Direction::NorthWest,
            Direction::SouthWest => Direction::NorthEast,
            Direction::West => Direction::East,
        }
    }

    /// Turn clockwise by the angle `a`.
    pub fn add_angle(self, a: Angle) -> (r: Direction)
        ensures
            r == self.turned(a),
            r.idx() == mod6(self.idx() + a.idx()),
    {
        let i = self.index() + a.steps();
        let m = if i >= 6 {
            i - 6
        } else {
            i
        };
        Direction::from_index(m)
    }
}

/// The opposite of the opposite direction is the direction itself.
pub proof fn lemma_opposite_involution(d: Direction)
    ensures
        d.opposite().opposite() == d,
        d.opposite() != d,
        d.opposite().dx() == -d.dx(),
        d.opposite().dy() == -d.dy(),
{
}

/// A step is undone by exactly one direction: the step along `e` takes a
/// hex back to where the step along `d` came from if and only if `e` is the
/// opposite of `d`.
pub proof fn lemma_step_undone_only_by_opposite(d: Direction, e: Direction)
    ensures
        (e.dx() == -d.dx() && e.dy() == -d.dy()) <==> e == d.opposite(),
{
}

/// Turning by `Back` gives the opposite direction; turning by `Forward`
/// changes nothing; turning right then left gets back to the start.
pub proof fn lemma_turns(d: Direction)
    ensures
        d.turned(Angle::Back) == d.opposite(),
        d.turned(Angle::Forward) == d,
        d.turned(Angle::Right).turned(Angle::Left) == d,
{
}

/// Cube coordinates (x, y), with the third coordinate z == -x - y implied.
#[derive(Clone, Copy, PartialEq, Eq, Debug, Hash, Structural)]
pub struct Cube {
    pub x: i32,
    pub y: i32,
}

pub open spec fn fits_i32(v: int) -> bool {
    i32::MIN <= v <= i32::MAX
}

pub open spec fn abs_int(v: int) -> int {
    if v < 0 {
        -v
    } else {
        v
    }
}

impl Cube {
    /// The implied third coordinate.
    pub open spec fn spec_z(self) -> int {
        -(self.x as int) - (self.y as int)
    }

    /// Hex distance between two positions.
    pub open spec fn spec_distance(self, c: Cube) -> int {
        (abs_int(self.x - c.x) + abs_int(self.y - c.y) + abs_int(self.spec_z() - c.spec_z())) / 2
    }

    pub fn new(x: i32, y: i32) -> (r: Cube)
        ensures
            r.x == x,
            r.y == y,
    {
        Cube { x, y }
    }

    /// The third coordinate, z == -x - y (the axial row).
    pub fn z(&self) -> (r: i32)
        requires
            fits_i32(self.spec_z()),
        ensures
            r == self.spec_z(),
    {
        (-(self.x as i64) - self.y as i64) as i32
    }

    /// Componentwise sum.
    pub fn add(self, c: Cube) -> (r: Cube)
        requires
            fits_i32(self.x + c.x),
            fits_i32(self.y + c.y),
        ensures
            r.x == self.x + c.x,
            r.y == self.y + c.y,
    {
        Cube { x: self.x + c.x, y: self.y + c.y }
    }

    /// Componentwise difference.
    pub fn sub(self, c: Cube) -> (r: Cube)
        requires
            fits_i32(self.x - c.x),
            fits_i32(self.y - c.y),
        ensures
            r.x == self.x - c.x,
            r.y == self.y - c.y,
    {
        Cube { x: self.x - c.x, y: self.y - c.y }
    }

    /// The unit step in direction `d`.
    pub fn from_direction(d: Direction) -> (r: Cube)
        ensures
            r.x == d.dx(),
            r.y == d.dy(),
    {
        match d {
            Direction::NorthWest => Cube { x: 0, y: 1 },
            Direction::NorthEast => Cube { x: 1, y: 0 },
            Direction::East => Cube { x: 1, y: -1 },
            Direction::SouthEast => Cube { x: 0, y: -1 },
            Direction::SouthWest => Cube { x: -1, y: 0 },
            Direction::West => Cube { x: -1, y: 1 },
        }
    }

    /// The neighbouring position in direction `d`.
    pub fn add_direction(self, d: Direction) -> (r: Cube)
        requires
            fits_i32(self.x + d.dx()),
            fits_i32(self.y + d.dy()),
        ensures
            r.x == self.x + d.dx(),
            r.y == self.y + d.dy(),
    {
        self.add(Cube::from_direction(d))
    }

    /// The neighbouring position opposite to direction `d`.
    pub fn sub_direction(self, d: Direction) -> (r: Cube)
        requires
            fits_i32(self.x - d.dx()),
            fits_i32(self.y - d.dy()),
        ensures
            r.x == self.x - d.dx(),
            r.y == self.y - d.dy(),
    {
        self.add(Cube::from_direction(d.neg()))
    }

    /// Hex distance (number of steps between the two positions).
    pub fn distance(&self, c: Cube) -> (r: i32)
        requires
            self.spec_distance(c) <= i32::MAX,
        ensures
            r == self.spec_distance(c),
    {
        let dx: i64 = self.x as i64 - c.x as i64;
        let dy: i64 = self.y as i64 - c.y as i64;
        let dz: i64 = -dx - dy;
        let ax: i64 = if dx < 0 {
            -dx
        } else {
            dx
        };
        let ay: i64 = if dy < 0 {
            -dy
        } else {
            dy
        };
        let az: i64 = if dz < 0 {
            -dz
        } else {
            dz
        };
        ((ax + ay + az) / 2) as i32
    }
}

/// Stepping in a direction and back returns to the start.
pub proof fn lemma_step_and_back(p: Cube, d: Direction)
    ensures
        p.x + d.dx() + d.opposite().dx() == p.x,
        p.y + d.dy() + d.opposite().dy() == p.y,
{
}

/// Distance is symmetric, zero exactly from a position to itself, and one
/// between neighbours.
pub proof fn lemma_distance(p: Cube, c: Cube, d: Direction)
    ensures
        p.spec_distance(c) == c.spec_distance(p),
        p.spec_distance(c) >= 0,
        p.spec_distance(c) == 0 <==> p == c,
        fits_i32(p.x + d.dx()) && fits_i32(p.y + d.dy()) ==> p.spec_distance(
            Cube { x: (p.x + d.dx()) as i32, y: (p.y + d.dy()) as i32 },
        ) == 1,
{
}

/// Offset coordinates ("odd-r"), used to render a rectangular view.
#[derive(Clone, Copy, PartialEq, Eq, Hash, Debug, Ord, PartialOrd, Structural)]
pub struct Offset {
    pub col: i32,
    pub row: i32,
}

/// Cube x coordinate of an offset position (floor division of the row).
pub open spec fn offset_x(col: int, row: int) -> int {
    col - row / 2
}

/// Offset column of a cube position.
pub open spec fn cube_col(x: int, z: int) -> int {
    x + z / 2
}

/// Whether an offset position has cube coordinates that fit in `i32`.
pub open spec fn offset_fits(p: Offset) -> bool {
    fits_i32(offset_x(p.col as int, p.row as int)) && fits_i32(
        -offset_x(p.col as int, p.row as int) - p.row,
    )
}

/// Floor of `v / 2`.
fn half_floor(v: i32) -> (r: i64)
    ensures
        r == (v as int) / 2,
{
    if v >= 0 {
        (v / 2) as i64
    } else {
        -((1 - v as i64) / 2)
    }
}

impl Cube {
    /// Convert from offset coordinates (odd-r).
    pub fn from_offset(p: Offset) -> (r: Cube)
        requires
            offset_fits(p),
        ensures
            r.x == offset_x(p.col as int, p.row as int),
            r.spec_z() == p.row,
    {
        let x: i64 = p.col as i64 - half_floor(p.row);
        let z: i64 = p.row as i64;
        let y: i64 = -x - z;
        Cube { x: x as i32, y: y as i32 }
    }
}

impl Offset {
    /// Convert from cube coordinates to offset coordinates (odd-r).
    pub fn from_cube(p: Cube) -> (r: Offset)
        requires
            fits_i32(p.spec_z()),
            fits_i32(cube_col(p.x as int, p.spec_z())),
        ensures
            r.col == cube_col(p.x as int, p.spec_z()),
            r.row == p.spec_z(),
    {
        let z = p.z();
        let col: i64 = p.x as i64 + half_floor(z);
        Offset { col: col as i32, row: z }
    }
}

/// Converting offset coordinates to cube coordinates and back is the identity.
pub proof fn lemma_offset_roundtrip(p: Offset)
    ensures
        ({
            let x = offset_x(p.col as int, p.row as int);
            cube_col(x, p.row as int) == p.col
        }),
{
}

/// Converting cube coordinates to offset coordinates and back is the identity.
pub proof fn lemma_cube_roundtrip(p: Cube)
    ensures
        offset_x(cube_col(p.x as int, p.spec_z()), p.spec_z()) == p.x,
{
}

/// A rectangle, used for rendering in offset coordinates.
#[derive(Clone, Copy)]
pub struct Rectangle {
    pub pos: Cube,
    pub width: i32,
    pub height: i32,
}

/// Cube x of the position at (col, row) of a rectangle.
pub open spec fn rect_x(pos: Cube, col: int, row: int) -> int {
    pos.x + offset_x(col, row)
}

/// Cube y of the position at (col, row) of a rectangle.
pub open spec fn rect_y(pos: Cube, col: int, row: int) -> int {
    pos.y + (-offset_x(col, row) - row)
}

/// Whether every position of the rectangle has coordinates that fit in `i32`.
pub open spec fn rect_fits(rect: Rectangle) -> bool {
    &&& forall|col: int, row: int|
        0 <= col < rect.width && 0 <= row < rect.height ==> fits_i32(
            #[trigger] rect_x(rect.pos, col, row),
        )
    &&& forall|col: int, row: int|
        0 <= col < rect.width && 0 <= row < rect.height ==> fits_i32(
            #[trigger] rect_y(rect.pos, col, row),
        )
}

/// All positions of a rectangle in offset coordinates, row by row.
pub fn iterate_rectangle(rect: Rectangle) -> (r: Vec<Cube>)
    requires
        rect.width >= 0,
        rect.height >= 0,
        rect.height * rect.width <= usize::MAX,
        rect_fits(rect),
    ensures
        r@.len() == rect.height * rect.width,
        forall|row: int, col: int|
            0 <= row < rect.height && 0 <= col < rect.width ==> {
                let c = #[trigger] r@[row * rect.width + col];
                c.x == rect_x(rect.pos, col, row) && c.y == rect_y(rect.pos, col, row)
            },
{
    let mut out: Vec<Cube> = Vec::new();
    let mut row: i32 = 0;
    while row < rect.height
        invariant
            0 <= row <= rect.height,
            rect.width >= 0,
            rect_fits(rect),
            out@.len() == row * rect.width,
            forall|r: int, c: int|
                0 <= r < row && 0 <= c < rect.width ==> {
                    let p = #[trigger] out@[r * rect.width + c];
                    p.x == rect_x(rect.pos, c, r) && p.y == rect_y(rect.pos, c, r)
                },
        decreases rect.height - row,
    {
        let mut col: i32 = 0;
        while col < rect.width
            invariant
                0 <= row < rect.height,
                0 <= col <= rect.width,
                rect_fits(rect),
                out@.len() == row * rect.width + col,
                forall|r: int, c: int|
                    (0 <= r < row && 0 <= c < rect.width) || (r == row && 0 <= c < col) ==> {
                        let p = #[trigger] out@[r * rect.width + c];
                        p.x == rect_x(rect.pos, c, r) && p.y == rect_y(rect.pos, c, r)
                    },
            decreases rect.width - col,
        {
            assert(fits_i32(rect_x(rect.pos, col as int, row as int)));
            assert(fits_i32(rect_y(rect.pos, col as int, row as int)));
            let x: i64 = rect.pos.x as i64 + (col as i64 - half_floor(row));
            let y: i64 = rect.pos.y as i64 + (-(col as i64 - half_floor(row)) - row as i64);
            let ghost old_out = out@;
            out.push(Cube { x: x as i32, y: y as i32 });
            proof {
                assert forall|r: int, c: int|
                    (0 <= r < row && 0 <= c < rect.width) || (r == row && 0 <= c < col + 1) implies {
                        let p = #[trigger] out@[r * rect.width + c];
                        p.x == rect_x(rect.pos, c, r) && p.y == rect_y(rect.pos, c, r)
                    } by {
                    if r < row {
                        assert(r * rect.width + c < row * rect.width) by (nonlinear_arith)
                            requires
                                r < row,
                                0 <= c < rect.width,
                        ;
                        assert(out@[r * rect.width + c] == old_out[r * rect.width + c]);
                    } else if c < col {
                        assert(out@[r * rect.width + c] == old_out[r * rect.width + c]);
                    }
                }
            }
            col = col + 1;
        }
        assert((row + 1) * rect.width == row * rect.width + rect.width) by (nonlinear_arith);
        row = row + 1;
    }
    out
}

/// Whether bit `i` of `mask` is set.
pub open spec fn has_bit(mask: u8, i: u8) -> bool {
    (mask >> i) & 1u8 == 1u8
}

/// The set of directions whose bits are set in `mask`.
pub open spec fn mask_set(mask: u8) -> Set<Direction> {
    Set::new(|d: Direction| has_bit(mask, d.idx() as u8))
}

/// Number of directions in `s`.
pub open spec fn dir_count(s: Set<Direction>) -> int {
    (if s.contains(Direction::NorthWest) { 1int } else { 0 }) + (if s.contains(
        Direction::NorthEast,
    ) {
        1int
    } else {
        0
    }) + (if s.contains(Direction::East) {
        1int
    } else {
        0
    }) + (if s.contains(Direction::SouthEast) {
        1int
    } else {
        0
    }) + (if s.contains(Direction::SouthWest) {
        1int
    } else {
        0
    }) + (if s.contains(Direction::West) {
        1int
    } else {
        0
    })
}

/// The set `s` with the memberships of `d1` and `d2` exchanged.
pub open spec fn swap_set(s: Set<Direction>, d1: Direction, d2: Direction) -> Set<Direction> {
    Set::new(
        |d: Direction|
            if d == d1 {
                s.contains(d2)
            } else if d == d2 {
                s.contains(d1)
            } else {
                s.contains(d)
            },
    )
}

/// The direction that a pure function `f` maps `d` to.
pub open spec fn transmuted_dir<F: Fn(Direction) -> Direction>(f: F, d: Direction) -> Direction {
    choose|t: Direction| f.ensures((d,), t)
}

/// A set of directions is empty exactly when it counts none.
pub proof fn lemma_count_zero(s: Set<Direction>)
    ensures
        (dir_count(s) == 0) == (s == Set::<Direction>::empty()),
{
    if dir_count(s) == 0 {
        assert forall|d: Direction| !s.contains(d) by {
            match d {
                Direction::NorthWest => {},
                Direction::NorthEast => {},
                Direction::East => {},
                Direction::SouthEast => {},
                Direction::SouthWest => {},
                Direction::West => {},
            }
        }
        assert(s =~= Set::<Direction>::empty());
    }
}

/// The set turned by `k` clockwise steps.
pub open spec fn rotated_set(s: Set<Direction>, k: int) -> Set<Direction> {
    Set::new(|d: Direction| s.contains(Direction::from_idx(d.idx() - k)))
}

/// Turning a set keeps the number of its directions.
pub proof fn lemma_rotated_count(s: Set<Direction>, k: int)
    ensures
        dir_count(rotated_set(s, k)) == dir_count(s),
{
    let r = rotated_set(s, k);
    let m = mod6(k);
    assert(forall|i: int| #[trigger] mod6(i - k) == mod6(i - m));
    assert(r.contains(Direction::NorthWest) == s.contains(Direction::from_idx(0 - k)));
    assert(r.contains(Direction::NorthEast) == s.contains(Direction::from_idx(1 - k)));
    assert(r.contains(Direction::East) == s.contains(Direction::from_idx(2 - k)));
    assert(r.contains(Direction::SouthEast) == s.contains(Direction::from_idx(3 - k)));
    assert(r.contains(Direction::SouthWest) == s.contains(Direction::from_idx(4 - k)));
    assert(r.contains(Direction::West) == s.contains(Direction::from_idx(5 - k)));
}

/// The set `s` reflected through the center: each direction replaced by its opposite.
pub open spec fn mirror_set(s: Set<Direction>) -> Set<Direction> {
    Set::new(|d: Direction| s.contains(d.opposite()))
}

proof fn lemma_bit_test(m: u8, i: u8)
    by (bit_vector)
    requires
        i < 8,
    ensures
        (m & (1u8 << i) != 0u8) == ((m >> i) & 1u8 == 1u8),
{
}

proof fn lemma_bit_set(m: u8, i: u8, j: u8)
    by (bit_vector)
    requires
        i < 8,
        j < 8,
    ensures
        (((m | (1u8 << i)) >> j) & 1u8 == 1u8) == (j == i || (m >> j) & 1u8 == 1u8),
        m < 64 && i < 6 ==> (m | (1u8 << i)) < 64,
{
}

proof fn lemma_bit_clear(m: u8, i: u8, j: u8)
    by (bit_vector)
    requires
        i < 8,
        j < 8,
    ensures
        (((m & !(1u8 << i)) >> j) & 1u8 == 1u8) == (j != i && (m >> j) & 1u8 == 1u8),
        m < 64 ==> (m & !(1u8 << i)) < 64,
{
}

proof fn lemma_bit_single(i: u8, j: u8)
    by (bit_vector)
    requires
        i < 8,
        j < 8,
    ensures
        (((1u8 << i) >> j) & 1u8 == 1u8) == (j == i),
        i < 6 ==> (1u8 << i) < 64,
{
}

proof fn lemma_bit_consts(j: u8)
    by (bit_vector)
    requires
        j < 8,
    ensures
        !((0u8 >> j) & 1u8 == 1u8),
        ((63u8 >> j) & 1u8 == 1u8) == (j < 6),
{
}

proof fn lemma_bits_low(m: u8)
    by (bit_vector)
    ensures
        (m & 192u8 == 0u8) == (m < 64),
        (m & 63u8) < 64,
        forall|j: u8| j < 6 ==> (((m & 63u8) >> j) & 1u8 == 1u8) == ((m >> j) & 1u8 == 1u8),
{
}

/// A set of directions: it can be empty or hold up to all six directions.
#[derive(Clone, Copy, PartialEq, Eq, Debug, Structural)]
pub struct DirectionSet {
    mask: u8,
}

impl View for DirectionSet {
    type V = Set<Direction>;

    closed spec fn view(&self) -> Set<Direction> {
        mask_set(self.mask)
    }
}

impl DirectionSet {
    /// Whether only the six bits of the directions may be set (every set
    /// value keeps this).
    #[verifier::type_invariant]
    pub closed spec fn canonical(self) -> bool {
        self.mask < 64
    }

    /// Two set values with the same directions are the same value.
    pub proof fn lemma_view_injective(a: DirectionSet, b: DirectionSet)
        requires
            a.canonical(),
            b.canonical(),
            a@ == b@,
        ensures
            a == b,
    {
        let (x, y) = (a.mask, b.mask);
        assert(a@.contains(Direction::NorthWest) == b@.contains(Direction::NorthWest));
        assert(a@.contains(Direction::NorthEast) == b@.contains(Direction::NorthEast));
        assert(a@.contains(Direction::East) == b@.contains(Direction::East));
        assert(a@.contains(Direction::SouthEast) == b@.contains(Direction::SouthEast));
        assert(a@.contains(Direction::SouthWest) == b@.contains(Direction::SouthWest));
        assert(a@.contains(Direction::West) == b@.contains(Direction::West));
        assert(Direction::NorthWest.idx() as u8 == 0u8);
        assert(Direction::NorthEast.idx() as u8 == 1u8);
        assert(a@ == mask_set(x) && b@ == mask_set(y));
        assert(mask_set(x).contains(Direction::NorthWest) == has_bit(x, 0u8));
        assert(mask_set(y).contains(Direction::NorthWest) == has_bit(y, 0u8));
        assert(mask_set(x).contains(Direction::NorthEast) == has_bit(x, 1u8));
        assert(mask_set(y).contains(Direction::NorthEast) == has_bit(y, 1u8));
        assert(mask_set(x).contains(Direction::East) == has_bit(x, 2u8));
        assert(mask_set(y).contains(Direction::East) == has_bit(y, 2u8));
        assert(mask_set(x).contains(Direction::SouthEast) == has_bit(x, 3u8));
        assert(mask_set(y).contains(Direction::SouthEast) == has_bit(y, 3u8));
        assert(mask_set(x).contains(Direction::SouthWest) == has_bit(x, 4u8));
        assert(mask_set(y).contains(Direction::SouthWest) == has_bit(y, 4u8));
        assert(mask_set(x).contains(Direction::West) == has_bit(x, 5u8));
        assert(mask_set(y).contains(Direction::West) == has_bit(y, 5u8));
        assert(x == y) by (bit_vector)
            requires
                x < 64,
                y < 64,
                ((x >> 0u8) & 1u8 == 1u8) == ((y >> 0u8) & 1u8 == 1u8),
                ((x >> 1u8) & 1u8 == 1u8) == ((y >> 1u8) & 1u8 == 1u8),
                ((x >> 2u8) & 1u8 == 1u8) == ((y >> 2u8) & 1u8 == 1u8),
                ((x >> 3u8) & 1u8 == 1u8) == ((y >> 3u8) & 1u8 == 1u8),
                ((x >> 4u8) & 1u8 == 1u8) == ((y >> 4u8) & 1u8 == 1u8),
                ((x >> 5u8) & 1u8 == 1u8) == ((y >> 5u8) & 1u8 == 1u8),
        ;
    }

    /// The empty set, as a value.
    pub closed spec fn none_spec() -> Self {
        DirectionSet { mask: 0 }
    }

    /// The set of one direction, as a value.
    pub closed spec fn single_spec(dir: Direction) -> Self {
        DirectionSet { mask: 1u8 << (dir.idx() as u8) }
    }

    pub fn none() -> (r: Self)
        ensures
            r@ == Set::<Direction>::empty(),
            r.bits_spec() == 0,
            r == Self::none_spec(),
    {
        proof {
            assert forall|d: Direction| !mask_set(0u8).contains(d) by {
                lemma_bit_consts(d.idx() as u8);
            }
            assert(mask_set(0u8) =~= Set::<Direction>::empty());
        }
        DirectionSet { mask: 0b00000000 }
    }

    pub fn all() -> (r: Self)
        ensures
            r@ == Set::<Direction>::full(),
    {
        proof {
            assert forall|d: Direction| mask_set(63u8).contains(d) by {
                lemma_bit_consts(d.idx() as u8);
            }
            assert(mask_set(63u8) =~= Set::<Direction>::full());
        }
        DirectionSet { mask: 0b00111111 }
    }

    /// The set whose members are given by the low six bits of `mask`
    /// (bit `i` stands for the direction at clockwise position `i`).
    pub fn from_bits(mask: u8) -> (r: Self)
        requires
            mask & 0b11000000 == 0,
        ensures
            r@ == mask_set(mask),
            r.bits_spec() == mask,
    {
        proof {
            lemma_bits_low(mask);
        }
        Self { mask }
    }

    /// The bit mask that `bits` returns.
    pub closed spec fn bits_spec(self) -> u8 {
        self.mask
    }

    pub fn bits(&self) -> (r: u8)
        ensures
            r == self.bits_spec(),
            r < 64,
            mask_set(r) == self@,
    {
        proof {
            use_type_invariant(self);
        }
        self.mask
    }

    pub fn single(dir: Direction) -> (r: Self)
        ensures
            r@ == Set::<Direction>::empty().insert(dir),
            r == Self::single_spec(dir),
    {
        let i = dir.index() as u8;
        proof {
            assert forall|d: Direction|
                mask_set(1u8 << i).contains(d) == (d == dir) by {
                lemma_bit_single(i, d.idx() as u8);
            }
            assert(mask_set(1u8 << i) =~= Set::<Direction>::empty().insert(dir));
            lemma_bit_single(i, 0);
        }
        DirectionSet { mask: 1u8 << i }
    }

    /// The set of all directions for which `contains` answers `true`.
    pub fn matching(contains: impl Fn(Direction) -> bool) -> (r: Self)
        requires
            forall|d: Direction| contains.requires((d,)),
        ensures
            forall|d: Direction| contains.ensures((d,), #[trigger] r@.contains(d)),
    {
        let mut r = DirectionSet::none();
        let mut i: usize = 0;
        let ghost mut outs: Seq<bool> = Seq::empty();
        while i < 6
            invariant
                0 <= i <= 6,
                outs.len() == i,
                forall|d: Direction| contains.requires((d,)),
                forall|d: Direction| #[trigger] r@.contains(d) ==> d.idx() < i,
                forall|j: int|
                    0 <= j < i ==> contains.ensures((Direction::from_idx(j),), #[trigger] outs[j])
                        && r@.contains(Direction::from_idx(j)) == outs[j],
            decreases 6 - i,
        {
            let d = Direction::from_index(i);
            let b = contains(d);
            let ghost old_r = r@;
            r = r.with(d, b);
            proof {
                outs = outs.push(b);
                assert forall|j: int| 0 <= j < i + 1 implies contains.ensures(
                    (Direction::from_idx(j),),
                    #[trigger] outs[j],
                ) && r@.contains(Direction::from_idx(j)) == outs[j] by {
                    if j < i {
                        assert(Direction::from_idx(j).idx() == j);
                    }
                }
            }
            i = i + 1;
        }
        proof {
            assert forall|d: Direction| contains.ensures((d,), #[trigger] r@.contains(d)) by {
                let j = d.idx();
                assert(Direction::from_idx(j) == d);
                assert(contains.ensures((Direction::from_idx(j),), outs[j]));
            }
        }
        r
    }

    pub fn contains(&self, dir: Direction) -> (r: bool)
        ensures
            r == self@.contains(dir),
    {
        let i = dir.index() as u8;
        proof {
            lemma_bit_test(self.mask, i);
        }
        self.mask & (1u8 << i) != 0
    }

    /// The set with `dir` added (if `present`) or removed (otherwise).
    pub fn with(&self, dir: Direction, present: bool) -> (r: Self)
        ensures
            r@ == (if present {
                self@.insert(dir)
            } else {
                self@.remove(dir)
            }),
    {
        proof {
            use_type_invariant(self);
        }
        let i = dir.index() as u8;
        if present {
            proof {
                lemma_bit_set(self.mask, i, 0);
                assert forall|d: Direction|
                    mask_set(self.mask | (1u8 << i)).contains(d) == self@.insert(dir).contains(
                        d,
                    ) by {
                    lemma_bit_set(self.mask, i, d.idx() as u8);
                }
                assert(mask_set(self.mask | (1u8 << i)) =~= self@.insert(dir));
            }
            DirectionSet { mask: self.mask | (1u8 << i) }
        } else {
            proof {
                lemma_bit_clear(self.mask, i, 0);
                assert forall|d: Direction|
                    mask_set(self.mask & !(1u8 << i)).contains(d) == self@.remove(dir).contains(
                        d,
                    ) by {
                    lemma_bit_clear(self.mask, i, d.idx() as u8);
                }
                assert(mask_set(self.mask & !(1u8 << i)) =~= self@.remove(dir));
            }
            DirectionSet { mask: self.mask & !(1u8 << i) }
        }
    }

    /// The set reflected through the center: each direction replaced by its opposite.
    pub fn mirrored(&self) -> (r: Self)
        ensures
            r@ == mirror_set(self@),
    {
        let mut r = DirectionSet::none();
        let mut i: usize = 0;
        while i < 6
            invariant
                0 <= i <= 6,
                forall|d: Direction|
                    #[trigger] r@.contains(d) == (d.idx() < i && self@.contains(d.opposite())),
            decreases 6 - i,
        {
            let d = Direction::from_index(i);
            r = r.with(d, self.contains(d.neg()));
            i = i + 1;
        }
        assert(r@ =~= mirror_set(self@));
        r
    }

    /// The set of directions `d` for which `transmute(d)` is in this set.
    pub fn transmuted<F: Fn(Direction) -> Direction>(&self, transmute: F) -> (r: Self)
        requires
            forall|d: Direction| transmute.requires((d,)),
            forall|d: Direction, t1: Direction, t2: Direction|
                transmute.ensures((d,), t1) && transmute.ensures((d,), t2) ==> t1 == t2,
        ensures
            forall|d: Direction| #[trigger]
                r@.contains(d) == self@.contains(transmuted_dir(transmute, d)),
    {
        let mut r = DirectionSet::none();
        let mut i: usize = 0;
        let ghost mut ts: Seq<Direction> = Seq::empty();
        while i < 6
            invariant
                0 <= i <= 6,
                ts.len() == i,
                forall|d: Direction| transmute.requires((d,)),
                forall|d: Direction| #[trigger] r@.contains(d) ==> d.idx() < i,
                forall|j: int|
                    0 <= j < i ==> transmute.ensures((Direction::from_idx(j),), #[trigger] ts[j])
                        && r@.contains(Direction::from_idx(j)) == self@.contains(ts[j]),
            decreases 6 - i,
        {
            let d = Direction::from_index(i);
            let t = transmute(d);
            r = r.with(d, self.contains(t));
            proof {
                ts = ts.push(t);
                assert forall|j: int| 0 <= j < i + 1 implies transmute.ensures(
                    (Direction::from_idx(j),),
                    #[trigger] ts[j],
                ) && r@.contains(Direction::from_idx(j)) == self@.contains(ts[j]) by {
                    if j < i {
                        assert(Direction::from_idx(j).idx() == j);
                    }
                }
            }
            i = i + 1;
        }
        proof {
            assert forall|d: Direction| #[trigger]
                r@.contains(d) == self@.contains(transmuted_dir(transmute, d)) by {
                let j = d.idx();
                assert(Direction::from_idx(j) == d);
                assert(transmute.ensures((d,), ts[j]));
                assert(transmuted_dir(transmute, d) == ts[j]);
            }
        }
        r
    }

    /// The set with the memberships of `dir1` and `dir2` exchanged.
    pub fn swapped(&self, dir1: Direction, dir2: Direction) -> (r: Self)
        ensures
            r@ == swap_set(self@, dir1, dir2),
    {
        let has1 = self.contains(dir1);
        let has2 = self.contains(dir2);
        let r = self.with(dir1, has2).with(dir2, has1);
        assert(r@ =~= swap_set(self@, dir1, dir2));
        r
    }

    /// Number of directions in the set.
    pub fn count(&self) -> (r: u8)
        ensures
            r == dir_count(self@),
    {
        let mut n: u8 = 0;
        let mut i: usize = 0;
        let ghost mut acc: int = 0;
        while i < 6
            invariant
                0 <= i <= 6,
                n <= i,
                n == count_upto(self@, i as int),
            decreases 6 - i,
        {
            if self.contains(Direction::from_index(i)) {
                n = n + 1;
            }
            i = i + 1;
        }
        assert(count_upto(self@, 6) == dir_count(self@)) by {
            reveal_with_fuel(count_upto, 7);
        }
        n
    }
}

/// Number of directions at clockwise positions below `n` that are in `s`.
pub open spec fn count_upto(s: Set<Direction>, n: int) -> int
    decreases n,
{
    if n <= 0 {
        0
    } else {
        count_upto(s, n - 1) + if s.contains(Direction::from_idx(n - 1)) {
            1int
        } else {
            0
        }
    }
}

/// Reflecting a set twice gives the set back.
pub proof fn lemma_mirror_involution(s: Set<Direction>)
    ensures
        mirror_set(mirror_set(s)) == s,
{
    assert forall|d: Direction| mirror_set(mirror_set(s)).contains(d) == s.contains(d) by {
        lemma_opposite_involution(d);
    }
    assert(mirror_set(mirror_set(s)) =~= s);
}

/// Exchanging the same two memberships twice gives the set back.
pub proof fn lemma_swap_involution(s: Set<Direction>, d1: Direction, d2: Direction)
    ensures
        swap_set(swap_set(s, d1, d2), d1, d2) == s,
        swap_set(s, d1, d2) == swap_set(s, d2, d1),
        dir_count(swap_set(s, d1, d2)) == dir_count(s),
{
    assert(swap_set(swap_set(s, d1, d2), d1, d2) =~= s);
    assert(swap_set(s, d1, d2) =~= swap_set(s, d2, d1));
}

/// Reflecting a set keeps the number of its directions.
pub proof fn lemma_mirror_count(s: Set<Direction>)
    ensures
        dir_count(mirror_set(s)) == dir_count(s),
{
}

/// The six neighbours of a cell and the cell itself.
///
/// `neighbours[i]` is the neighbour in the direction at clockwise position `i`.
#[derive(Clone, Copy)]
pub struct Neighbourhood<T: Copy> {
    pub center: T,
    pub neighbours: [T; 6],
}

impl<T: Copy> Neighbourhood<T> {
    /// The neighbours paired with their directions.
    pub fn iter_dirs(&self) -> (r: [(Direction, T); 6])
        ensures
            forall|i: int|
                0 <= i < 6 ==> #[trigger] r@[i] == (Direction::from_idx(i), self.neighbours@[i]),
    {
        [
            (Direction::NorthWest, self.neighbours[0]),
            (Direction::NorthEast, self.neighbours[1]),
            (Direction::East, self.neighbours[2]),
            (Direction::SouthEast, self.neighbours[3]),
            (Direction::SouthWest, self.neighbours[4]),
            (Direction::West, self.neighbours[5]),
        ]
    }

    /// The neighbour in direction `dir`.
    pub fn neighbour(&self, dir: Direction) -> (r: T)
        ensures
            r == self.neighbours@[dir.idx()],
    {
        self.neighbours[dir.index()]
    }

    /// Number of neighbours for which `condition` answers `true`.
    pub fn count_neighbours(&self, condition: impl Fn(T) -> bool) -> (r: i32)
        requires
            forall|t: T| condition.requires((t,)),
        ensures
            exists|bs: Seq<bool>|
                bs.len() == 6 && (forall|i: int|
                    0 <= i < 6 ==> condition.ensures((self.neighbours@[i],), #[trigger] bs[i]))
                    && r == count_true(bs),
    {
        let mut n: i32 = 0;
        let mut i: usize = 0;
        let ghost mut bs: Seq<bool> = Seq::empty();
        while i < 6
            invariant
                0 <= i <= 6,
                bs.len() == i,
                forall|t: T| condition.requires((t,)),
                forall|j: int|
                    0 <= j < i ==> condition.ensures((self.neighbours@[j],), #[trigger] bs[j]),
                n == count_true(bs),
                0 <= n <= i,
            decreases 6 - i,
        {
            let b = condition(self.neighbours[i]);
            proof {
                assert(bs.push(b).drop_last() =~= bs);
                bs = bs.push(b);
            }
            if b {
                n = n + 1;
            }
            i = i + 1;
        }
        n
    }

    /// Apply `f` to the center and to every neighbour.
    pub fn map<T2: Copy>(&self, f: impl Fn(T) -> T2) -> (r: Neighbourhood<T2>)
        requires
            forall|t: T| f.requires((t,)),
        ensures
            f.ensures((self.center,), r.center),
            forall|i: int|
                0 <= i < 6 ==> f.ensures((self.neighbours@[i],), #[trigger] r.neighbours@[i]),
            mapped_by(*self, r, |a: T, b: T2| f.ensures((a,), b)),
    {
        Neighbourhood {
            center: f(self.center),
            neighbours: [
                f(self.neighbours[0]),
                f(self.neighbours[1]),
                f(self.neighbours[2]),
                f(self.neighbours[3]),
                f(self.neighbours[4]),
                f(self.neighbours[5]),
            ],
        }
    }
}

/// Whether `m` is `nh` with each cell replaced by one that `rel` allows for
/// it: the center for the center, the neighbour in direction `i` for the
/// neighbour in direction `i`.
pub open spec fn mapped_by<T: Copy, T2: Copy>(nh: Neighbourhood<T>, m: Neighbourhood<T2>, rel: spec_fn(T, T2) -> bool) -> bool {
    &&& rel(nh.center, m.center)
    &&& forall|i: int| 0 <= i < 6 ==> #[trigger] rel(nh.neighbours@[i], m.neighbours@[i])
}

/// The relation of `a` to `c` when some `b` is related to `a` by `f` and
/// relates to `c` by `g`.
pub open spec fn composed<T, T2, T3>(f: spec_fn(T, T2) -> bool, g: spec_fn(T2, T3) -> bool) -> spec_fn(T, T3) -> bool {
    |a: T, c: T3| exists|b: T2| #[trigger] f(a, b) && g(b, c)
}

/// Mapping by a function that gives back its argument changes nothing: the
/// center and every neighbour stay, in their order.
pub proof fn lemma_map_identity<T: Copy>(nh: Neighbourhood<T>, m: Neighbourhood<T>, rel: spec_fn(T, T) -> bool)
    requires
        mapped_by(nh, m, rel),
        forall|a: T, b: T| #[trigger] rel(a, b) ==> b == a,
    ensures
        m.center == nh.center,
        m.neighbours@ == nh.neighbours@,
{
    assert forall|i: int| 0 <= i < 6 implies m.neighbours@[i] == nh.neighbours@[i] by {
        assert(rel(nh.neighbours@[i], m.neighbours@[i]));
    }
    assert(m.neighbours@ =~= nh.neighbours@);
}

/// Mapping by `f` and then by `g` is mapping by their composition: each cell
/// of the result is what `g` gives for what `f` gives for the cell in the
/// same place.
pub proof fn lemma_map_compose<T: Copy, T2: Copy, T3: Copy>(
    nh: Neighbourhood<T>,
    m1: Neighbourhood<T2>,
    m2: Neighbourhood<T3>,
    f: spec_fn(T, T2) -> bool,
    g: spec_fn(T2, T3) -> bool,
)
    requires
        mapped_by(nh, m1, f),
        mapped_by(m1, m2, g),
    ensures
        mapped_by(nh, m2, composed(f, g)),
{
    let h = composed(f, g);
    assert forall|i: int| 0 <= i < 6 implies #[trigger] h(nh.neighbours@[i], m2.neighbours@[i]) by {
        assert(f(nh.neighbours@[i], m1.neighbours@[i]));
        assert(g(m1.neighbours@[i], m2.neighbours@[i]));
    }
    assert(f(nh.center, m1.center) && g(m1.center, m2.center));
    assert(h(nh.center, m2.center));
}

/// Number of `true` entries.
pub open spec fn count_true(bs: Seq<bool>) -> int
    decreases bs.len(),
{
    if bs.len() == 0 {
        0
    } else {
        count_true(bs.drop_last()) + if bs.last() {
            1int
        } else {
            0
        }
    }
}

impl<T: Copy> Neighbourhood<Option<T>> {
    /// The neighbourhood of values, if the center and all neighbours hold a value.
    pub fn valid_only(&self) -> (r: Option<Neighbourhood<T>>)
        ensures
            r is Some <==> (self.center is Some && forall|i: int|
                0 <= i < 6 ==> #[trigger] self.neighbours@[i] is Some),
            r matches Some(n) ==> Some(n.center) == self.center && forall|i: int|
                0 <= i < 6 ==> Some(#[trigger] n.neighbours@[i]) == self.neighbours@[i],
    {
        match (
            self.center,
            self.neighbours[0],
            self.neighbours[1],
            self.neighbours[2],
            self.neighbours[3],
            self.neighbours[4],
            self.neighbours[5],
        ) {
            (Some(c), Some(n0), Some(n1), Some(n2), Some(n3), Some(n4), Some(n5)) => {
                let r = Neighbourhood { center: c, neighbours: [n0, n1, n2, n3, n4, n5] };
                assert(forall|i: int|
                    0 <= i < 6 ==> Some(#[trigger] r.neighbours@[i]) == self.neighbours@[i]);
                Some(r)
            },
            _ => {
                assert(!(self.center is Some && self.neighbours@[0] is Some && self.neighbours@[1] is Some
                    && self.neighbours@[2] is Some && self.neighbours@[3] is Some
                    && self.neighbours@[4] is Some && self.neighbours@[5] is Some));
                None
            },
        }
    }
}

} // verus!
