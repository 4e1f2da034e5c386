//! A hexagon-shaped map of a given radius, stored in an `AxialTile` with a
//! border of at least one cell all around it.
use vstd::prelude::*;

use crate::axial_tile::{lemma_dims, pos_of_index, AxialTile};
use crate::coords::{Cube, Rectangle};
use crate::rng::SimRng;

verus! {

/// Largest absolute coordinate that a location can hold.
pub open spec fn loc_bound() -> int {
    0x100000
}

/// Largest radius of a map that fits in an `AxialTile`.
pub open spec fn radius_ok(radius: int) -> bool {
    -1 <= radius && (2 * radius + 3) * (2 * radius + 3) <= i32::MAX
}

/// Where a cell lies, relative to the center of a hexagon-shaped map.
pub struct Location {
    from_center: Cube,
    radius: i32,
}

impl Location {
    #[verifier::type_invariant]
    spec fn inv(self) -> bool {
        &&& -loc_bound() <= self.from_center.x <= loc_bound()
        &&& -loc_bound() <= self.from_center.y <= loc_bound()
        &&& -loc_bound() <= self.radius <= loc_bound()
    }

    /// Offset of the cell from the center of the map.
    pub closed spec fn offset(self) -> Cube {
        self.from_center
    }

    /// Radius of the map.
    pub closed spec fn spec_radius(self) -> int {
        self.radius as int
    }

    pub fn dist_from_center(&self) -> (r: i32)
        ensures
            r == self.offset().spec_distance(Cube { x: 0, y: 0 }),
    {
        proof {
            use_type_invariant(self);
        }
        self.from_center.distance(Cube::new(0, 0))
    }

    pub fn dist_from_border(&self) -> (r: i32)
        ensures
            r == self.spec_radius() - self.offset().spec_distance(Cube { x: 0, y: 0 }),
    {
        proof {
            use_type_invariant(self);
        }
        self.radius - self.dist_from_center()
    }

    pub fn dist_from_top(&self) -> (r: i32)
        ensures
            r == self.offset().spec_z() + self.spec_radius(),
    {
        proof {
            use_type_invariant(self);
        }
        self.from_center.z() + self.radius
    }

    pub fn dist_from_bottom(&self) -> (r: i32)
        ensures
            r == self.spec_radius() - self.offset().spec_z(),
    {
        proof {
            use_type_invariant(self);
        }
        self.radius - self.from_center.z()
    }
}

/// Size and center of the storage of a map.
struct TileGeometry {
    width: i32,
    height: i32,
    center: Cube,
}

/// Side length of the storage of a map of radius `radius`.
pub open spec fn side(radius: int) -> int {
    2 * (radius + 1) + 1
}

/// The center of a map of radius `radius`.
pub open spec fn center_spec(radius: int) -> Cube {
    Cube { x: (radius + 1) as i32, y: (-2 * (radius + 1)) as i32 }
}

/// The location of the cell at `pos` of a map of radius `radius`.
pub closed spec fn location_at(radius: int, pos: Cube) -> Location {
    Location {
        from_center: Cube {
            x: (pos.x - center_spec(radius).x) as i32,
            y: (pos.y - center_spec(radius).y) as i32,
        },
        radius: radius as i32,
    }
}

/// What a location holds.
pub proof fn lemma_location_at(radius: int, pos: Cube)
    requires
        radius_ok(radius),
        0 <= pos.x < side(radius),
        0 <= pos.spec_z() < side(radius),
    ensures
        location_at(radius, pos).spec_radius() == radius,
        location_at(radius, pos).offset().x == pos.x - center_spec(radius).x,
        location_at(radius, pos).offset().y == pos.y - center_spec(radius).y,
{
    assert(radius <= 0x10000) by (nonlinear_arith)
        requires
            radius_ok(radius),
    ;
}

fn geometry(radius: i32) -> (g: TileGeometry)
    requires
        radius_ok(radius as int),
    ensures
        g.width == side(radius as int),
        g.height == side(radius as int),
        g.center == center_spec(radius as int),
{
    assert(radius <= 0x10000) by (nonlinear_arith)
        requires
            radius_ok(radius as int),
    ;
    let radius_with_border = radius + 1;
    let height = 2 * radius_with_border + 1;
    let width = height;
    TileGeometry { width, height, center: Cube { x: width / 2, y: -(width / 2) - height / 2 } }
}

/// A map of radius `radius`: each cell within that distance of the center
/// is what `cb` gives for its location, every other cell is `border`. The
/// callback is called only for locations within the radius.
pub fn new<Cell: Copy>(radius: i32, border: Cell, cb: impl Fn(Location) -> Cell) -> (r: AxialTile<
    Cell,
>)
    requires
        radius_ok(radius as int),
        forall|l: Location|
            l.spec_radius() == radius && l.offset().spec_distance(Cube { x: 0, y: 0 }) <= radius
                ==> #[trigger] cb.requires((l,)),
    ensures
        r.spec_width() == side(radius as int),
        r.spec_height() == side(radius as int),
        r.well_sized(),
        forall|i: int|
            0 <= i < r@.len() ==> {
                let loc = location_at(radius as int, pos_of_index(side(radius as int), i));
                if loc.offset().spec_distance(Cube { x: 0, y: 0 }) > radius {
                    #[trigger] r@[i] == border
                } else {
                    cb.ensures((loc,), r@[i])
                }
            },
{
    let g = geometry(radius);
    let width = g.width;
    let height = g.height;
    let center = g.center;
    proof {
        assert(width * height <= i32::MAX);
        assert(radius <= 0x10000) by (nonlinear_arith)
            requires
                radius_ok(radius as int),
        ;
    }
    let n: i32 = width * height;
    let mut data: Vec<Cell> = Vec::new();
    let mut idx: i32 = 0;
    while idx < n
        invariant
            0 <= idx <= n,
            n == width * height,
            width == side(radius as int),
            height == side(radius as int),
            center == center_spec(radius as int),
            radius_ok(radius as int),
            -1 <= radius <= 0x10000,
            data@.len() == idx,
            forall|l: Location|
            l.spec_radius() == radius && l.offset().spec_distance(Cube { x: 0, y: 0 }) <= radius
                ==> #[trigger] cb.requires((l,)),
            forall|i: int|
                0 <= i < idx ==> {
                    let loc = location_at(radius as int, pos_of_index(side(radius as int), i));
                    if loc.offset().spec_distance(Cube { x: 0, y: 0 }) > radius {
                        #[trigger] data@[i] == border
                    } else {
                        cb.ensures((loc,), data@[i])
                    }
                },
        decreases n - idx,
    {
        proof {
            assert(n == height * width) by (nonlinear_arith)
                requires
                    n == width * height,
            ;
            lemma_dims(width as int, height as int, idx as int);
        }
        let r: i32 = idx / width;
        let q: i32 = idx % width;
        let pos = Cube { x: q, y: -q - r };
        assert(pos == pos_of_index(width as int, idx as int));
        let location = Location { from_center: pos.sub(center), radius };
        assert(location == location_at(radius as int, pos));
        let cell = if location.dist_from_center() > radius {
            border
        } else {
            cb(location)
        };
        data.push(cell);
        idx = idx + 1;
    }
    proof {
        assert(n == height * width) by (nonlinear_arith)
            requires
                n == width * height,
        ;
    }
    AxialTile::new_internal(width, height, data)
}

/// How the cells of a map are chosen from their locations.
pub trait LocationRule<C: Copy> {
    /// Whether `c` is a value that the rule allows at `loc`.
    spec fn gives(&self, loc: Location, c: C) -> bool;

    /// The value that the rule makes at `loc` from the generator in state
    /// `rng`, and the generator's next state.
    spec fn made(&self, loc: Location, rng: SimRng) -> (C, SimRng);

    /// A value for `loc`; the rule may draw random numbers from `rng`.
    fn make(&self, loc: Location, rng: &mut SimRng) -> (r: C)
        ensures
            self.gives(loc, r),
            (r, *final(rng)) == self.made(loc, *old(rng)),
    ;
}

/// The first `k` cells (in storage order) of a map of radius `radius` that
/// `rule` makes from the generator in state `rng`, with `border` outside the
/// hexagon, and the generator's next state.
pub open spec fn map_made<C: Copy, R: LocationRule<C>>(rule: &R, radius: int, border: C, rng: SimRng, k: nat) -> (
    Seq<C>,
    SimRng,
)
    decreases k,
{
    if k == 0 {
        (Seq::empty(), rng)
    } else {
        let prev = map_made(rule, radius, border, rng, (k - 1) as nat);
        let loc = location_at(radius, pos_of_index(side(radius), k - 1));
        if loc.offset().spec_distance(Cube { x: 0, y: 0 }) > radius {
            (prev.0.push(border), prev.1)
        } else {
            let m = rule.made(loc, prev.1);
            (prev.0.push(m.0), m.1)
        }
    }
}

/// A map of radius `radius`: each cell within that distance of the center
/// is what `rule` makes for its location (visited in storage order), every
/// other cell is `border`.
pub fn new_with<C: Copy, R: LocationRule<C>>(radius: i32, border: C, rule: &R, rng: &mut SimRng) -> (r: AxialTile<C>)
    requires
        radius_ok(radius as int),
    ensures
        r.spec_width() == side(radius as int),
        r.spec_height() == side(radius as int),
        r.well_sized(),
        forall|i: int|
            0 <= i < r@.len() ==> {
                let loc = location_at(radius as int, pos_of_index(side(radius as int), i));
                if loc.offset().spec_distance(Cube { x: 0, y: 0 }) > radius {
                    #[trigger] r@[i] == border
                } else {
                    rule.gives(loc, r@[i])
                }
            },
        (r@, *final(rng)) == map_made(rule, radius as int, border, *old(rng), r@.len()),
{
    let ghost start = *rng;
    let g = geometry(radius);
    let width = g.width;
    let height = g.height;
    let center = g.center;
    proof {
        assert(width * height <= i32::MAX);
        assert(radius <= 0x10000) by (nonlinear_arith)
            requires
                radius_ok(radius as int),
        ;
    }
    let n: i32 = width * height;
    let mut data: Vec<C> = Vec::new();
    let mut idx: i32 = 0;
    while idx < n
        invariant
            0 <= idx <= n,
            n == width * height,
            width == side(radius as int),
            height == side(radius as int),
            center == center_spec(radius as int),
            radius_ok(radius as int),
            -1 <= radius <= 0x10000,
            data@.len() == idx,
            forall|i: int|
                0 <= i < idx ==> {
                    let loc = location_at(radius as int, pos_of_index(side(radius as int), i));
                    if loc.offset().spec_distance(Cube { x: 0, y: 0 }) > radius {
                        #[trigger] data@[i] == border
                    } else {
                        rule.gives(loc, data@[i])
                    }
                },
            (data@, *rng) == map_made(rule, radius as int, border, start, idx as nat),
        decreases n - idx,
    {
        proof {
            assert(n == height * width) by (nonlinear_arith)
                requires
                    n == width * height,
            ;
            lemma_dims(width as int, height as int, idx as int);
        }
        let r: i32 = idx / width;
        let q: i32 = idx % width;
        let pos = Cube { x: q, y: -q - r };
        assert(pos == pos_of_index(width as int, idx as int));
        let location = Location { from_center: pos.sub(center), radius };
        assert(location == location_at(radius as int, pos));
        let cell = if location.dist_from_center() > radius {
            border
        } else {
            rule.make(location, rng)
        };
        data.push(cell);
        idx = idx + 1;
    }
    proof {
        assert(n == height * width) by (nonlinear_arith)
            requires
                n == width * height,
        ;
    }
    AxialTile::new_internal(width, height, data)
}

/// The center of a map of radius `radius`.
pub fn center(radius: i32) -> (r: Cube)
    requires
        radius_ok(radius as int),
    ensures
        r == center_spec(radius as int),
{
    geometry(radius).center
}

/// The rectangle (in offset coordinates) that shows a map of radius `radius`.
pub fn viewport(radius: i32) -> (r: Rectangle)
    requires
        radius_ok(radius as int),
    ensures
        r.pos.x == center_spec(radius as int).x - (radius + 1) / 2,
        r.pos.y == center_spec(radius as int).y - (-((radius + 1) / 2) - radius),
        r.width == 2 * radius + 1,
        r.height == 2 * radius + 1,
{
    assert(radius <= 0x10000) by (nonlinear_arith)
        requires
            radius_ok(radius as int),
    ;
    let g = geometry(radius);
    let half: i32 = (radius + 1) / 2;
    Rectangle {
        pos: g.center.sub(Cube { x: half, y: -half - radius }),
        width: 2 * radius + 1,
        height: 2 * radius + 1,
    }
}

} // verus!
