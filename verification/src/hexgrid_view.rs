//! What a renderer shows of a single hex cell.
use vstd::prelude::*;

use crate::coords::{offset_x, rect_fits, rect_x, rect_y, Cube, Direction, Rectangle};
use crate::tile::iterate_rectangle;

verus! {

/// How a single hex cell is rendered. The meaning of the fields depends on
/// the simulation.
#[derive(Clone, Copy, Debug)]
pub struct CellView {
    /// Category. Rendered as discrete colors, usually 0 means empty/air.
    pub cell_type: u8,
    /// A scalar value, rendered as brightness, 0 for dark.
    pub energy: Option<u8>,
    /// For agent heading or growth direction. Rendered as small dot.
    pub direction: Option<Direction>,
}

impl Default for CellView {
    fn default() -> (r: Self)
        ensures
            r.cell_type == 0,
            r.energy is None,
            r.direction is None,
    {
        CellView { cell_type: 0, energy: None, direction: None }
    }
}

/// The view of a position that holds no cell.
pub fn missing_cell_view() -> (r: CellView)
    ensures
        r.cell_type == 255,
        r.energy is None,
        r.direction is None,
{
    CellView { cell_type: 255, energy: None, direction: None }
}

/// A value saturated into a byte.
pub fn saturate_u8(v: u16) -> (r: u8)
    ensures
        r == (if v > 255 {
            255
        } else {
            v
        }),
{
    if v > 255 {
        255
    } else {
        v as u8
    }
}

/// The position of the `i`-th cell of the rendered rectangle: the tile's
/// SIZE x SIZE cells in offset coordinates from the origin, row by row.
pub open spec fn rectangle_pos(i: int) -> Cube {
    let origin = Cube { x: 0i32, y: 0i32 };
    Cube { x: rect_x(origin, i % 32, i / 32) as i32, y: rect_y(origin, i % 32, i / 32) as i32 }
}

/// The view of an optional cell, with a missing cell shown as type 255.
pub open spec fn view_or_missing(v: Option<CellView>) -> CellView {
    match v {
        Some(c) => c,
        None => CellView { cell_type: 255, energy: None, direction: None },
    }
}

/// Rendering and inspection of a hex grid (e.g. in the web UI).
pub trait HexgridView {
    /// Whether the value is in a state whose cells can be viewed.
    spec fn viewable(&self) -> bool;

    /// Whether `r` is how the cell at `pos` is rendered.
    spec fn shows(&self, pos: Cube, r: Option<CellView>) -> bool;

    /// How the cell at `pos` is rendered; `None` where there is no cell.
    fn cell_view(&self, pos: Cube) -> (r: Option<CellView>)
        requires
            self.viewable(),
        ensures
            self.shows(pos, r),
    ;

    /// The views of all cells of the SIZE x SIZE rectangle at the origin, row
    /// by row, with a missing cell shown as type 255.
    fn cells_rectangle(&self) -> (r: Vec<CellView>)
        requires
            self.viewable(),
        ensures
            r@.len() == 1024,
            forall|i: int|
                0 <= i < 1024 ==> exists|v: Option<CellView>|
                    self.shows(rectangle_pos(i), v) && #[trigger] r@[i] == view_or_missing(v),
    {
        let origin = Cube { x: 0, y: 0 };
        assert(rect_fits(Rectangle { pos: origin, width: 32, height: 32 }));
        let positions = iterate_rectangle(origin, 32, 32);
        let mut r: Vec<CellView> = Vec::new();
        let mut i: usize = 0;
        while i < positions.len()
            invariant
                self.viewable(),
                origin == (Cube { x: 0i32, y: 0i32 }),
                positions@.len() == 1024,
                forall|row: int, col: int|
                    0 <= row < 32 && 0 <= col < 32 ==> {
                        let c = #[trigger] positions@[row * 32 + col];
                        c.x == rect_x(origin, col, row) && c.y == rect_y(origin, col, row)
                    },
                0 <= i <= 1024,
                r@.len() == i,
                forall|k: int|
                    0 <= k < i ==> exists|v: Option<CellView>|
                        self.shows(rectangle_pos(k), v) && #[trigger] r@[k] == view_or_missing(v),
            decreases 1024 - i,
        {
            let pos = positions[i];
            proof {
                let row = i / 32;
                let col = i % 32;
                assert(i == row * 32 + col);
                let c = positions@[row * 32 + col];
                assert(c.x == rect_x(origin, col as int, row as int) && c.y == rect_y(origin, col as int, row as int));
                assert(pos == rectangle_pos(i as int));
            }
            let v = self.cell_view(pos);
            let shown = match v {
                Some(c) => c,
                None => missing_cell_view(),
            };
            let ghost old_r = r@;
            r.push(shown);
            proof {
                assert(self.shows(rectangle_pos(i as int), v) && r@[i as int] == view_or_missing(v));
                assert forall|k: int| 0 <= k < i + 1 implies exists|w: Option<CellView>|
                    self.shows(rectangle_pos(k), w) && #[trigger] r@[k] == view_or_missing(w) by {
                    if k < i {
                        assert(r@[k] == old_r[k]);
                    } else {
                        assert(self.shows(rectangle_pos(k), v) && r@[k] == view_or_missing(v));
                    }
                }
            }
            i = i + 1;
        }
        assert(r@.len() == 1024);
        assert(exists|v: Option<CellView>| self.shows(rectangle_pos(0), v) && r@[0] == view_or_missing(v));
        r
    }
}

} // verus!
