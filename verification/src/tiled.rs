//! Maps drawn with the Tiled editor (hexagonal, staggered along y, odd rows
//! shifted), turned into axial tiles.
use vstd::prelude::*;

use vstd::string::StringExecFns;

use crate::axial_tile::AxialTile;
use crate::coords::{offset_x, Cube, Offset};

verus! {

/// A layer of tiles: `data` holds the tile indices row by row.
pub struct TiledTileLayer {
    pub data: Vec<i32>,
    pub height: i32,
    pub width: i32,
}

/// A Tiled map.
pub struct TiledMap {
    pub orientation: String,
    pub staggeraxis: String,
    pub staggerindex: String,
    pub layers: Vec<TiledTileLayer>,
}

/// The position in the axial tile of the map cell at (`col`, `row`), with
/// the columns shifted right by `pad`.
pub open spec fn map_pos(col: int, row: int, pad: int) -> Cube {
    Cube { x: offset_x(col + pad, row) as i32, y: (-offset_x(col + pad, row) - row) as i32 }
}

impl TiledMap {
    /// The map as an axial tile, each tile index made a cell by `convert`:
    /// the tile is `width + height / 2` wide (the rows shifted right by
    /// `height / 2` columns) and `height` high, filled with `fill`; the map
    /// cells that land on the tile hold `convert` of their tile index, read
    /// from `data` at `row * height + col` for `row < width`, `col < height`.
    pub fn to_axial_tile<T: Copy>(&self, fill: T, convert: impl Fn(i32) -> T) -> (r: AxialTile<T>)
        requires
            self.orientation@ == "hexagonal"@,
            self.staggeraxis@ == "y"@,
            self.staggerindex@ == "odd"@,
            self.layers@.len() >= 1,
            self.layers@[0].height > 0,
            self.layers@[0].width > 0,
            self.layers@[0].height * self.layers@[0].width == self.layers@[0].data@.len(),
            (self.layers@[0].width + self.layers@[0].height / 2) * self.layers@[0].height <= i32::MAX,
            forall|x: i32| convert.requires((x,)),
        ensures
            r.well_sized(),
            r.spec_width() == self.layers@[0].width + self.layers@[0].height / 2,
            r.spec_height() == self.layers@[0].height,
            forall|row: int, col: int|
                0 <= row < self.layers@[0].width && 0 <= col < self.layers@[0].height && r.valid_spec(
                    #[trigger] map_pos(col, row, self.layers@[0].height / 2),
                ) ==> convert.ensures(
                    (self.layers@[0].data@[row * self.layers@[0].height + col],),
                    r.at(
                        map_pos(col, row, self.layers@[0].height / 2).x as int,
                        map_pos(col, row, self.layers@[0].height / 2).spec_z(),
                    ),
                ),
    {
        let layer = &self.layers[0];
        let pad = layer.height / 2;
        assert(layer.width + pad <= (layer.width + pad) * layer.height) by (nonlinear_arith)
            requires
                layer.height >= 1,
                layer.width + pad >= 0,
        ;
        let w = layer.width + pad;
        let h = layer.height;
        assert(h <= 65536) by (nonlinear_arith)
            requires
                (layer.width + h / 2) * h <= i32::MAX,
                layer.width >= 1,
                h >= 1,
        ;
        assert(layer.width * h <= i32::MAX) by (nonlinear_arith)
            requires
                (layer.width + h / 2) * h <= i32::MAX,
                layer.width >= 1,
                h >= 1,
        ;
        let mut map = AxialTile::new(w, h, fill);
        let mut row: i32 = 0;
        while row < layer.width
            invariant
                layer == self.layers@[0],
                pad == layer.height / 2,
                w == layer.width + pad,
                h == layer.height,
                layer.height > 0 && layer.width > 0,
                layer.height * layer.width == layer.data@.len(),
                w * h <= i32::MAX,
                h <= 65536,
                layer.width * h <= i32::MAX,
                forall|x: i32| convert.requires((x,)),
                0 <= row <= layer.width,
                map.well_sized(),
                map.spec_width() == w,
                map.spec_height() == h,
                forall|rw: int, cl: int|
                    0 <= rw < row && 0 <= cl < h && map.valid_spec(#[trigger] map_pos(cl, rw, pad as int))
                        ==> convert.ensures(
                        (layer.data@[rw * h + cl],),
                        map.at(map_pos(cl, rw, pad as int).x as int, map_pos(cl, rw, pad as int).spec_z()),
                    ),
            decreases layer.width - row,
        {
            let mut col: i32 = 0;
            while col < layer.height
                invariant
                    layer == self.layers@[0],
                    pad == layer.height / 2,
                    w == layer.width + pad,
                    h == layer.height,
                    layer.height > 0 && layer.width > 0,
                    layer.height * layer.width == layer.data@.len(),
                    w * h <= i32::MAX,
                    h <= 65536,
                    layer.width * h <= i32::MAX,
                    forall|x: i32| convert.requires((x,)),
                    0 <= row < layer.width,
                    0 <= col <= layer.height,
                    map.well_sized(),
                    map.spec_width() == w,
                    map.spec_height() == h,
                    forall|rw: int, cl: int|
                        0 <= rw < row && 0 <= cl < h && map.valid_spec(#[trigger] map_pos(cl, rw, pad as int))
                            ==> convert.ensures(
                            (layer.data@[rw * h + cl],),
                            map.at(map_pos(cl, rw, pad as int).x as int, map_pos(cl, rw, pad as int).spec_z()),
                        ),
                    forall|cl: int|
                        0 <= cl < col && map.valid_spec(#[trigger] map_pos(cl, row as int, pad as int))
                            ==> convert.ensures(
                            (layer.data@[row * h + cl],),
                            map.at(
                                map_pos(cl, row as int, pad as int).x as int,
                                map_pos(cl, row as int, pad as int).spec_z(),
                            ),
                        ),
                decreases layer.height - col,
            {
                proof {
                    assert(0 <= row * h + col < layer.data@.len()) by (nonlinear_arith)
                        requires
                            0 <= row < layer.width,
                            0 <= col < h,
                            h * layer.width == layer.data@.len(),
                    ;
                    assert(row * h + col < layer.width * h) by (nonlinear_arith)
                        requires
                            0 <= row < layer.width,
                            0 <= col < h,
                    ;
                }
                let pos = Cube::from_offset(Offset { col: col + pad, row });
                assert(pos == map_pos(col as int, row as int, pad as int));
                if map.valid(pos) {
                    let v = convert(layer.data[(row * layer.height + col) as usize]);
                    let ghost before = map;
                    map.set_cell(pos, v);
                    proof {
                        crate::axial_tile::lemma_set_cell_at(before, map, pos.x as int, pos.spec_z(), v);
                        assert forall|rw: int, cl: int|
                            ((0 <= rw < row && 0 <= cl < h) || (rw == row && 0 <= cl < col)) && map.valid_spec(
                                #[trigger] map_pos(cl, rw, pad as int),
                            ) implies map.at(map_pos(cl, rw, pad as int).x as int, map_pos(cl, rw, pad as int).spec_z())
                            == before.at(
                            map_pos(cl, rw, pad as int).x as int,
                            map_pos(cl, rw, pad as int).spec_z(),
                        ) by {
                            lemma_map_pos_injective(cl, rw, col as int, row as int, pad as int);
                        }
                    }
                }
                col = col + 1;
            }
            row = row + 1;
        }
        map
    }
}

impl TiledMap {
    /// Whether the map can be read as an axial tile: a hexagonal map staggered
    /// along y with odd rows shifted, whose first layer is not empty, holds
    /// `height * width` tile indices, and whose tile fits in `i32` cells.
    pub open spec fn readable(self) -> bool {
        &&& self.orientation@ == "hexagonal"@
        &&& self.staggeraxis@ == "y"@
        &&& self.staggerindex@ == "odd"@
        &&& self.layers@.len() >= 1
        &&& self.layers@[0].height > 0
        &&& self.layers@[0].width > 0
        &&& self.layers@[0].height * self.layers@[0].width == self.layers@[0].data@.len()
        &&& (self.layers@[0].width + self.layers@[0].height / 2) * self.layers@[0].height <= i32::MAX
    }

    /// The map as an axial tile (see `to_axial_tile`), or `None` where it is
    /// not `readable`.
    pub fn to_axial_tile_checked<T: Copy>(&self, fill: T, convert: impl Fn(i32) -> T) -> (r: Option<
        AxialTile<T>,
    >)
        requires
            forall|x: i32| convert.requires((x,)),
        ensures
            r is Some <==> self.readable(),
            r matches Some(t) ==> {
                &&& t.well_sized()
                &&& t.spec_width() == self.layers@[0].width + self.layers@[0].height / 2
                &&& t.spec_height() == self.layers@[0].height
                &&& forall|row: int, col: int|
                    0 <= row < self.layers@[0].width && 0 <= col < self.layers@[0].height && t.valid_spec(
                        #[trigger] map_pos(col, row, self.layers@[0].height / 2),
                    ) ==> convert.ensures(
                        (self.layers@[0].data@[row * self.layers@[0].height + col],),
                        t.at(
                            map_pos(col, row, self.layers@[0].height / 2).x as int,
                            map_pos(col, row, self.layers@[0].height / 2).spec_z(),
                        ),
                    )
            },
    {
        let hexagonal = String::from_str("hexagonal");
        let y = String::from_str("y");
        let odd = String::from_str("odd");
        if !(self.orientation == hexagonal && self.staggeraxis == y && self.staggerindex == odd) {
            return None;
        }
        if self.layers.len() < 1 {
            return None;
        }
        let layer = &self.layers[0];
        if layer.height <= 0 || layer.width <= 0 {
            return None;
        }
        assert(0 < layer.height * layer.width <= 0x8000_0000 * 0x8000_0000) by (nonlinear_arith)
            requires
                0 < layer.width <= 0x8000_0000,
                0 < layer.height <= 0x8000_0000,
        ;
        let cells: i64 = layer.height as i64 * layer.width as i64;
        if cells as u64 != layer.data.len() as u64 {
            return None;
        }
        let shifted: i64 = layer.width as i64 + (layer.height / 2) as i64;
        assert(0 < shifted * layer.height <= 0xC000_0000 * 0x8000_0000) by (nonlinear_arith)
            requires
                0 < shifted <= 0xC000_0000,
                0 < layer.height <= 0x8000_0000,
        ;
        if shifted * layer.height as i64 > i32::MAX as i64 {
            return None;
        }
        Some(self.to_axial_tile(fill, convert))
    }
}

/// Different map cells land on different positions.
proof fn lemma_map_pos_injective(c1: int, r1: int, c2: int, r2: int, pad: int)
    requires
        (c1, r1) != (c2, r2),
        0 <= r1,
        0 <= r2,
        -0x40000000 < c1 + pad < 0x40000000,
        -0x40000000 < c2 + pad < 0x40000000,
        r1 < 0x40000000,
        r2 < 0x40000000,
    ensures
        map_pos(c1, r1, pad).x != map_pos(c2, r2, pad).x || map_pos(c1, r1, pad).spec_z() != map_pos(
            c2,
            r2,
            pad,
        ).spec_z(),
{
}

} // verus!
