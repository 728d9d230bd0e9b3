//! Rectangles of grid cells, inclusive on both ends, and the batch writes
//! that the tools make into them.

use crate::layer::{Layer, LayerView};
use crate::tile::TileData;
use vstd::prelude::*;

verus! {

/// A rectangle of grid cells: all `(x, y)` with `min_x <= x <= max_x` and
/// `min_y <= y <= max_y`.
#[derive(Debug, Clone, Copy, PartialEq, Eq)]
pub struct Region {
    pub min_x: i32,
    pub max_x: i32,
    pub min_y: i32,
    pub max_y: i32,
}

/// Column-major order of cells: by `x` first, then by `y`.
pub open spec fn cell_before(x1: int, y1: int, x2: int, y2: int) -> bool {
    x1 < x2 || (x1 == x2 && y1 < y2)
}

pub open spec fn abs_diff(a: int, b: int) -> int {
    if a <= b {
        b - a
    } else {
        a - b
    }
}

pub open spec fn min_int(a: int, b: int) -> int {
    if a <= b {
        a
    } else {
        b
    }
}

pub open spec fn max_int(a: int, b: int) -> int {
    if a <= b {
        b
    } else {
        a
    }
}

impl Region {
    /// The bounds are in order, so the rectangle has at least one cell.
    pub open spec fn wf(self) -> bool {
        self.min_x <= self.max_x && self.min_y <= self.max_y
    }

    pub open spec fn contains(self, x: int, y: int) -> bool {
        self.min_x <= x <= self.max_x && self.min_y <= y <= self.max_y
    }

    pub open spec fn spec_width(self) -> int {
        self.max_x - self.min_x + 1
    }

    pub open spec fn spec_height(self) -> int {
        self.max_y - self.min_y + 1
    }

    pub open spec fn spec_cell_count(self) -> int {
        self.spec_width() * self.spec_height()
    }

    /// The bounding box of two corners, whichever way round they are given.
    pub open spec fn spanning(a: (i32, i32), b: (i32, i32)) -> Region {
        Region {
            min_x: min_int(a.0 as int, b.0 as int) as i32,
            max_x: max_int(a.0 as int, b.0 as int) as i32,
            min_y: min_int(a.1 as int, b.1 as int) as i32,
            max_y: max_int(a.1 as int, b.1 as int) as i32,
        }
    }

    /// The straight line from `anchor` towards `target`: along the anchor's
    /// row where the horizontal distance is the larger one, else along the
    /// anchor's column. Equal distances give the column.
    pub open spec fn line(anchor: (i32, i32), target: (i32, i32)) -> Region {
        if abs_diff(anchor.0 as int, target.0 as int) > abs_diff(
            anchor.1 as int,
            target.1 as int,
        ) {
            Region::spanning(anchor, (target.0, anchor.1))
        } else {
            Region::spanning(anchor, (anchor.0, target.1))
        }
    }

    /// The bounding box of two corners.
    pub fn from_corners(a: (i32, i32), b: (i32, i32)) -> (region: Region)
        ensures
            region == Region::spanning(a, b),
            region.wf(),
            region.contains(a.0 as int, a.1 as int),
            region.contains(b.0 as int, b.1 as int),
    {
        Region {
            min_x: if a.0 <= b.0 { a.0 } else { b.0 },
            max_x: if a.0 <= b.0 { b.0 } else { a.0 },
            min_y: if a.1 <= b.1 { a.1 } else { b.1 },
            max_y: if a.1 <= b.1 { b.1 } else { a.1 },
        }
    }

    /// The row or column of cells from `anchor` towards `target`.
    pub fn line_from(anchor: (i32, i32), target: (i32, i32)) -> (region: Region)
        ensures
            region == Region::line(anchor, target),
            region.wf(),
            region.contains(anchor.0 as int, anchor.1 as int),
            region.min_x == region.max_x || region.min_y == region.max_y,
    {
        let dx: i64 = if anchor.0 <= target.0 {
            target.0 as i64 - anchor.0 as i64
        } else {
            anchor.0 as i64 - target.0 as i64
        };
        let dy: i64 = if anchor.1 <= target.1 {
            target.1 as i64 - anchor.1 as i64
        } else {
            anchor.1 as i64 - target.1 as i64
        };
        if dx > dy {
            Region::from_corners(anchor, (target.0, anchor.1))
        } else {
            Region::from_corners(anchor, (anchor.0, target.1))
        }
    }

    /// The number of columns.
    pub fn width(&self) -> (w: u64)
        requires
            self.wf(),
        ensures
            w == self.spec_width(),
            1 <= w <= 0x1_0000_0000,
    {
        (self.max_x as i64 - self.min_x as i64 + 1) as u64
    }

    /// The number of rows.
    pub fn height(&self) -> (h: u64)
        requires
            self.wf(),
        ensures
            h == self.spec_height(),
            1 <= h <= 0x1_0000_0000,
    {
        (self.max_y as i64 - self.min_y as i64 + 1) as u64
    }

    /// The number of cells: width times height.
    pub fn cell_count(&self) -> (n: u128)
        requires
            self.wf(),
        ensures
            n == self.spec_cell_count(),
            n >= 1,
    {
        let w = self.width() as u128;
        let h = self.height() as u128;
        assert(1 <= w * h <= 0x1_0000_0000 * 0x1_0000_0000) by (nonlinear_arith)
            requires
                1 <= w <= 0x1_0000_0000,
                1 <= h <= 0x1_0000_0000,
        ;
        w * h
    }
}

impl LayerView {
    /// The layer after `tile` is written to every cell of `region`. Writing
    /// the sentinel empties the cells.
    pub open spec fn fill(self, region: Region, tile: TileData) -> LayerView {
        LayerView {
            tiles: Map::new(
                |p: (i32, i32)|
                    if region.contains(p.0 as int, p.1 as int) {
                        !tile.is_sentinel()
                    } else {
                        self.tiles.contains_key(p)
                    },
                |p: (i32, i32)|
                    if region.contains(p.0 as int, p.1 as int) {
                        tile
                    } else {
                        self.tiles[p]
                    },
            ),
            ..self
        }
    }

    /// The layer after `tile` is written to the cells of `region` that come
    /// before `(x, y)` in column-major order.
    pub open spec fn fill_before(self, region: Region, tile: TileData, x: int, y: int) -> LayerView {
        LayerView {
            tiles: Map::new(
                |p: (i32, i32)|
                    if region.contains(p.0 as int, p.1 as int) && cell_before(
                        p.0 as int,
                        p.1 as int,
                        x,
                        y,
                    ) {
                        !tile.is_sentinel()
                    } else {
                        self.tiles.contains_key(p)
                    },
                |p: (i32, i32)|
                    if region.contains(p.0 as int, p.1 as int) && cell_before(
                        p.0 as int,
                        p.1 as int,
                        x,
                        y,
                    ) {
                        tile
                    } else {
                        self.tiles[p]
                    },
            ),
            ..self
        }
    }
}

impl Layer {
    /// Writes `tile` to every cell of `region`, column by column.
    pub fn fill_region(&mut self, region: &Region, tile: TileData)
        requires
            old(self).wf(),
            region.wf(),
        ensures
            final(self)@ == old(self)@.fill(*region, tile),
            final(self).wf(),
    {
        let ghost before = self@;
        let mut x: i64 = region.min_x as i64;
        proof {
            assert(before.fill_before(*region, tile, x as int, region.min_y as int).tiles
                =~= before.tiles);
        }
        while x <= region.max_x as i64
            invariant
                region.wf(),
                region.min_x <= x <= region.max_x + 1,
                self.wf(),
                before == old(self)@,
                self@ == before.fill_before(*region, tile, x as int, region.min_y as int),
            decreases region.max_x + 1 - x,
        {
            let mut y: i64 = region.min_y as i64;
            while y <= region.max_y as i64
                invariant
                    region.wf(),
                    region.min_x <= x <= region.max_x,
                    region.min_y <= y <= region.max_y + 1,
                    self.wf(),
                    self@ == before.fill_before(*region, tile, x as int, y as int),
                decreases region.max_y + 1 - y,
            {
                self.set_tile(x as i32, y as i32, tile);
                proof {
                    assert(self@.tiles =~= before.fill_before(
                        *region,
                        tile,
                        x as int,
                        y + 1,
                    ).tiles);
                }
                y += 1;
            }
            proof {
                assert(before.fill_before(*region, tile, x as int, region.max_y + 1).tiles
                    =~= before.fill_before(*region, tile, x + 1, region.min_y as int).tiles);
            }
            x += 1;
        }
        proof {
            assert(before.fill_before(*region, tile, region.max_x + 1, region.min_y as int).tiles
                =~= before.fill(*region, tile).tiles);
        }
    }
}

} // verus!
