//! The clipboard: the tiles of a copied rectangle, each with its offset from
//! the rectangle's corner.

use crate::layer::{Layer, LayerView};
use crate::region::{cell_before, Region};
use crate::tile::TileData;
use vstd::prelude::*;

verus! {

/// The tiles of a copied rectangle. An offset `(dx, dy)` counts columns and
/// rows from the rectangle's corner `origin`, which has offset `(0, 0)`.
#[derive(Debug)]
pub struct SelectionContent {
    pub tiles: Vec<((u32, u32), TileData)>,
    pub origin: (i32, i32),
    pub width: u64,
    pub height: u64,
}

/// The mathematical content of the clipboard.
pub struct ClipboardView {
    pub tiles: Seq<((u32, u32), TileData)>,
    pub origin: (i32, i32),
    pub width: u64,
    pub height: u64,
}

impl View for SelectionContent {
    type V = ClipboardView;

    open spec fn view(&self) -> ClipboardView {
        ClipboardView {
            tiles: self.tiles@,
            origin: self.origin,
            width: self.width,
            height: self.height,
        }
    }
}

/// `tiles` lists what `region` holds in `layer`: every cell of the region
/// that reads as a tile, and no other, under its offset, in column-major
/// order. The order leaves no choice, so the list is determined.
pub open spec fn captures(
    tiles: Seq<((u32, u32), TileData)>,
    layer: LayerView,
    region: Region,
) -> bool {
    &&& forall|i: int|
        0 <= i < tiles.len() ==> {
            let (offset, tile) = #[trigger] tiles[i];
            &&& offset.0 < region.spec_width()
            &&& offset.1 < region.spec_height()
            &&& tile == layer.get_tile(
                (region.min_x + offset.0) as i32,
                (region.min_y + offset.1) as i32,
            )
            &&& !tile.is_sentinel()
        }
    &&& forall|x: i32, y: i32|
        region.contains(x as int, y as int) && !(#[trigger] layer.get_tile(x, y)).is_sentinel()
            ==> exists|i: int|
            0 <= i < tiles.len() && (#[trigger] tiles[i]).0 == (
                (x - region.min_x) as u32,
                (y - region.min_y) as u32,
            )
    &&& forall|i: int, j: int|
        0 <= i < j < tiles.len() ==> cell_before(
            (#[trigger] tiles[i]).0.0 as int,
            tiles[i].0.1 as int,
            (#[trigger] tiles[j]).0.0 as int,
            tiles[j].0.1 as int,
        )
}

/// `tiles` lists the tiles of the cells of `region` that come before `(x, y)`
/// in column-major order.
pub open spec fn captures_before(
    tiles: Seq<((u32, u32), TileData)>,
    layer: LayerView,
    region: Region,
    x: int,
    y: int,
) -> bool {
    &&& forall|i: int|
        0 <= i < tiles.len() ==> {
            let (offset, tile) = #[trigger] tiles[i];
            &&& offset.0 < region.spec_width()
            &&& offset.1 < region.spec_height()
            &&& cell_before(region.min_x + offset.0, region.min_y + offset.1, x, y)
            &&& tile == layer.get_tile(
                (region.min_x + offset.0) as i32,
                (region.min_y + offset.1) as i32,
            )
            &&& !tile.is_sentinel()
        }
    &&& forall|cx: i32, cy: i32|
        region.contains(cx as int, cy as int) && cell_before(cx as int, cy as int, x, y) && !(
        #[trigger] layer.get_tile(cx, cy)).is_sentinel() ==> exists|i: int|
            0 <= i < tiles.len() && (#[trigger] tiles[i]).0 == (
                (cx - region.min_x) as u32,
                (cy - region.min_y) as u32,
            )
    &&& forall|i: int, j: int|
        0 <= i < j < tiles.len() ==> cell_before(
            (#[trigger] tiles[i]).0.0 as int,
            tiles[i].0.1 as int,
            (#[trigger] tiles[j]).0.0 as int,
            tiles[j].0.1 as int,
        )
}

/// The offsets of `tiles` are in column-major order, each once.
pub open spec fn offsets_ascend(tiles: Seq<((u32, u32), TileData)>) -> bool {
    forall|i: int, j: int|
        0 <= i < j < tiles.len() ==> cell_before(
            (#[trigger] tiles[i]).0.0 as int,
            tiles[i].0.1 as int,
            (#[trigger] tiles[j]).0.0 as int,
            tiles[j].0.1 as int,
        )
}

/// `tiles` has an entry with the given offset.
pub open spec fn holds_offset(tiles: Seq<((u32, u32), TileData)>, offset: (u32, u32)) -> bool {
    exists|m: int| 0 <= m < tiles.len() && (#[trigger] tiles[m]).0 == offset
}

/// Every offset of `a` is an offset of `b`.
pub open spec fn offsets_within(
    a: Seq<((u32, u32), TileData)>,
    b: Seq<((u32, u32), TileData)>,
) -> bool {
    forall|k: int| 0 <= k < a.len() ==> holds_offset(b, (#[trigger] a[k]).0)
}

/// Where two lists are in column-major order and the second holds every
/// offset of the first, the offset at place `i` of the first stands at place
/// `i` or later in the second.
proof fn lemma_listed_at_or_after(
    a: Seq<((u32, u32), TileData)>,
    b: Seq<((u32, u32), TileData)>,
    i: int,
) -> (j: int)
    requires
        offsets_ascend(a),
        offsets_ascend(b),
        offsets_within(a, b),
        0 <= i < a.len(),
    ensures
        i <= j < b.len(),
        b[j].0 == a[i].0,
    decreases i,
{
    assert(holds_offset(b, a[i].0));
    let j = choose|m: int| 0 <= m < b.len() && (#[trigger] b[m]).0 == a[i].0;
    if i > 0 {
        let p = lemma_listed_at_or_after(a, b, i - 1);
        assert(cell_before(
            a[i - 1].0.0 as int,
            a[i - 1].0.1 as int,
            a[i].0.0 as int,
            a[i].0.1 as int,
        ));
        if j < p {
            assert(cell_before(b[j].0.0 as int, b[j].0.1 as int, b[p].0.0 as int, b[p].0.1 as int));
        }
    }
    j
}

/// Two lists in column-major order with the same offsets have the same
/// length and the same offset at each place.
proof fn lemma_ascending_lists_agree(
    a: Seq<((u32, u32), TileData)>,
    b: Seq<((u32, u32), TileData)>,
)
    requires
        offsets_ascend(a),
        offsets_ascend(b),
        offsets_within(a, b),
        offsets_within(b, a),
    ensures
        a.len() == b.len(),
        forall|i: int| 0 <= i < a.len() ==> (#[trigger] a[i]).0 == b[i].0,
{
    if a.len() > 0 {
        let j = lemma_listed_at_or_after(a, b, a.len() - 1);
    }
    if b.len() > 0 {
        let j = lemma_listed_at_or_after(b, a, b.len() - 1);
    }
    assert forall|i: int| 0 <= i < a.len() implies (#[trigger] a[i]).0 == b[i].0 by {
        let j = lemma_listed_at_or_after(a, b, i);
        let back = lemma_listed_at_or_after(b, a, j);
        if back < i {
            assert(cell_before(
                a[back].0.0 as int,
                a[back].0.1 as int,
                a[i].0.0 as int,
                a[i].0.1 as int,
            ));
        }
        if i < back {
            assert(cell_before(
                a[i].0.0 as int,
                a[i].0.1 as int,
                a[back].0.0 as int,
                a[back].0.1 as int,
            ));
        }
    }
}

/// Every offset of a list that captures a rectangle stands in every other
/// list that captures it.
proof fn lemma_captures_lists_the_same_offsets(
    a: Seq<((u32, u32), TileData)>,
    b: Seq<((u32, u32), TileData)>,
    layer: LayerView,
    region: Region,
)
    requires
        region.wf(),
        captures(a, layer, region),
        captures(b, layer, region),
    ensures
        offsets_within(a, b),
{
    assert forall|k: int| 0 <= k < a.len() implies holds_offset(b, (#[trigger] a[k]).0) by {
        let (offset, tile) = a[k];
        let x = (region.min_x + offset.0) as i32;
        let y = (region.min_y + offset.1) as i32;
        assert(region.contains(x as int, y as int));
        assert(!layer.get_tile(x, y).is_sentinel());
        let m = choose|m: int|
            0 <= m < b.len() && (#[trigger] b[m]).0 == (
                (x - region.min_x) as u32,
                (y - region.min_y) as u32,
            );
        assert(b[m].0 == offset);
    }
}

/// A copy is determined: two lists that both capture a rectangle of a layer
/// are the same list.
pub proof fn lemma_captures_is_determined(
    a: Seq<((u32, u32), TileData)>,
    b: Seq<((u32, u32), TileData)>,
    layer: LayerView,
    region: Region,
)
    requires
        region.wf(),
        captures(a, layer, region),
        captures(b, layer, region),
    ensures
        a == b,
{
    lemma_captures_lists_the_same_offsets(a, b, layer, region);
    lemma_captures_lists_the_same_offsets(b, a, layer, region);
    assert(offsets_ascend(a));
    assert(offsets_ascend(b));
    lemma_ascending_lists_agree(a, b);
    assert forall|i: int| 0 <= i < a.len() implies a[i] == b[i] by {
        assert(a[i].0 == b[i].0);
        let (offset, tile) = a[i];
        let (other_offset, other_tile) = b[i];
        assert(tile == other_tile);
    }
    assert(a =~= b);
}

/// The cell that a pasted tile with the given offset lands on, for a paste
/// at `(x, y)`.
pub open spec fn paste_target(x: i32, y: i32, offset: (u32, u32)) -> (int, int) {
    (x + offset.0, y + offset.1)
}

/// Every pasted tile lands on a cell of the grid.
pub open spec fn paste_fits(tiles: Seq<((u32, u32), TileData)>, x: i32, y: i32) -> bool {
    forall|i: int|
        0 <= i < tiles.len() ==> x + (#[trigger] tiles[i]).0.0 <= i32::MAX && y + tiles[i].0.1
            <= i32::MAX
}

impl LayerView {
    /// The layer after the tiles are written, first to last, each at the paste
    /// position plus its offset.
    pub open spec fn paste(self, tiles: Seq<((u32, u32), TileData)>, x: i32, y: i32) -> LayerView
        decreases tiles.len(),
    {
        if tiles.len() == 0 {
            self
        } else {
            let (offset, tile) = tiles.last();
            self.paste(tiles.drop_last(), x, y).set_tile(
                (x + offset.0) as i32,
                (y + offset.1) as i32,
                tile,
            )
        }
    }
}

/// A paste is an overlay: a cell that no pasted tile lands on keeps what it
/// held, filled or empty.
pub proof fn lemma_paste_keeps_other_cells(
    layer: LayerView,
    tiles: Seq<((u32, u32), TileData)>,
    x: i32,
    y: i32,
    cell: (i32, i32),
)
    requires
        forall|i: int|
            0 <= i < tiles.len() ==> paste_target(x, y, (#[trigger] tiles[i]).0) != (
                cell.0 as int,
                cell.1 as int,
            ),
        paste_fits(tiles, x, y),
    ensures
        layer.paste(tiles, x, y).tiles.contains_key(cell) == layer.tiles.contains_key(cell),
        layer.paste(tiles, x, y).get_tile(cell.0, cell.1) == layer.get_tile(cell.0, cell.1),
        layer.paste(tiles, x, y).name == layer.name,
        layer.paste(tiles, x, y).visible == layer.visible,
    decreases tiles.len(),
{
    if tiles.len() > 0 {
        let earlier = tiles.drop_last();
        assert forall|i: int| 0 <= i < earlier.len() implies paste_target(
            x,
            y,
            (#[trigger] earlier[i]).0,
        ) != (cell.0 as int, cell.1 as int) by {
            assert(earlier[i] == tiles[i]);
        }
        assert forall|i: int| 0 <= i < earlier.len() implies x + (#[trigger] earlier[i]).0.0
            <= i32::MAX && y + earlier[i].0.1 <= i32::MAX by {
            assert(earlier[i] == tiles[i]);
        }
        lemma_paste_keeps_other_cells(layer, earlier, x, y, cell);
        let last = tiles[tiles.len() - 1];
        assert(paste_target(x, y, last.0) != (cell.0 as int, cell.1 as int));
    }
}

/// After a paste of tiles with distinct offsets, none of them the sentinel,
/// each cell that a tile lands on holds that tile.
pub proof fn lemma_paste_writes_each_tile(
    layer: LayerView,
    tiles: Seq<((u32, u32), TileData)>,
    x: i32,
    y: i32,
    k: int,
)
    requires
        0 <= k < tiles.len(),
        paste_fits(tiles, x, y),
        forall|i: int, j: int|
            0 <= i < j < tiles.len() ==> (#[trigger] tiles[i]).0 != (#[trigger] tiles[j]).0,
    ensures
        layer.paste(tiles, x, y).get_tile(
            (x + tiles[k].0.0) as i32,
            (y + tiles[k].0.1) as i32,
        ) == if tiles[k].1.is_sentinel() {
            TileData::sentinel()
        } else {
            tiles[k].1
        },
    decreases tiles.len(),
{
    let earlier = tiles.drop_last();
    let last = tiles[tiles.len() - 1];
    if k < tiles.len() - 1 {
        assert forall|i: int| 0 <= i < earlier.len() implies x + (#[trigger] earlier[i]).0.0
            <= i32::MAX && y + earlier[i].0.1 <= i32::MAX by {
            assert(earlier[i] == tiles[i]);
        }
        assert forall|i: int, j: int| 0 <= i < j < earlier.len() implies (#[trigger] earlier[i]).0
            != (#[trigger] earlier[j]).0 by {
            assert(earlier[i] == tiles[i]);
            assert(earlier[j] == tiles[j]);
        }
        lemma_paste_writes_each_tile(layer, earlier, x, y, k);
        assert(earlier[k] == tiles[k]);
        assert(tiles[k].0 != last.0);
    }
}

impl SelectionContent {
    /// Whether a paste at `(x, y)` keeps every tile on the grid.
    pub fn fits_at(&self, x: i32, y: i32) -> (fits: bool)
        ensures
            fits == paste_fits(self.tiles@, x, y),
    {
        let mut i: usize = 0;
        while i < self.tiles.len()
            invariant
                i <= self.tiles.len(),
                paste_fits(self.tiles@.take(i as int), x, y),
            decreases self.tiles.len() - i,
        {
            let offset = self.tiles[i].0;
            if x as i64 + offset.0 as i64 > i32::MAX as i64 || y as i64 + offset.1 as i64
                > i32::MAX as i64 {
                return false;
            }
            proof {
                let next = self.tiles@.take(i + 1);
                assert forall|j: int| 0 <= j < next.len() implies x + (#[trigger] next[j]).0.0
                    <= i32::MAX && y + next[j].0.1 <= i32::MAX by {
                    if j < i {
                        assert(self.tiles@.take(i as int)[j] == next[j]);
                    }
                }
            }
            i += 1;
        }
        proof {
            assert(self.tiles@.take(i as int) =~= self.tiles@);
        }
        true
    }
}

impl Layer {
    /// Collects the tiles of `region`, each under its offset from the
    /// region's corner.
    pub fn copy_region(&self, region: &Region) -> (content: SelectionContent)
        requires
            region.wf(),
        ensures
            content.origin == (region.min_x, region.min_y),
            content.width == region.spec_width(),
            content.height == region.spec_height(),
            captures(content.tiles@, self@, *region),
    {
        let mut tiles: Vec<((u32, u32), TileData)> = Vec::new();
        let mut x: i64 = region.min_x as i64;
        while x <= region.max_x as i64
            invariant
                region.wf(),
                region.min_x <= x <= region.max_x + 1,
                captures_before(tiles@, self@, *region, x as int, region.min_y as int),
            decreases region.max_x + 1 - x,
        {
            let mut y: i64 = region.min_y as i64;
            while y <= region.max_y as i64
                invariant
                    region.wf(),
                    region.min_x <= x <= region.max_x,
                    region.min_y <= y <= region.max_y + 1,
                    captures_before(tiles@, self@, *region, x as int, y as int),
                decreases region.max_y + 1 - y,
            {
                let tile = self.get_tile(x as i32, y as i32);
                let ghost before = tiles@;
                if !tile.is_empty() {
                    let offset = (
                        (x - region.min_x as i64) as u32,
                        (y - region.min_y as i64) as u32,
                    );
                    tiles.push((offset, tile));
                    proof {
                        assert(tiles@[before.len() as int] == (offset, tile));
                        assert forall|i: int| 0 <= i < before.len() implies tiles@[i]
                            == before[i] by {}
                    }
                }
                proof {
                    let after = tiles@;
                    assert forall|cx: i32, cy: i32|
                        region.contains(cx as int, cy as int) && cell_before(
                            cx as int,
                            cy as int,
                            x as int,
                            y + 1,
                        ) && !(#[trigger] self@.get_tile(cx, cy)).is_sentinel() implies exists|
                        i: int,
                    |
                        0 <= i < after.len() && (#[trigger] after[i]).0 == (
                            (cx - region.min_x) as u32,
                            (cy - region.min_y) as u32,
                        ) by {
                        if cx == x && cy == y {
                            assert(after[before.len() as int].0 == (
                                (cx - region.min_x) as u32,
                                (cy - region.min_y) as u32,
                            ));
                        } else {
                            assert(cell_before(cx as int, cy as int, x as int, y as int));
                            let i = choose|i: int|
                                0 <= i < before.len() && (#[trigger] before[i]).0 == (
                                    (cx - region.min_x) as u32,
                                    (cy - region.min_y) as u32,
                                );
                            assert(after[i] == before[i]);
                        }
                    }
                    assert(captures_before(after, self@, *region, x as int, y + 1));
                }
                y += 1;
            }
            proof {
                assert(captures_before(tiles@, self@, *region, x + 1, region.min_y as int));
            }
            x += 1;
        }
        proof {
            assert(captures(tiles@, self@, *region));
        }
        SelectionContent {
            tiles,
            origin: (region.min_x, region.min_y),
            width: region.width(),
            height: region.height(),
        }
    }

    /// Writes the tiles, first to last, each at `(x, y)` plus its offset.
    /// Cells that no tile lands on are left as they are.
    pub fn paste_tiles(&mut self, tiles: &Vec<((u32, u32), TileData)>, x: i32, y: i32)
        requires
            old(self).wf(),
            paste_fits(tiles@, x, y),
        ensures
            final(self)@ == old(self)@.paste(tiles@, x, y),
            final(self).wf(),
    {
        let mut i: usize = 0;
        while i < tiles.len()
            invariant
                i <= tiles.len(),
                paste_fits(tiles@, x, y),
                self.wf(),
                self@ == old(self)@.paste(tiles@.take(i as int), x, y),
            decreases tiles.len() - i,
        {
            let (offset, tile) = tiles[i];
            proof {
                assert(tiles@.take(i + 1).drop_last() =~= tiles@.take(i as int));
                assert(tiles@.take(i + 1).last() == tiles@[i as int]);
            }
            self.set_tile(
                (x as i64 + offset.0 as i64) as i32,
                (y as i64 + offset.1 as i64) as i32,
                tile,
            );
            i += 1;
        }
        proof {
            assert(tiles@.take(i as int) =~= tiles@);
        }
    }
}

} // verus!
