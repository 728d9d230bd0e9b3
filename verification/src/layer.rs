//! Layers: named, independently visible sparse grids of tiles.
//!
//! A layer maps grid cells `(x, y)` to tiles. A cell that holds no tile reads
//! as the sentinel colour, and the sentinel is never stored.

use crate::tile::TileData;
use std::collections::HashMap;
use vstd::prelude::*;
use vstd::std_specs::iter::IteratorSpec;

verus! {

broadcast use vstd::std_specs::hash::group_hash_axioms;

/// The mathematical content of a layer.
pub struct LayerView {
    pub name: Seq<char>,
    pub visible: bool,
    pub tiles: Map<(i32, i32), TileData>,
}

impl LayerView {
    /// A fresh layer: visible, with no tile.
    pub open spec fn new(name: Seq<char>) -> LayerView {
        LayerView { name, visible: true, tiles: Map::empty() }
    }

    /// The sentinel is never stored, and only finitely many cells are filled.
    pub open spec fn wf(self) -> bool {
        &&& self.tiles.dom().finite()
        &&& forall|p: (i32, i32)| #[trigger]
            self.tiles.contains_key(p) ==> !self.tiles[p].is_sentinel()
    }

    /// What a read of cell `(x, y)` returns.
    pub open spec fn get_tile(self, x: i32, y: i32) -> TileData {
        if self.tiles.contains_key((x, y)) {
            self.tiles[(x, y)]
        } else {
            TileData::sentinel()
        }
    }

    /// The layer after a write of `tile` to cell `(x, y)`: the sentinel
    /// removes the entry, any other value replaces it.
    pub open spec fn set_tile(self, x: i32, y: i32, tile: TileData) -> LayerView {
        LayerView {
            tiles: if tile.is_sentinel() {
                self.tiles.remove((x, y))
            } else {
                self.tiles.insert((x, y), tile)
            },
            ..self
        }
    }

    /// The layer with every cell emptied.
    pub open spec fn clear(self) -> LayerView {
        LayerView { tiles: Map::empty(), ..self }
    }
}

/// `entries` lists the filled cells of `tiles`: each of them once, with its
/// tile, in no particular order.
pub open spec fn lists_tiles(
    entries: Seq<((i32, i32), TileData)>,
    tiles: Map<(i32, i32), TileData>,
) -> bool {
    &&& forall|i: int|
        0 <= i < entries.len() ==> tiles.contains_key((#[trigger] entries[i]).0) && tiles[entries[i].0]
            == entries[i].1
    &&& forall|p: (i32, i32)| #[trigger]
        tiles.contains_key(p) ==> exists|i: int|
            0 <= i < entries.len() && (#[trigger] entries[i]).0 == p
    &&& forall|i: int, j: int|
        0 <= i < j < entries.len() ==> (#[trigger] entries[i]).0 != (#[trigger] entries[j]).0
}

/// `cells` lists the cells of `tiles` that hold the flat colour `color`:
/// each of them once, in no particular order.
pub open spec fn lists_color(
    cells: Seq<(i32, i32)>,
    tiles: Map<(i32, i32), TileData>,
    color: [u8; 3],
) -> bool {
    &&& forall|i: int|
        0 <= i < cells.len() ==> tiles.contains_key(#[trigger] cells[i]) && tiles[cells[i]]
            == TileData::Color(color)
    &&& forall|p: (i32, i32)| #[trigger]
        tiles.contains_key(p) && tiles[p] == TileData::Color(color) ==> exists|i: int|
            0 <= i < cells.len() && #[trigger] cells[i] == p
    &&& forall|i: int, j: int|
        0 <= i < j < cells.len() ==> #[trigger] cells[i] != #[trigger] cells[j]
}

/// A write of the sentinel empties the cell: the read that follows gives the
/// sentinel, and the cell is absent from the map.
pub proof fn lemma_set_sentinel_empties_cell(layer: LayerView, x: i32, y: i32)
    ensures
        layer.set_tile(x, y, TileData::sentinel()).get_tile(x, y) == TileData::sentinel(),
        !layer.set_tile(x, y, TileData::sentinel()).tiles.contains_key((x, y)),
{
    TileData::sentinel().lemma_sentinel_is_unique();
}

/// A write of any other value is read back, and writes keep the invariant.
pub proof fn lemma_set_then_get(layer: LayerView, x: i32, y: i32, tile: TileData)
    requires
        layer.wf(),
    ensures
        layer.set_tile(x, y, tile).get_tile(x, y) == tile,
        layer.set_tile(x, y, tile).wf(),
        forall|ox: i32, oy: i32|
            (ox, oy) != (x, y) ==> #[trigger] layer.set_tile(x, y, tile).get_tile(ox, oy)
                == layer.get_tile(ox, oy),
{
    tile.lemma_sentinel_is_unique();
}

/// The integer under which cell `(x, y)` is stored: the column and the row,
/// each shifted to be non-negative, side by side in one 64-bit number.
spec fn cell_key(x: i32, y: i32) -> u64 {
    ((x + 0x8000_0000) * 0x1_0000_0000 + (y + 0x8000_0000)) as u64
}

/// The cell that is stored under key `k`.
spec fn key_cell(k: u64) -> (i32, i32) {
    ((k / 0x1_0000_0000 - 0x8000_0000) as i32, (k % 0x1_0000_0000 - 0x8000_0000) as i32)
}

/// Cells and keys correspond one to one.
proof fn lemma_cell_key_bijective()
    ensures
        forall|x: i32, y: i32| key_cell(#[trigger] cell_key(x, y)) == (x, y),
        forall|k: u64| cell_key((#[trigger] key_cell(k)).0, key_cell(k).1) == k,
{
}

fn key_of(x: i32, y: i32) -> (k: u64)
    ensures
        k == cell_key(x, y),
{
    let col: u64 = (x as i64 + 0x8000_0000) as u64;
    let row: u64 = (y as i64 + 0x8000_0000) as u64;
    col * 0x1_0000_0000 + row
}

fn cell_of(k: u64) -> (p: (i32, i32))
    ensures
        p == key_cell(k),
{
    let col: u64 = k / 0x1_0000_0000;
    let row: u64 = k % 0x1_0000_0000;
    ((col as i64 - 0x8000_0000) as i32, (row as i64 - 0x8000_0000) as i32)
}

/// A named sparse grid of tiles with a visibility flag.
#[derive(Debug)]
pub struct Layer {
    name: String,
    visible: bool,
    cells: HashMap<u64, TileData>,
}

impl Layer {
    /// The filled cells of the layer, by position.
    pub closed spec fn tiles(&self) -> Map<(i32, i32), TileData> {
        Map::new(
            |p: (i32, i32)| self.cells@.contains_key(cell_key(p.0, p.1)),
            |p: (i32, i32)| self.cells@[cell_key(p.0, p.1)],
        )
    }

    /// The layer's invariant: the sentinel is never stored.
    pub open spec fn wf(&self) -> bool {
        self@.wf()
    }

    proof fn lemma_tiles_finite(&self)
        ensures
            self.tiles().dom().finite(),
    {
        lemma_cell_key_bijective();
        let keys = self.cells@.dom();
        let cell = |k: u64| key_cell(k);
        assert(keys.finite());
        keys.lemma_map_finite(cell);
        assert forall|p: (i32, i32)| self.tiles().dom().contains(p) implies keys.map(
            cell,
        ).contains(p) by {
            let k = cell_key(p.0, p.1);
            assert(keys.contains(k));
            assert(cell(k) == p);
        }
        vstd::set_lib::lemma_len_subset(self.tiles().dom(), keys.map(cell));
    }

    pub fn new(name: String) -> (layer: Layer)
        ensures
            layer@ == LayerView::new(name@),
            layer.wf(),
    {
        let layer = Layer { name, visible: true, cells: HashMap::new() };
        proof {
            assert(layer.tiles() =~= Map::empty());
        }
        layer
    }

    pub fn name(&self) -> (name: &String)
        ensures
            name@ == self@.name,
    {
        &self.name
    }

    pub fn set_name(&mut self, name: String)
        ensures
            final(self)@ == (LayerView { name: name@, ..old(self)@ }),
    {
        self.name = name;
    }

    pub fn is_visible(&self) -> (visible: bool)
        ensures
            visible == self@.visible,
    {
        self.visible
    }

    pub fn set_visible(&mut self, visible: bool)
        ensures
            final(self)@ == (LayerView { visible, ..old(self)@ }),
    {
        self.visible = visible;
    }

    /// Writes `tile_data` to cell `(x, y)`. Writing the sentinel empties the
    /// cell.
    pub fn set_tile(&mut self, x: i32, y: i32, tile_data: TileData)
        requires
            old(self).wf(),
        ensures
            final(self)@ == old(self)@.set_tile(x, y, tile_data),
            final(self).wf(),
    {
        proof {
            lemma_cell_key_bijective();
        }
        let key = key_of(x, y);
        if tile_data.is_empty() {
            self.cells.remove(&key);
            proof {
                assert(self.tiles() =~= old(self).tiles().remove((x, y)));
            }
        } else {
            self.cells.insert(key, tile_data);
            proof {
                assert(self.tiles() =~= old(self).tiles().insert((x, y), tile_data));
            }
        }
    }

    /// Reads cell `(x, y)`: the stored tile, or the sentinel where the cell
    /// is empty.
    pub fn get_tile(&self, x: i32, y: i32) -> (tile: TileData)
        ensures
            tile == self@.get_tile(x, y),
    {
        let key = key_of(x, y);
        match self.cells.get(&key) {
            Some(tile) => *tile,
            None => TileData::empty(),
        }
    }

    /// Whether cell `(x, y)` holds a tile.
    pub fn has_tile(&self, x: i32, y: i32) -> (b: bool)
        ensures
            b == self@.tiles.contains_key((x, y)),
    {
        let key = key_of(x, y);
        self.cells.contains_key(&key)
    }

    /// The filled cells with their tiles, each once. The order is that of
    /// the hash map and means nothing.
    pub fn entries(&self) -> (entries: Vec<((i32, i32), TileData)>)
        ensures
            lists_tiles(entries@, self@.tiles),
    {
        proof {
            lemma_cell_key_bijective();
        }
        let mut entries: Vec<((i32, i32), TileData)> = Vec::new();
        let ghost listed = self.cells.iter().remaining();
        for pair in it: self.cells.iter()
            invariant
                it.seq() == listed,
                listed == self.cells.iter().remaining(),
                listed.no_duplicates(),
                entries@.len() == it.index(),
                forall|j: int|
                    0 <= j < it.index() ==> (#[trigger] entries@[j]) == (
                        key_cell(*listed[j].0),
                        *listed[j].1,
                    ),
        {
            let (key, tile) = pair;
            entries.push((cell_of(*key), *tile));
        }
        proof {
            let found = entries@;
            assert forall|p: (i32, i32)| #[trigger] self.tiles().contains_key(p) implies exists|
                i: int,
            |
                0 <= i < found.len() && (#[trigger] found[i]).0 == p by {
                let k = cell_key(p.0, p.1);
                assert(self.cells@.contains_key(k));
                assert(listed.contains((&k, &self.cells@[k])));
                let i = choose|i: int| 0 <= i < listed.len() && listed[i] == (&k, &self.cells@[k]);
                assert(found[i].0 == p);
            }
            assert forall|i: int, j: int| 0 <= i < j < found.len() implies (#[trigger] found[i]).0
                != (#[trigger] found[j]).0 by {
                if found[i].0 == found[j].0 {
                    assert(*listed[i].0 == *listed[j].0);
                    assert(self.cells@[*listed[i].0] == *listed[i].1);
                    assert(self.cells@[*listed[j].0] == *listed[j].1);
                    assert(listed[i] == listed[j]);
                }
            }
            assert forall|i: int| 0 <= i < found.len() implies self.tiles().contains_key(
                (#[trigger] found[i]).0,
            ) && self.tiles()[found[i].0] == found[i].1 by {
                assert(self.cells@.contains_key(*listed[i].0));
            }
        }
        entries
    }

    /// The cells that hold the flat colour `color`, each once.
    pub fn find_tiles_by_color(&self, color: [u8; 3]) -> (cells: Vec<(i32, i32)>)
        ensures
            lists_color(cells@, self@.tiles, color),
    {
        let entries = self.entries();
        let mut cells: Vec<(i32, i32)> = Vec::new();
        let ghost picked: Seq<int> = Seq::empty();
        let mut i: usize = 0;
        while i < entries.len()
            invariant
                i <= entries.len(),
                lists_tiles(entries@, self@.tiles),
                picked.len() == cells.len(),
                forall|k: int|
                    0 <= k < picked.len() ==> 0 <= #[trigger] picked[k] < i && cells@[k]
                        == entries@[picked[k]].0 && entries@[picked[k]].1 == TileData::Color(
                        color,
                    ),
                forall|k: int, l: int| 0 <= k < l < picked.len() ==> picked[k] < picked[l],
                forall|j: int|
                    0 <= j < i && (#[trigger] entries@[j]).1 == TileData::Color(color)
                        ==> exists|k: int| 0 <= k < picked.len() && #[trigger] picked[k] == j,
            decreases entries.len() - i,
        {
            let (cell, tile) = entries[i];
            let same = match tile {
                TileData::Color(rgb) => {
                    proof {
                        if rgb[0] == color[0] && rgb[1] == color[1] && rgb[2] == color[2] {
                            assert(rgb =~= color);
                        }
                    }
                    rgb[0] == color[0] && rgb[1] == color[1] && rgb[2] == color[2]
                },
                TileData::Texture { .. } => false,
            };
            let ghost before = picked;
            if same {
                cells.push(cell);
                proof {
                    picked = picked.push(i as int);
                }
            }
            proof {
                assert forall|j: int|
                    0 <= j < i + 1 && (#[trigger] entries@[j]).1 == TileData::Color(
                        color,
                    ) implies exists|k: int| 0 <= k < picked.len() && #[trigger] picked[k] == j by {
                    if j < i {
                        let k = choose|k: int| 0 <= k < before.len() && #[trigger] before[k] == j;
                        assert(picked[k] == j);
                    } else {
                        assert(picked[picked.len() - 1] == j);
                    }
                }
            }
            i += 1;
        }
        proof {
            let found = cells@;
            assert forall|p: (i32, i32)| #[trigger]
                self@.tiles.contains_key(p) && self@.tiles[p] == TileData::Color(
                    color,
                ) implies exists|k: int| 0 <= k < found.len() && #[trigger] found[k] == p by {
                let j = choose|j: int| 0 <= j < entries.len() && (#[trigger] entries@[j]).0 == p;
                let k = choose|k: int| 0 <= k < picked.len() && #[trigger] picked[k] == j;
                assert(found[k] == p);
            }
            assert forall|k: int, l: int| 0 <= k < l < found.len() implies #[trigger] found[k]
                != #[trigger] found[l] by {
                assert(picked[k] < picked[l]);
                assert(entries@[picked[k]].0 != entries@[picked[l]].0);
            }
            assert forall|k: int| 0 <= k < found.len() implies self@.tiles.contains_key(
                #[trigger] found[k],
            ) && self@.tiles[found[k]] == TileData::Color(color) by {
                assert(0 <= picked[k] < entries.len());
                assert(self@.tiles.contains_key(entries@[picked[k]].0));
            }
        }
        cells
    }

    /// Empties every cell.
    pub fn clear(&mut self)
        ensures
            final(self)@ == old(self)@.clear(),
            final(self).wf(),
    {
        self.cells.clear();
        proof {
            assert(self.tiles() =~= Map::empty());
        }
    }

    /// The number of filled cells.
    pub fn tile_count(&self) -> (n: usize)
        ensures
            n == self@.tiles.len(),
    {
        proof {
            self.lemma_tiles_len();
        }
        self.cells.len()
    }

    proof fn lemma_tiles_len(&self)
        ensures
            self.tiles().len() == self.cells@.len(),
    {
        lemma_cell_key_bijective();
        self.lemma_tiles_finite();
        let key = |p: (i32, i32)| cell_key(p.0, p.1);
        assert(vstd::relations::injective_on(key, self.tiles().dom()));
        assert(self.tiles().dom().map(key) =~= self.cells@.dom()) by {
            assert forall|k: u64| self.cells@.dom().contains(k) implies self.tiles().dom().map(
                key,
            ).contains(k) by {
                assert(self.tiles().dom().contains(key_cell(k)));
                assert(key(key_cell(k)) == k);
            }
        }
        vstd::set_lib::lemma_map_size(self.tiles().dom(), self.cells@.dom(), key);
    }
}

impl View for Layer {
    type V = LayerView;

    closed spec fn view(&self) -> LayerView {
        LayerView { name: self.name@, visible: self.visible, tiles: self.tiles() }
    }
}

impl Clone for Layer {
    /// A deep copy: the same name, visibility and tiles.
    fn clone(&self) -> (copy: Layer)
        ensures
            copy@ == self@,
    {
        let copy = Layer {
            name: self.name.clone(),
            visible: self.visible,
            cells: self.cells.clone(),
        };
        proof {
            assert(copy.tiles() =~= self.tiles());
        }
        copy
    }
}

} // verus!
