//! Levels: an ordered stack of layers with display metadata.
//!
//! The order of the layers is the drawing order: a later layer draws on top.
//! A level always has at least one layer. Width and height are hints for the
//! display; no cell is refused for lying outside them.

use crate::clipboard::paste_fits;
use crate::layer::{lists_color, Layer, LayerView};
use crate::region::Region;
use crate::tile::TileData;
use vstd::prelude::*;

verus! {

/// The views of a sequence of layers.
pub open spec fn layer_views(layers: Seq<Layer>) -> Seq<LayerView> {
    layers.map_values(|layer: Layer| layer@)
}

/// Every layer keeps its invariant.
pub open spec fn layers_wf(layers: Seq<LayerView>) -> bool {
    forall|i: int| 0 <= i < layers.len() ==> (#[trigger] layers[i]).wf()
}

/// The names of the layers that a new level starts with.
pub open spec fn default_layer_names() -> Seq<Seq<char>> {
    seq!["Background"@, "Main"@, "Foreground"@]
}

/// Fresh empty layers with the given names.
pub open spec fn fresh_layers(names: Seq<Seq<char>>) -> Seq<LayerView> {
    names.map_values(|name: Seq<char>| LayerView::new(name))
}

/// Deep copy of a stack of layers.
pub fn clone_layers(layers: &Vec<Layer>) -> (copy: Vec<Layer>)
    ensures
        layer_views(copy@) == layer_views(layers@),
{
    let mut copy: Vec<Layer> = Vec::new();
    let mut i: usize = 0;
    while i < layers.len()
        invariant
            i <= layers.len(),
            copy.len() == i,
            forall|j: int| 0 <= j < i ==> (#[trigger] copy@[j])@ == layers@[j]@,
        decreases layers.len() - i,
    {
        copy.push(layers[i].clone());
        i += 1;
    }
    proof {
        assert(layer_views(copy@) =~= layer_views(layers@));
    }
    copy
}

/// `cells` lists the cells that hold the flat colour `color`, layer after
/// layer from the bottom: first those of the first layer, each once, then
/// those of the second, and so on. A cell is listed once for each layer in
/// which it holds the colour.
pub open spec fn lists_color_in_layers(
    cells: Seq<(i32, i32)>,
    layers: Seq<LayerView>,
    color: [u8; 3],
) -> bool
    decreases layers.len(),
{
    if layers.len() == 0 {
        cells.len() == 0
    } else {
        exists|k: int|
            0 <= k <= cells.len() && lists_color_in_layers(
                #[trigger] cells.take(k),
                layers.drop_last(),
                color,
            ) && lists_color(cells.skip(k), layers.last().tiles, color)
    }
}

/// `i` is the place of the first layer called `name`.
pub open spec fn layer_named_at(layers: Seq<LayerView>, name: Seq<char>, i: int) -> bool {
    &&& 0 <= i < layers.len()
    &&& layers[i].name == name
    &&& forall|j: int| 0 <= j < i ==> (#[trigger] layers[j]).name != name
}

/// The mathematical content of a level.
pub struct LevelView {
    pub name: Seq<char>,
    pub width: u32,
    pub height: u32,
    pub tile_size: u32,
    pub layers: Seq<LayerView>,
}

impl LevelView {
    /// At least one layer exists, and every layer keeps its invariant.
    pub open spec fn wf(self) -> bool {
        &&& self.layers.len() >= 1
        &&& layers_wf(self.layers)
    }

    pub open spec fn new(name: Seq<char>, width: u32, height: u32, tile_size: u32) -> LevelView {
        LevelView { name, width, height, tile_size, layers: fresh_layers(default_layer_names()) }
    }

    pub open spec fn with_layers(self, layers: Seq<LayerView>) -> LevelView {
        LevelView { layers, ..self }
    }

    pub open spec fn add_layer(self, name: Seq<char>) -> LevelView {
        self.with_layers(self.layers.push(LayerView::new(name)))
    }

    /// Removal is refused for an index out of bounds and for the last layer.
    pub open spec fn can_remove_layer(self, index: int) -> bool {
        self.layers.len() > 1 && 0 <= index < self.layers.len()
    }

    pub open spec fn remove_layer(self, index: int) -> LevelView {
        if self.can_remove_layer(index) {
            self.with_layers(self.layers.remove(index))
        } else {
            self
        }
    }

    /// The level with the layers at `i` and `j` exchanged.
    pub open spec fn swap_layers(self, i: int, j: int) -> LevelView {
        self.with_layers(self.layers.update(i, self.layers[j]).update(j, self.layers[i]))
    }

    pub open spec fn can_move_layer_up(self, index: int) -> bool {
        0 < index < self.layers.len()
    }

    pub open spec fn move_layer_up(self, index: int) -> LevelView {
        if self.can_move_layer_up(index) {
            self.swap_layers(index, index - 1)
        } else {
            self
        }
    }

    pub open spec fn can_move_layer_down(self, index: int) -> bool {
        0 <= index < self.layers.len() - 1
    }

    pub open spec fn move_layer_down(self, index: int) -> LevelView {
        if self.can_move_layer_down(index) {
            self.swap_layers(index, index + 1)
        } else {
            self
        }
    }

    pub open spec fn rename_layer(self, index: int, name: Seq<char>) -> LevelView {
        if 0 <= index < self.layers.len() {
            self.with_layers(
                self.layers.update(index, LayerView { name, ..self.layers[index] }),
            )
        } else {
            self
        }
    }

    pub open spec fn set_layer_visible(self, index: int, visible: bool) -> LevelView {
        if 0 <= index < self.layers.len() {
            self.with_layers(
                self.layers.update(index, LayerView { visible, ..self.layers[index] }),
            )
        } else {
            self
        }
    }

    /// A write of `tile` to cell `(x, y)` of layer `index`; no change where
    /// there is no such layer.
    pub open spec fn set_tile(self, index: int, x: i32, y: i32, tile: TileData) -> LevelView {
        if 0 <= index < self.layers.len() {
            self.with_layers(self.layers.update(index, self.layers[index].set_tile(x, y, tile)))
        } else {
            self
        }
    }

    /// A read of cell `(x, y)` of layer `index`; the sentinel where there is
    /// no such layer.
    pub open spec fn get_tile(self, index: int, x: i32, y: i32) -> TileData {
        if 0 <= index < self.layers.len() {
            self.layers[index].get_tile(x, y)
        } else {
            TileData::sentinel()
        }
    }

    pub open spec fn clear_layer(self, index: int) -> LevelView {
        if 0 <= index < self.layers.len() {
            self.with_layers(self.layers.update(index, self.layers[index].clear()))
        } else {
            self
        }
    }

    /// The layer at `index`, or an empty layer where there is none.
    pub open spec fn layer_or_empty(self, index: int) -> LayerView {
        if 0 <= index < self.layers.len() {
            self.layers[index]
        } else {
            LayerView::new(Seq::empty())
        }
    }

    /// A write of `tile` to every cell of `region` in layer `index`; no
    /// change where there is no such layer.
    pub open spec fn fill(self, index: int, region: Region, tile: TileData) -> LevelView {
        if 0 <= index < self.layers.len() {
            self.with_layers(self.layers.update(index, self.layers[index].fill(region, tile)))
        } else {
            self
        }
    }

    /// A paste of `tiles` at `(x, y)` into layer `index`; no change where
    /// there is no such layer.
    pub open spec fn paste(
        self,
        index: int,
        tiles: Seq<((u32, u32), TileData)>,
        x: i32,
        y: i32,
    ) -> LevelView {
        if 0 <= index < self.layers.len() {
            self.with_layers(self.layers.update(index, self.layers[index].paste(tiles, x, y)))
        } else {
            self
        }
    }

    pub open spec fn clear_all_layers(self) -> LevelView {
        self.with_layers(self.layers.map_values(|layer: LayerView| layer.clear()))
    }
}

/// An ordered stack of layers with a name, a nominal size and a tile size.
#[derive(Debug)]
pub struct Level {
    name: String,
    width: u32,
    height: u32,
    tile_size: u32,
    layers: Vec<Layer>,
}

impl View for Level {
    type V = LevelView;

    closed spec fn view(&self) -> LevelView {
        LevelView {
            name: self.name@,
            width: self.width,
            height: self.height,
            tile_size: self.tile_size,
            layers: layer_views(self.layers@),
        }
    }
}

impl Level {
    /// The level's invariant.
    pub open spec fn wf(&self) -> bool {
        self@.wf()
    }

    /// A level with the three layers "Background", "Main" and "Foreground".
    pub fn new(name: String, width: u32, height: u32, tile_size: u32) -> (level: Level)
        ensures
            level@ == LevelView::new(name@, width, height, tile_size),
            level.wf(),
    {
        let mut layers: Vec<Layer> = Vec::new();
        layers.push(Layer::new("Background".to_owned()));
        layers.push(Layer::new("Main".to_owned()));
        layers.push(Layer::new("Foreground".to_owned()));
        let level = Level { name, width, height, tile_size, layers };
        proof {
            assert(level@.layers =~= fresh_layers(default_layer_names()));
        }
        level
    }

    /// A level with the given metadata and layers.
    pub(crate) fn from_parts(
        name: String,
        width: u32,
        height: u32,
        tile_size: u32,
        layers: Vec<Layer>,
    ) -> (level: Level)
        ensures
            level@ == (LevelView {
                name: name@,
                width,
                height,
                tile_size,
                layers: layer_views(layers@),
            }),
    {
        Level { name, width, height, tile_size, layers }
    }

    pub fn name(&self) -> (name: &String)
        ensures
            name@ == self@.name,
    {
        &self.name
    }

    pub fn set_name(&mut self, name: String)
        ensures
            final(self)@ == (LevelView { name: name@, ..old(self)@ }),
    {
        self.name = name;
    }

    pub fn width(&self) -> (width: u32)
        ensures
            width == self@.width,
    {
        self.width
    }

    pub fn height(&self) -> (height: u32)
        ensures
            height == self@.height,
    {
        self.height
    }

    pub fn tile_size(&self) -> (tile_size: u32)
        ensures
            tile_size == self@.tile_size,
    {
        self.tile_size
    }

    /// Sets the nominal size. It is a hint for the display and limits nothing.
    pub fn set_size(&mut self, width: u32, height: u32)
        ensures
            final(self)@ == (LevelView { width, height, ..old(self)@ }),
    {
        self.width = width;
        self.height = height;
    }

    pub fn layer_count(&self) -> (n: usize)
        ensures
            n == self@.layers.len(),
    {
        self.layers.len()
    }

    /// The layers, bottom first.
    pub fn layers(&self) -> (layers: &Vec<Layer>)
        ensures
            layer_views(layers@) == self@.layers,
    {
        &self.layers
    }

    /// The layer at `index`, if there is one.
    pub fn layer(&self, index: usize) -> (layer: Option<&Layer>)
        ensures
            match layer {
                Some(l) => index < self@.layers.len() && l@ == self@.layers[index as int],
                None => index >= self@.layers.len(),
            },
    {
        if index < self.layers.len() {
            Some(&self.layers[index])
        } else {
            None
        }
    }

    /// The first layer called `name`, if there is one.
    pub fn layer_named(&self, name: &str) -> (layer: Option<&Layer>)
        ensures
            match layer {
                Some(l) => exists|i: int|
                    layer_named_at(self@.layers, name@, i) && l@ == self@.layers[i],
                None => forall|i: int|
                    0 <= i < self@.layers.len() ==> (#[trigger] self@.layers[i]).name != name@,
            },
    {
        let wanted = name.to_owned();
        let mut i: usize = 0;
        while i < self.layers.len()
            invariant
                i <= self.layers.len(),
                wanted@ == name@,
                forall|j: int| 0 <= j < i ==> (#[trigger] self@.layers[j]).name != name@,
            decreases self.layers.len() - i,
        {
            if *self.layers[i].name() == wanted {
                proof {
                    assert(self@.layers[i as int] == self.layers@[i as int]@);
                    assert(layer_named_at(self@.layers, name@, i as int));
                }
                return Some(&self.layers[i]);
            }
            proof {
                assert(self@.layers[i as int] == self.layers@[i as int]@);
            }
            i += 1;
        }
        None
    }

    /// The cells that hold the flat colour `color`, layer after layer.
    pub fn find_tiles_by_color(&self, color: [u8; 3]) -> (cells: Vec<(i32, i32)>)
        ensures
            lists_color_in_layers(cells@, self@.layers, color),
    {
        let mut cells: Vec<(i32, i32)> = Vec::new();
        let mut i: usize = 0;
        proof {
            assert(self@.layers.take(0).len() == 0);
        }
        while i < self.layers.len()
            invariant
                i <= self.layers.len(),
                lists_color_in_layers(cells@, self@.layers.take(i as int), color),
            decreases self.layers.len() - i,
        {
            let ghost before = cells@;
            let mut found = self.layers[i].find_tiles_by_color(color);
            let ghost part = found@;
            cells.append(&mut found);
            proof {
                let upto = self@.layers.take(i + 1);
                assert(upto.drop_last() =~= self@.layers.take(i as int));
                assert(upto.last() == self.layers@[i as int]@);
                assert(cells@.take(before.len() as int) =~= before);
                assert(cells@.skip(before.len() as int) =~= part);
                assert(lists_color_in_layers(
                    cells@.take(before.len() as int),
                    upto.drop_last(),
                    color,
                ));
                assert(lists_color(cells@.skip(before.len() as int), upto.last().tiles, color));
                assert(lists_color_in_layers(cells@, upto, color));
            }
            i += 1;
        }
        proof {
            assert(self@.layers.take(i as int) =~= self@.layers);
        }
        cells
    }

    /// Replaces the whole stack of layers.
    pub(crate) fn set_layers(&mut self, layers: Vec<Layer>)
        ensures
            final(self)@ == old(self)@.with_layers(layer_views(layers@)),
    {
        self.layers = layers;
    }

    /// Replaces the stack by fresh empty layers with the given names. With no
    /// name given nothing changes, since a level keeps at least one layer.
    pub fn reset_layers(&mut self, names: Vec<String>) -> (done: bool)
        requires
            old(self).wf(),
        ensures
            done == (names.len() > 0),
            done ==> final(self)@ == old(self)@.with_layers(
                fresh_layers(names@.map_values(|name: String| name@)),
            ),
            !done ==> final(self)@ == old(self)@,
            final(self).wf(),
    {
        if names.len() == 0 {
            return false;
        }
        let mut layers: Vec<Layer> = Vec::new();
        let mut i: usize = 0;
        while i < names.len()
            invariant
                i <= names.len(),
                layers.len() == i,
                forall|j: int| 0 <= j < i ==> (#[trigger] layers@[j])@ == LayerView::new(names@[j]@),
            decreases names.len() - i,
        {
            layers.push(Layer::new(names[i].clone()));
            i += 1;
        }
        self.layers = layers;
        proof {
            assert(self@.layers =~= fresh_layers(names@.map_values(|name: String| name@)));
        }
        true
    }

    /// Appends a new empty layer on top.
    pub fn add_layer(&mut self, name: String)
        ensures
            final(self)@ == old(self)@.add_layer(name@),
            old(self).wf() ==> final(self).wf(),
    {
        self.layers.push(Layer::new(name));
        proof {
            assert(self@.layers =~= old(self)@.layers.push(LayerView::new(name@)));
        }
    }

    /// Removes the layer at `index` and closes the gap. Refused, with no
    /// change, for an index out of bounds and for the last remaining layer.
    pub fn remove_layer(&mut self, index: usize) -> (removed: bool)
        ensures
            removed == old(self)@.can_remove_layer(index as int),
            final(self)@ == old(self)@.remove_layer(index as int),
            old(self).wf() ==> final(self).wf(),
    {
        if self.layers.len() > 1 && index < self.layers.len() {
            self.layers.remove(index);
            proof {
                assert(self@.layers =~= old(self)@.layers.remove(index as int));
            }
            true
        } else {
            false
        }
    }

    fn swap_layers(&mut self, i: usize, j: usize)
        requires
            i < j < old(self).layers.len(),
        ensures
            final(self)@ == old(self)@.swap_layers(i as int, j as int),
            final(self)@ == old(self)@.swap_layers(j as int, i as int),
    {
        let upper = self.layers.remove(j);
        let lower = self.layers.remove(i);
        self.layers.insert(i, upper);
        self.layers.insert(j, lower);
        proof {
            assert(self@.layers =~= old(self)@.swap_layers(i as int, j as int).layers);
            assert(self@.layers =~= old(self)@.swap_layers(j as int, i as int).layers);
        }
    }

    /// Exchanges the layer at `index` with the one below it. Refused, with no
    /// change, at index 0 and for an index out of bounds.
    pub fn move_layer_up(&mut self, index: usize) -> (moved: bool)
        ensures
            moved == old(self)@.can_move_layer_up(index as int),
            final(self)@ == old(self)@.move_layer_up(index as int),
            old(self).wf() ==> final(self).wf(),
    {
        if index > 0 && index < self.layers.len() {
            self.swap_layers(index - 1, index);
            true
        } else {
            false
        }
    }

    /// Exchanges the layer at `index` with the one above it. Refused, with no
    /// change, at the last index and for an index out of bounds.
    pub fn move_layer_down(&mut self, index: usize) -> (moved: bool)
        ensures
            moved == old(self)@.can_move_layer_down(index as int),
            final(self)@ == old(self)@.move_layer_down(index as int),
            old(self).wf() ==> final(self).wf(),
    {
        let count = self.layers.len();
        if count > 0 && index < count - 1 {
            self.swap_layers(index, index + 1);
            true
        } else {
            false
        }
    }

    /// Renames the layer at `index`. Refused for an index out of bounds.
    pub fn rename_layer(&mut self, index: usize, new_name: String) -> (renamed: bool)
        ensures
            renamed == (index < old(self)@.layers.len()),
            final(self)@ == old(self)@.rename_layer(index as int, new_name@),
            old(self).wf() ==> final(self).wf(),
    {
        if index < self.layers.len() {
            self.layers[index].set_name(new_name);
            proof {
                assert(self@.layers =~= old(self)@.rename_layer(index as int, new_name@).layers);
            }
            true
        } else {
            false
        }
    }

    /// Shows or hides the layer at `index`. Refused for an index out of
    /// bounds.
    pub fn set_layer_visible(&mut self, index: usize, visible: bool) -> (changed: bool)
        ensures
            changed == (index < old(self)@.layers.len()),
            final(self)@ == old(self)@.set_layer_visible(index as int, visible),
            old(self).wf() ==> final(self).wf(),
    {
        if index < self.layers.len() {
            self.layers[index].set_visible(visible);
            proof {
                assert(self@.layers =~= old(self)@.set_layer_visible(
                    index as int,
                    visible,
                ).layers);
            }
            true
        } else {
            false
        }
    }

    /// Writes `tile` to cell `(x, y)` of the layer at `index`. Refused for an
    /// index out of bounds.
    pub fn set_tile(&mut self, index: usize, x: i32, y: i32, tile: TileData) -> (written: bool)
        requires
            old(self).wf(),
        ensures
            written == (index < old(self)@.layers.len()),
            final(self)@ == old(self)@.set_tile(index as int, x, y, tile),
            final(self).wf(),
    {
        if index < self.layers.len() {
            assert(self@.layers[index as int].wf());
            self.layers[index].set_tile(x, y, tile);
            proof {
                assert(self@.layers =~= old(self)@.set_tile(index as int, x, y, tile).layers);
            }
            true
        } else {
            false
        }
    }

    /// Reads cell `(x, y)` of the layer at `index`; the sentinel where there
    /// is no such layer.
    pub fn get_tile(&self, index: usize, x: i32, y: i32) -> (tile: TileData)
        ensures
            tile == self@.get_tile(index as int, x, y),
    {
        if index < self.layers.len() {
            self.layers[index].get_tile(x, y)
        } else {
            TileData::empty()
        }
    }

    /// Writes `tile` to every cell of `region` in the layer at `index`.
    /// Refused for an index out of bounds.
    pub fn fill_region(&mut self, index: usize, region: &Region, tile: TileData) -> (written: bool)
        requires
            old(self).wf(),
            region.wf(),
        ensures
            written == (index < old(self)@.layers.len()),
            final(self)@ == old(self)@.fill(index as int, *region, tile),
            final(self).wf(),
    {
        if index < self.layers.len() {
            assert(self@.layers[index as int].wf());
            self.layers[index].fill_region(region, tile);
            proof {
                assert(self@.layers =~= old(self)@.fill(index as int, *region, tile).layers);
            }
            true
        } else {
            false
        }
    }

    /// Pastes `tiles` at `(x, y)` into the layer at `index`. Refused for an
    /// index out of bounds.
    pub fn paste_tiles(
        &mut self,
        index: usize,
        tiles: &Vec<((u32, u32), TileData)>,
        x: i32,
        y: i32,
    ) -> (written: bool)
        requires
            old(self).wf(),
            paste_fits(tiles@, x, y),
        ensures
            written == (index < old(self)@.layers.len()),
            final(self)@ == old(self)@.paste(index as int, tiles@, x, y),
            final(self).wf(),
    {
        if index < self.layers.len() {
            assert(self@.layers[index as int].wf());
            self.layers[index].paste_tiles(tiles, x, y);
            proof {
                assert(self@.layers =~= old(self)@.paste(index as int, tiles@, x, y).layers);
            }
            true
        } else {
            false
        }
    }

    /// Empties the layer at `index`. Refused for an index out of bounds.
    pub fn clear_layer(&mut self, index: usize) -> (cleared: bool)
        ensures
            cleared == (index < old(self)@.layers.len()),
            final(self)@ == old(self)@.clear_layer(index as int),
            old(self).wf() ==> final(self).wf(),
    {
        if index < self.layers.len() {
            self.layers[index].clear();
            proof {
                assert(self@.layers =~= old(self)@.clear_layer(index as int).layers);
            }
            true
        } else {
            false
        }
    }

    /// Empties every layer.
    pub fn clear_all_layers(&mut self)
        ensures
            final(self)@ == old(self)@.clear_all_layers(),
            old(self).wf() ==> final(self).wf(),
    {
        let mut i: usize = 0;
        while i < self.layers.len()
            invariant
                i <= self.layers.len(),
                self.layers.len() == old(self).layers.len(),
                self.name == old(self).name,
                self.width == old(self).width,
                self.height == old(self).height,
                self.tile_size == old(self).tile_size,
                forall|j: int| 0 <= j < i ==> (#[trigger] self.layers@[j])@ == old(self).layers@[j]@.clear(),
                forall|j: int| i <= j < self.layers.len() ==> (#[trigger] self.layers@[j]) == old(self).layers@[j],
            decreases self.layers.len() - i,
        {
            self.layers[i].clear();
            i += 1;
        }
        proof {
            assert(self@.layers =~= old(self)@.clear_all_layers().layers);
        }
    }

    /// Deep copy of the layers, for a history snapshot.
    pub fn snapshot_layers(&self) -> (copy: Vec<Layer>)
        ensures
            layer_views(copy@) == self@.layers,
    {
        clone_layers(&self.layers)
    }
}

impl Clone for Level {
    /// A deep copy.
    fn clone(&self) -> (copy: Level)
        ensures
            copy@ == self@,
    {
        Level {
            name: self.name.clone(),
            width: self.width,
            height: self.height,
            tile_size: self.tile_size,
            layers: clone_layers(&self.layers),
        }
    }
}

} // verus!
