//! The editing engine: the level under edit, the current tool, paint value
//! and layer, the selection, the clipboard and the undo history.
//!
//! Pointer events arrive as plain values, one per tick, with the pointer
//! already resolved to a grid cell. Every operation that changes tiles first
//! records one snapshot, so that one undo takes back one user action.

use crate::clipboard::{captures, paste_fits, ClipboardView, SelectionContent};
use crate::history::{History, HistoryState, HistoryView, SnapshotView};
use crate::level::{Level, LevelView};
use crate::region::Region;
use crate::selection::SelectionData;
use crate::tile::TileData;
use vstd::prelude::*;

verus! {

/// The tools of the editor.
#[derive(Debug, Clone, Copy, PartialEq, Eq, Structural)]
pub enum Tool {
    Paint,
    Erase,
    Select,
    LineFill,
    RectFill,
}

/// The value that painting writes.
#[derive(Debug, Clone, Copy, PartialEq)]
pub enum PaintMode {
    ColorTile([u8; 3]),
    TextureTile { tileset_id: usize, tile_index: u32 },
}

impl PaintMode {
    /// The tile that this mode paints.
    pub open spec fn spec_tile(self) -> TileData {
        match self {
            PaintMode::ColorTile(rgb) => TileData::Color(rgb),
            PaintMode::TextureTile { tileset_id, tile_index } => TileData::Texture {
                tileset_id,
                tile_index,
            },
        }
    }

    pub fn tile(&self) -> (tile: TileData)
        ensures
            tile == self.spec_tile(),
    {
        match self {
            PaintMode::ColorTile(rgb) => TileData::Color(*rgb),
            PaintMode::TextureTile { tileset_id, tile_index } => TileData::Texture {
                tileset_id: *tileset_id,
                tile_index: *tile_index,
            },
        }
    }
}

/// Why an operation on the selection or the clipboard did nothing.
#[derive(Debug, Clone, Copy, PartialEq, Eq, Structural)]
pub enum EditError {
    /// There is no committed selection rectangle.
    NoActiveSelection,
    /// Nothing was copied yet.
    ClipboardEmpty,
}

/// What the pointer did during one tick, with the grid cell under it.
///
/// `primary_clicked` and `secondary_clicked` report a click of that button,
/// `primary_dragged` and `secondary_dragged` a drag with it, `dragged` a drag
/// with any button, `drag_stopped` the end of a drag, and `paste_requested`
/// the paste shortcut.
#[derive(Debug, Clone, Copy, PartialEq)]
pub struct PointerInput {
    pub cell: (i32, i32),
    pub primary_clicked: bool,
    pub secondary_clicked: bool,
    pub primary_dragged: bool,
    pub secondary_dragged: bool,
    pub dragged: bool,
    pub drag_stopped: bool,
    pub paste_requested: bool,
}

impl PointerInput {
    /// The primary button acts: a click or a drag.
    pub open spec fn primary(self) -> bool {
        self.primary_clicked || self.primary_dragged
    }

    /// The secondary button acts: a click or a drag.
    pub open spec fn secondary(self) -> bool {
        self.secondary_clicked || self.secondary_dragged
    }
}

/// What a pointer event did.
#[derive(Debug, Clone, Copy, PartialEq, Eq)]
pub enum ToolOutcome {
    /// Nothing happened.
    Idle,
    /// A selection drag started.
    SelectionStarted,
    /// The end corner followed the pointer.
    SelectionMoved,
    /// The selection was committed, with this many cells.
    SelectionCommitted { count: u128 },
    /// The selection or the pending anchor was dropped.
    Cancelled,
    /// The clipboard was pasted, with this many tiles.
    Pasted { tiles: usize },
    /// The paste would leave the grid; nothing was changed.
    PasteOutOfRange,
    /// A fill tool took its anchor.
    AnchorSet,
    /// A fill tool wrote this many cells.
    Filled { count: u128 },
    /// The current paint value was written to the cell.
    Painted,
    /// The cell was emptied.
    Erased,
    /// A snapshot was recorded, but there is no current layer to write to.
    NoLayer,
}

/// The mathematical content of the editor.
pub struct EditorView {
    pub level: LevelView,
    pub current_tool: Tool,
    pub paint_mode: PaintMode,
    pub current_layer: usize,
    pub last_painted: Option<(i32, i32)>,
    pub selection: SelectionData,
    pub history: HistoryView,
    pub clipboard: Option<ClipboardView>,
}

impl EditorView {
    pub open spec fn wf(self) -> bool {
        self.level.wf() && self.history.wf()
    }

    pub open spec fn has_current_layer(self) -> bool {
        self.current_layer < self.level.layers.len()
    }

    /// What a snapshot taken now holds.
    pub open spec fn snapshot(self) -> SnapshotView {
        SnapshotView { layers: self.level.layers, current_layer: self.current_layer }
    }

    /// The editor with the snapshot's layers and current layer.
    pub open spec fn restore(self, snapshot: SnapshotView) -> EditorView {
        EditorView {
            level: self.level.with_layers(snapshot.layers),
            current_layer: snapshot.current_layer,
            ..self
        }
    }

    /// The editor after a snapshot of the present state is recorded.
    pub open spec fn record(self) -> EditorView {
        EditorView { history: self.history.record(self.snapshot()), ..self }
    }

    /// The editor after an undo: the newest recorded state is back, and the
    /// present state is on the redo stack. Nothing changes with an empty
    /// undo stack.
    pub open spec fn undo(self) -> EditorView {
        match self.history.undo_result() {
            Some(previous) => EditorView {
                history: self.history.undo(self.snapshot()),
                ..self.restore(previous)
            },
            None => self,
        }
    }

    /// The editor after a redo; the mirror image of `undo`.
    pub open spec fn redo(self) -> EditorView {
        match self.history.redo_result() {
            Some(next) => EditorView {
                history: self.history.redo(self.snapshot()),
                ..self.restore(next)
            },
            None => self,
        }
    }

    /// A write to the current layer.
    pub open spec fn write(self, cell: (i32, i32), tile: TileData) -> EditorView {
        EditorView {
            level: self.level.set_tile(self.current_layer as int, cell.0, cell.1, tile),
            ..self
        }
    }

    /// One undoable fill of `region` in the current layer.
    pub open spec fn fill(self, region: Region, tile: TileData) -> EditorView {
        let recorded = self.record();
        EditorView {
            level: recorded.level.fill(self.current_layer as int, region, tile),
            ..recorded
        }
    }

    /// One undoable paste of the clipboard at `(x, y)`.
    pub open spec fn paste(self, x: i32, y: i32) -> EditorView {
        match self.clipboard {
            Some(content) => {
                let recorded = self.record();
                EditorView {
                    level: recorded.level.paste(self.current_layer as int, content.tiles, x, y),
                    ..recorded
                }
            },
            None => self,
        }
    }

    /// Whether a paste at `(x, y)` keeps every tile on the grid.
    pub open spec fn paste_fits(self, x: i32, y: i32) -> bool {
        self.clipboard matches Some(content) ==> paste_fits(content.tiles, x, y)
    }

    /// One undoable deletion of the committed selection.
    pub open spec fn delete(self) -> EditorView {
        match self.selection.spec_active_region() {
            Some(region) => EditorView {
                selection: SelectionData::idle(),
                ..self.fill(region, TileData::sentinel())
            },
            None => self,
        }
    }

    /// The editor with another tool. Changing the tool drops the corners of
    /// the selection, and with them a pending anchor.
    pub open spec fn set_tool(self, tool: Tool) -> EditorView {
        EditorView {
            current_tool: tool,
            selection: self.selection.spec_clear_corners(),
            ..self
        }
    }

    /// The rectangle that a fill tool writes for the given anchor and click:
    /// a row or column for the line tool, the bounding box otherwise.
    pub open spec fn fill_target(self, anchor: (i32, i32), cell: (i32, i32)) -> Region {
        if self.current_tool == Tool::LineFill {
            Region::line(anchor, cell)
        } else {
            Region::spanning(anchor, cell)
        }
    }

    /// The selection tool: paste on request, else start, move, commit or
    /// cancel the selection.
    pub open spec fn select_step(self, input: PointerInput) -> (EditorView, ToolOutcome) {
        let cell = input.cell;
        if input.paste_requested && self.clipboard.is_some() {
            if self.paste_fits(cell.0, cell.1) {
                (
                    self.paste(cell.0, cell.1),
                    ToolOutcome::Pasted { tiles: self.clipboard.unwrap().tiles.len() as usize },
                )
            } else {
                (self, ToolOutcome::PasteOutOfRange)
            }
        } else if input.primary_clicked {
            (
                EditorView { selection: SelectionData::spec_begin(cell), ..self },
                ToolOutcome::SelectionStarted,
            )
        } else if input.dragged && self.selection.start.is_some() {
            (
                EditorView { selection: self.selection.spec_update(cell), ..self },
                ToolOutcome::SelectionMoved,
            )
        } else if input.drag_stopped && self.selection.start.is_some() {
            (
                EditorView { selection: self.selection.spec_commit(cell), ..self },
                ToolOutcome::SelectionCommitted {
                    count: Region::spanning(self.selection.start.unwrap(), cell).spec_cell_count() as u128,
                },
            )
        } else if input.secondary_clicked {
            (EditorView { selection: SelectionData::idle(), ..self }, ToolOutcome::Cancelled)
        } else {
            (self, ToolOutcome::Idle)
        }
    }

    /// The fill tools: the first primary click sets the anchor, the second
    /// fills the target rectangle in one undoable step and drops the anchor.
    /// A secondary click drops the anchor.
    pub open spec fn fill_step(self, input: PointerInput) -> (EditorView, ToolOutcome) {
        let cell = input.cell;
        if input.primary_clicked {
            match self.selection.start {
                None => (
                    EditorView { selection: self.selection.spec_set_anchor(cell), ..self },
                    ToolOutcome::AnchorSet,
                ),
                Some(anchor) => {
                    let region = self.fill_target(anchor, cell);
                    (
                        EditorView {
                            selection: self.selection.spec_clear_corners(),
                            ..self.fill(region, self.paint_mode.spec_tile())
                        },
                        if self.has_current_layer() {
                            ToolOutcome::Filled { count: region.spec_cell_count() as u128 }
                        } else {
                            ToolOutcome::NoLayer
                        },
                    )
                },
            }
        } else if input.secondary_clicked {
            (
                EditorView { selection: self.selection.spec_clear_corners(), ..self },
                ToolOutcome::Cancelled,
            )
        } else {
            (self, ToolOutcome::Idle)
        }
    }

    /// Whether the acting buttons erase: the secondary button does, except
    /// with the erase tool, where the primary button does.
    pub open spec fn erases(self, input: PointerInput) -> bool {
        if self.current_tool == Tool::Erase {
            input.primary()
        } else {
            input.secondary()
        }
    }

    /// Painting and erasing: a cell is written once while the pointer stays
    /// on it, and the first cell of a stroke records the snapshot.
    pub open spec fn paint_step(self, input: PointerInput) -> (EditorView, ToolOutcome) {
        let cell = input.cell;
        if (input.primary() || input.secondary()) && self.last_painted != Some(cell) {
            let recorded = if self.last_painted.is_none() {
                self.record()
            } else {
                self
            };
            let tile = if self.erases(input) {
                TileData::sentinel()
            } else {
                self.paint_mode.spec_tile()
            };
            (
                EditorView { last_painted: Some(cell), ..recorded.write(cell, tile) },
                if !self.has_current_layer() {
                    ToolOutcome::NoLayer
                } else if self.erases(input) {
                    ToolOutcome::Erased
                } else {
                    ToolOutcome::Painted
                },
            )
        } else {
            (self, ToolOutcome::Idle)
        }
    }

    /// What the current tool does with a pointer event.
    pub open spec fn tool_step(self, input: PointerInput) -> (EditorView, ToolOutcome) {
        match self.current_tool {
            Tool::Select => self.select_step(input),
            Tool::LineFill | Tool::RectFill => self.fill_step(input),
            Tool::Paint | Tool::Erase => self.paint_step(input),
        }
    }

    /// One tick: the tool acts, and the end of a drag ends the stroke.
    pub open spec fn step(self, input: PointerInput) -> (EditorView, ToolOutcome) {
        let (after, outcome) = self.tool_step(input);
        if input.drag_stopped {
            (EditorView { last_painted: None, ..after }, outcome)
        } else {
            (after, outcome)
        }
    }
}

/// The editing engine.
#[derive(Debug)]
pub struct EditorState {
    level: Level,
    current_tool: Tool,
    paint_mode: PaintMode,
    current_layer: usize,
    last_painted: Option<(i32, i32)>,
    selection: SelectionData,
    history: History,
    clipboard: Option<SelectionContent>,
}

impl View for EditorState {
    type V = EditorView;

    closed spec fn view(&self) -> EditorView {
        EditorView {
            level: self.level@,
            current_tool: self.current_tool,
            paint_mode: self.paint_mode,
            current_layer: self.current_layer,
            last_painted: self.last_painted,
            selection: self.selection,
            history: self.history@,
            clipboard: match self.clipboard {
                Some(content) => Some(content@),
                None => None,
            },
        }
    }
}

impl EditorState {
    /// The engine's invariant: those of the level and of the history.
    pub open spec fn wf(&self) -> bool {
        self@.wf()
    }

    /// The state of a fresh editor.
    pub open spec fn initial() -> EditorView {
        EditorView {
            level: LevelView::new("Nouveau Niveau"@, 64, 48, 16),
            current_tool: Tool::Paint,
            paint_mode: PaintMode::ColorTile([139u8, 69u8, 19u8]),
            current_layer: 1,
            last_painted: None,
            selection: SelectionData::idle(),
            history: HistoryView::new(50),
            clipboard: None,
        }
    }

    /// A fresh editor: a new level, the paint tool with a brown colour, the
    /// layer "Main" current, and room for 50 undo steps.
    pub fn new() -> (state: EditorState)
        ensures
            state@ == EditorState::initial(),
            state.wf(),
    {
        EditorState {
            level: Level::new("Nouveau Niveau".to_owned(), 64, 48, 16),
            current_tool: Tool::Paint,
            paint_mode: PaintMode::ColorTile([139, 69, 19]),
            current_layer: 1,
            last_painted: None,
            selection: SelectionData::new(),
            history: History::new(50),
            clipboard: None,
        }
    }

    /// An editor on the given level, with a history of the given capacity.
    pub fn with_level(level: Level, history_size: usize) -> (state: EditorState)
        requires
            level.wf(),
        ensures
            state@ == (EditorView {
                level: level@,
                history: HistoryView::new(history_size as nat),
                current_layer: if level@.layers.len() > 1 {
                    1usize
                } else {
                    0usize
                },
                ..EditorState::initial()
            }),
            state.wf(),
    {
        let current_layer: usize = if level.layer_count() > 1 {
            1
        } else {
            0
        };
        EditorState {
            level,
            current_tool: Tool::Paint,
            paint_mode: PaintMode::ColorTile([139, 69, 19]),
            current_layer,
            last_painted: None,
            selection: SelectionData::new(),
            history: History::new(history_size),
            clipboard: None,
        }
    }

    pub fn level(&self) -> (level: &Level)
        ensures
            level@ == self@.level,
    {
        &self.level
    }

    pub fn current_tool(&self) -> (tool: Tool)
        ensures
            tool == self@.current_tool,
    {
        self.current_tool
    }

    pub fn paint_mode(&self) -> (mode: PaintMode)
        ensures
            mode == self@.paint_mode,
    {
        self.paint_mode
    }

    pub fn current_layer(&self) -> (index: usize)
        ensures
            index == self@.current_layer,
    {
        self.current_layer
    }

    pub fn last_painted(&self) -> (cell: Option<(i32, i32)>)
        ensures
            cell == self@.last_painted,
    {
        self.last_painted
    }

    pub fn selection(&self) -> (selection: SelectionData)
        ensures
            selection == self@.selection,
    {
        self.selection
    }

    pub fn clipboard(&self) -> (clipboard: Option<&SelectionContent>)
        ensures
            match clipboard {
                Some(content) => self@.clipboard == Some(content@),
                None => self@.clipboard.is_none(),
            },
    {
        match &self.clipboard {
            Some(content) => Some(content),
            None => None,
        }
    }

    /// Switches the tool and drops the corners of the selection.
    pub fn set_tool(&mut self, tool: Tool)
        ensures
            final(self)@ == old(self)@.set_tool(tool),
    {
        self.current_tool = tool;
        self.selection.clear_corners();
    }

    /// Sets the paint value; the tool stays.
    pub fn set_paint_mode(&mut self, mode: PaintMode)
        ensures
            final(self)@ == (EditorView { paint_mode: mode, ..old(self)@ }),
    {
        self.paint_mode = mode;
    }

    /// Picks a paint value to paint with: sets it and switches to the paint
    /// tool. The selection stays.
    pub fn pick_paint(&mut self, mode: PaintMode)
        ensures
            final(self)@ == (EditorView {
                paint_mode: mode,
                current_tool: Tool::Paint,
                ..old(self)@
            }),
    {
        self.paint_mode = mode;
        self.current_tool = Tool::Paint;
    }

    /// Makes the layer at `index` the target of the tools. The index is not
    /// checked: with an index out of bounds the tools write nowhere.
    pub fn set_current_layer(&mut self, index: usize)
        ensures
            final(self)@ == (EditorView { current_layer: index, ..old(self)@ }),
    {
        self.current_layer = index;
    }

    /// Drops the selection: no corner, not active.
    pub fn cancel_selection(&mut self)
        ensures
            final(self)@ == (EditorView { selection: SelectionData::idle(), ..old(self)@ }),
    {
        self.selection.cancel();
    }

    /// Replaces the level under edit. The layer "Main" position, index 1,
    /// becomes current, or index 0 for a level of one layer. History,
    /// selection and clipboard stay.
    pub fn load_level(&mut self, level: Level)
        requires
            old(self).wf(),
            level.wf(),
        ensures
            final(self)@ == (EditorView {
                level: level@,
                current_layer: if level@.layers.len() > 1 {
                    1usize
                } else {
                    0usize
                },
                ..old(self)@
            }),
            final(self).wf(),
    {
        self.current_layer = if level.layer_count() > 1 {
            1
        } else {
            0
        };
        self.level = level;
    }

    /// Replaces the level under edit and leaves everything else as it is,
    /// the current-layer index included.
    pub fn replace_level(&mut self, level: Level)
        requires
            old(self).wf(),
            level.wf(),
        ensures
            final(self)@ == (EditorView { level: level@, ..old(self)@ }),
            final(self).wf(),
    {
        self.level = level;
    }

    /// Ends the stroke of the paint and erase tools: the next write is the
    /// first of a new stroke, wherever it lands.
    pub fn end_stroke(&mut self)
        ensures
            final(self)@ == (EditorView { last_painted: None, ..old(self)@ }),
    {
        self.last_painted = None;
    }

    /// Sets the nominal size of the level.
    pub fn set_level_size(&mut self, width: u32, height: u32)
        ensures
            final(self)@ == (EditorView {
                level: LevelView { width, height, ..old(self)@.level },
                ..old(self)@
            }),
    {
        self.level.set_size(width, height);
    }

    /// Appends an empty layer; with `select` it becomes the current layer.
    pub fn add_layer(&mut self, name: String, select: bool)
        ensures
            final(self)@ == (EditorView {
                level: old(self)@.level.add_layer(name@),
                current_layer: if select {
                    old(self)@.level.layers.len() as usize
                } else {
                    old(self)@.current_layer
                },
                ..old(self)@
            }),
            old(self).wf() ==> final(self).wf(),
    {
        let count = self.level.layer_count();
        self.level.add_layer(name);
        if select {
            self.current_layer = count;
        }
    }

    /// Removes the current layer. Where that leaves the current index past
    /// the end, the last layer becomes current. Refused, with no change,
    /// for the last remaining layer and for a current index out of bounds.
    pub fn remove_current_layer(&mut self) -> (removed: bool)
        ensures
            removed == old(self)@.level.can_remove_layer(old(self)@.current_layer as int),
            final(self)@ == (EditorView {
                level: old(self)@.level.remove_layer(old(self)@.current_layer as int),
                current_layer: if removed && old(self)@.current_layer + 1
                    >= old(self)@.level.layers.len() {
                    (old(self)@.level.layers.len() - 2) as usize
                } else {
                    old(self)@.current_layer
                },
                ..old(self)@
            }),
            old(self).wf() ==> final(self).wf(),
    {
        if self.level.remove_layer(self.current_layer) {
            let count = self.level.layer_count();
            if self.current_layer >= count {
                self.current_layer = count - 1;
            }
            true
        } else {
            false
        }
    }

    /// Moves the current layer one place down the stack; it stays current.
    pub fn move_current_layer_up(&mut self) -> (moved: bool)
        ensures
            moved == old(self)@.level.can_move_layer_up(old(self)@.current_layer as int),
            final(self)@ == (EditorView {
                level: old(self)@.level.move_layer_up(old(self)@.current_layer as int),
                current_layer: if moved {
                    (old(self)@.current_layer - 1) as usize
                } else {
                    old(self)@.current_layer
                },
                ..old(self)@
            }),
            old(self).wf() ==> final(self).wf(),
    {
        if self.level.move_layer_up(self.current_layer) {
            self.current_layer = self.current_layer - 1;
            true
        } else {
            false
        }
    }

    /// Moves the current layer one place up the stack; it stays current.
    pub fn move_current_layer_down(&mut self) -> (moved: bool)
        ensures
            moved == old(self)@.level.can_move_layer_down(old(self)@.current_layer as int),
            final(self)@ == (EditorView {
                level: old(self)@.level.move_layer_down(old(self)@.current_layer as int),
                current_layer: if moved {
                    (old(self)@.current_layer + 1) as usize
                } else {
                    old(self)@.current_layer
                },
                ..old(self)@
            }),
            old(self).wf() ==> final(self).wf(),
    {
        let count = self.level.layer_count();
        if self.level.move_layer_down(self.current_layer) {
            assert(self.current_layer + 1 < count);
            self.current_layer = self.current_layer + 1;
            true
        } else {
            false
        }
    }

    /// Renames the layer at `index`. Refused for an index out of bounds.
    pub fn rename_layer(&mut self, index: usize, name: String) -> (renamed: bool)
        ensures
            renamed == (index < old(self)@.level.layers.len()),
            final(self)@ == (EditorView {
                level: old(self)@.level.rename_layer(index as int, name@),
                ..old(self)@
            }),
            old(self).wf() ==> final(self).wf(),
    {
        self.level.rename_layer(index, name)
    }

    /// Shows or hides the layer at `index`. Refused for an index out of
    /// bounds.
    pub fn set_layer_visible(&mut self, index: usize, visible: bool) -> (changed: bool)
        ensures
            changed == (index < old(self)@.level.layers.len()),
            final(self)@ == (EditorView {
                level: old(self)@.level.set_layer_visible(index as int, visible),
                ..old(self)@
            }),
            old(self).wf() ==> final(self).wf(),
    {
        self.level.set_layer_visible(index, visible)
    }

    /// Empties the current layer. No snapshot is recorded.
    pub fn clear_current_layer(&mut self) -> (cleared: bool)
        ensures
            cleared == old(self)@.has_current_layer(),
            final(self)@ == (EditorView {
                level: old(self)@.level.clear_layer(old(self)@.current_layer as int),
                ..old(self)@
            }),
            old(self).wf() ==> final(self).wf(),
    {
        self.level.clear_layer(self.current_layer)
    }

    /// Empties every layer. No snapshot is recorded.
    pub fn clear_all_layers(&mut self)
        ensures
            final(self)@ == (EditorView {
                level: old(self)@.level.clear_all_layers(),
                ..old(self)@
            }),
            old(self).wf() ==> final(self).wf(),
    {
        self.level.clear_all_layers();
    }

    /// Replaces the layers by fresh empty ones with the given names and makes
    /// `current` the current layer. Refused, with no change, where no name
    /// is given.
    pub fn reset_layers(&mut self, names: Vec<String>, current: usize) -> (done: bool)
        requires
            old(self).wf(),
        ensures
            done == (names.len() > 0),
            done ==> final(self)@ == (EditorView {
                level: old(self)@.level.with_layers(
                    crate::level::fresh_layers(names@.map_values(|name: String| name@)),
                ),
                current_layer: current,
                ..old(self)@
            }),
            !done ==> final(self)@ == old(self)@,
            final(self).wf(),
    {
        if self.level.reset_layers(names) {
            self.current_layer = current;
            true
        } else {
            false
        }
    }

    fn take_snapshot(&self) -> (state: HistoryState)
        ensures
            state@ == self@.snapshot(),
    {
        HistoryState::new(self.level.snapshot_layers(), self.current_layer)
    }

    fn apply_snapshot(&mut self, state: HistoryState)
        ensures
            final(self)@ == old(self)@.restore(state@),
    {
        let (layers, current_layer) = state.into_parts();
        self.level.set_layers(layers);
        self.current_layer = current_layer;
    }

    /// Records a snapshot of the layers and of the current layer, to be
    /// called before a change. The redo branch is discarded.
    pub fn save_history(&mut self)
        requires
            old(self).wf(),
        ensures
            final(self)@ == old(self)@.record(),
            final(self).wf(),
    {
        let state = self.take_snapshot();
        self.history.push(state);
    }

    /// Takes back the last recorded action. Returns `false`, with no change,
    /// where nothing is recorded.
    pub fn undo(&mut self) -> (done: bool)
        requires
            old(self).wf(),
        ensures
            done == old(self)@.history.can_undo(),
            final(self)@ == old(self)@.undo(),
            final(self).wf(),
    {
        let current = self.take_snapshot();
        match self.history.undo(current) {
            Some(previous) => {
                self.apply_snapshot(previous);
                true
            },
            None => false,
        }
    }

    /// Brings back the last action that an undo took back. Returns `false`,
    /// with no change, where there is none.
    pub fn redo(&mut self) -> (done: bool)
        requires
            old(self).wf(),
        ensures
            done == old(self)@.history.can_redo(),
            final(self)@ == old(self)@.redo(),
            final(self).wf(),
    {
        let current = self.take_snapshot();
        match self.history.redo(current) {
            Some(next) => {
                self.apply_snapshot(next);
                true
            },
            None => false,
        }
    }

    pub fn can_undo(&self) -> (possible: bool)
        ensures
            possible == self@.history.can_undo(),
    {
        self.history.can_undo()
    }

    pub fn can_redo(&self) -> (possible: bool)
        ensures
            possible == self@.history.can_redo(),
    {
        self.history.can_redo()
    }

    /// Copies the tiles of the committed selection from the current layer
    /// into the clipboard, which loses what it held. Returns the number of
    /// cells of the rectangle. Fails, with no change, unless a selection is
    /// active. Without a current layer the clipboard holds no tile.
    pub fn copy_selection(&mut self) -> (result: Result<u128, EditError>)
        ensures
            match result {
                Ok(count) => {
                    &&& old(self)@.selection.spec_active_region() matches Some(region)
                    &&& count == region.spec_cell_count()
                    &&& final(self)@.clipboard matches Some(content)
                    &&& final(self)@ == (EditorView {
                        clipboard: Some(content),
                        ..old(self)@
                    })
                    &&& content.origin == (region.min_x, region.min_y)
                    &&& content.width == region.spec_width()
                    &&& content.height == region.spec_height()
                    &&& captures(
                        content.tiles,
                        old(self)@.level.layer_or_empty(old(self)@.current_layer as int),
                        region,
                    )
                },
                Err(error) => {
                    &&& error == EditError::NoActiveSelection
                    &&& old(self)@.selection.spec_active_region().is_none()
                    &&& final(self)@ == old(self)@
                },
            },
    {
        match self.selection.active_region() {
            Some(region) => {
                let content = match self.level.layer(self.current_layer) {
                    Some(layer) => layer.copy_region(&region),
                    None => {
                        let tiles: Vec<((u32, u32), TileData)> = Vec::new();
                        SelectionContent {
                            tiles,
                            origin: (region.min_x, region.min_y),
                            width: region.width(),
                            height: region.height(),
                        }
                    },
                };
                self.clipboard = Some(content);
                Ok(region.cell_count())
            },
            None => Err(EditError::NoActiveSelection),
        }
    }

    /// Whether there is a clipboard and a paste at `(x, y)` keeps every tile
    /// on the grid.
    pub fn can_paste_at(&self, x: i32, y: i32) -> (possible: bool)
        ensures
            possible == (self@.clipboard.is_some() && self@.paste_fits(x, y)),
    {
        match &self.clipboard {
            Some(content) => content.fits_at(x, y),
            None => false,
        }
    }

    /// Pastes the clipboard into the current layer: records a snapshot, then
    /// writes every tile at `(paste_x, paste_y)` plus its offset. Cells that
    /// no tile lands on keep what they hold. Returns the number of tiles.
    /// Fails, with no change, where nothing was copied yet.
    pub fn paste_selection(&mut self, paste_x: i32, paste_y: i32) -> (result: Result<
        usize,
        EditError,
    >)
        requires
            old(self).wf(),
            old(self)@.paste_fits(paste_x, paste_y),
        ensures
            match result {
                Ok(count) => old(self)@.clipboard matches Some(content) && count
                    == content.tiles.len(),
                Err(error) => error == EditError::ClipboardEmpty && old(self)@.clipboard.is_none(),
            },
            final(self)@ == old(self)@.paste(paste_x, paste_y),
            final(self).wf(),
    {
        if self.clipboard.is_none() {
            return Err(EditError::ClipboardEmpty);
        }
        self.save_history();
        match &self.clipboard {
            Some(content) => {
                self.level.paste_tiles(self.current_layer, &content.tiles, paste_x, paste_y);
                Ok(content.tiles.len())
            },
            None => Err(EditError::ClipboardEmpty),
        }
    }

    /// Deletes the tiles of the committed selection from the current layer:
    /// records a snapshot, empties every cell of the rectangle, and drops
    /// the selection. Returns the number of cells of the rectangle. Fails,
    /// with no change, unless a selection is active.
    pub fn delete_selection(&mut self) -> (result: Result<u128, EditError>)
        requires
            old(self).wf(),
        ensures
            match result {
                Ok(count) => old(self)@.selection.spec_active_region() matches Some(region)
                    && count == region.spec_cell_count(),
                Err(error) => error == EditError::NoActiveSelection
                    && old(self)@.selection.spec_active_region().is_none(),
            },
            final(self)@ == old(self)@.delete(),
            final(self).wf(),
    {
        match self.selection.active_region() {
            Some(region) => {
                self.save_history();
                self.level.fill_region(self.current_layer, &region, TileData::empty());
                self.selection.cancel();
                proof {
                    TileData::sentinel().lemma_sentinel_is_unique();
                }
                Ok(region.cell_count())
            },
            None => Err(EditError::NoActiveSelection),
        }
    }

    fn select_step(&mut self, input: &PointerInput) -> (outcome: ToolOutcome)
        requires
            old(self).wf(),
        ensures
            (final(self)@, outcome) == old(self)@.select_step(*input),
            final(self).wf(),
    {
        let cell = input.cell;
        if input.paste_requested && self.clipboard.is_some() {
            if self.can_paste_at(cell.0, cell.1) {
                match self.paste_selection(cell.0, cell.1) {
                    Ok(tiles) => ToolOutcome::Pasted { tiles },
                    Err(_) => ToolOutcome::Idle,
                }
            } else {
                ToolOutcome::PasteOutOfRange
            }
        } else if input.primary_clicked {
            self.selection.begin(cell);
            ToolOutcome::SelectionStarted
        } else if input.dragged && self.selection.start.is_some() {
            self.selection.update(cell);
            ToolOutcome::SelectionMoved
        } else if input.drag_stopped && self.selection.start.is_some() {
            match self.selection.commit(cell) {
                Some(count) => ToolOutcome::SelectionCommitted { count },
                None => ToolOutcome::Idle,
            }
        } else if input.secondary_clicked {
            self.selection.cancel();
            ToolOutcome::Cancelled
        } else {
            ToolOutcome::Idle
        }
    }

    fn fill_step(&mut self, input: &PointerInput) -> (outcome: ToolOutcome)
        requires
            old(self).wf(),
        ensures
            (final(self)@, outcome) == old(self)@.fill_step(*input),
            final(self).wf(),
    {
        let cell = input.cell;
        if input.primary_clicked {
            match self.selection.start {
                None => {
                    self.selection.set_anchor(cell);
                    ToolOutcome::AnchorSet
                },
                Some(anchor) => {
                    self.save_history();
                    let region = match self.current_tool {
                        Tool::LineFill => Region::line_from(anchor, cell),
                        _ => Region::from_corners(anchor, cell),
                    };
                    let tile = self.paint_mode.tile();
                    let written = self.level.fill_region(self.current_layer, &region, tile);
                    self.selection.clear_corners();
                    if written {
                        ToolOutcome::Filled { count: region.cell_count() }
                    } else {
                        ToolOutcome::NoLayer
                    }
                },
            }
        } else if input.secondary_clicked {
            self.selection.clear_corners();
            ToolOutcome::Cancelled
        } else {
            ToolOutcome::Idle
        }
    }

    fn paint_step(&mut self, input: &PointerInput) -> (outcome: ToolOutcome)
        requires
            old(self).wf(),
        ensures
            (final(self)@, outcome) == old(self)@.paint_step(*input),
            final(self).wf(),
    {
        let cell = input.cell;
        let primary = input.primary_clicked || input.primary_dragged;
        let secondary = input.secondary_clicked || input.secondary_dragged;
        let same_cell = match self.last_painted {
            Some(last) => last.0 == cell.0 && last.1 == cell.1,
            None => false,
        };
        if (primary || secondary) && !same_cell {
            if self.last_painted.is_none() {
                self.save_history();
            }
            let erase = match self.current_tool {
                Tool::Erase => primary,
                _ => secondary,
            };
            let tile = if erase {
                TileData::empty()
            } else {
                self.paint_mode.tile()
            };
            let written = self.level.set_tile(self.current_layer, cell.0, cell.1, tile);
            self.last_painted = Some(cell);
            if !written {
                ToolOutcome::NoLayer
            } else if erase {
                ToolOutcome::Erased
            } else {
                ToolOutcome::Painted
            }
        } else {
            ToolOutcome::Idle
        }
    }

    /// Handles the pointer event of one tick with the current tool.
    ///
    /// With the selection tool a paste request with a filled clipboard
    /// pastes at the cell; else a primary click starts a selection, a drag
    /// moves its end, the end of a drag commits it, and a secondary click
    /// drops it. With a fill tool the first primary click sets the anchor
    /// and the second fills; a secondary click drops the anchor. With the
    /// paint and erase tools the acting button paints or erases the cell.
    /// The end of a drag ends the stroke.
    pub fn handle_pointer(&mut self, input: PointerInput) -> (outcome: ToolOutcome)
        requires
            old(self).wf(),
        ensures
            (final(self)@, outcome) == old(self)@.step(input),
            final(self).wf(),
    {
        let outcome = match self.current_tool {
            Tool::Select => self.select_step(&input),
            Tool::LineFill | Tool::RectFill => self.fill_step(&input),
            Tool::Paint | Tool::Erase => self.paint_step(&input),
        };
        if input.drag_stopped {
            self.last_painted = None;
        }
        outcome
    }
}

/// One undo takes back one recorded action: whatever was done to the layers
/// since the last snapshot was recorded, the undo that follows brings back
/// the layers and the current layer of that snapshot.
pub proof fn lemma_undo_restores_recorded_state(before: EditorView, after: EditorView)
    requires
        after.history == before.record().history,
    ensures
        after.undo().level.layers == before.level.layers,
        after.undo().current_layer == before.current_layer,
{
}

/// A fill is one step of history: one undo after it restores every cell of
/// the rectangle at once, and the level is as it was before the fill.
pub proof fn lemma_fill_is_undone_at_once(editor: EditorView, region: Region, tile: TileData)
    ensures
        editor.fill(region, tile).undo().level == editor.level,
        editor.fill(region, tile).undo().current_layer == editor.current_layer,
{
    lemma_undo_restores_recorded_state(editor, editor.fill(region, tile));
    if editor.has_current_layer() {
    }
}

/// A paste and a deletion of the selection are one step of history each.
pub proof fn lemma_paste_and_delete_are_undone_at_once(editor: EditorView, x: i32, y: i32)
    ensures
        editor.clipboard.is_some() ==> editor.paste(x, y).undo().level == editor.level,
        editor.selection.spec_active_region().is_some() ==> editor.delete().undo().level
            == editor.level,
{
    if editor.clipboard.is_some() {
        lemma_undo_restores_recorded_state(editor, editor.paste(x, y));
    }
    if editor.selection.spec_active_region().is_some() {
        lemma_undo_restores_recorded_state(editor, editor.delete());
    }
}

/// Redo takes back an undo: after an undo that found something to take back,
/// a redo brings back the layers and the current layer from before the undo.
pub proof fn lemma_redo_restores_undone_state(editor: EditorView)
    requires
        editor.history.can_undo(),
    ensures
        editor.undo().history.can_redo(),
        editor.undo().redo().level == editor.level,
        editor.undo().redo().current_layer == editor.current_layer,
{
}

/// The button roles of painting: with the paint tool the primary button
/// writes the paint value and the secondary button empties the cell; the
/// erase tool exchanges the two. Where both buttons act, the cell is
/// emptied. The cell then reads as what was written.
pub proof fn lemma_paint_and_erase(editor: EditorView, input: PointerInput)
    requires
        editor.wf(),
        editor.has_current_layer(),
        editor.current_tool == Tool::Paint || editor.current_tool == Tool::Erase,
        input.primary() || input.secondary(),
        editor.last_painted != Some(input.cell),
    ensures
        ({
            let erase = if editor.current_tool == Tool::Erase {
                input.primary()
            } else {
                input.secondary()
            };
            let after = editor.step(input).0;
            after.level.get_tile(editor.current_layer as int, input.cell.0, input.cell.1)
                == if erase {
                TileData::sentinel()
            } else {
                editor.paint_mode.spec_tile()
            }
        }),
{
    let tile = if editor.erases(input) {
        TileData::sentinel()
    } else {
        editor.paint_mode.spec_tile()
    };
    let layer = editor.level.layers[editor.current_layer as int];
    crate::layer::lemma_set_then_get(layer, input.cell.0, input.cell.1, tile);
}

} // verus!
