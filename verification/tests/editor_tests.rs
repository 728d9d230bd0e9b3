use level_editor::clipboard::SelectionContent;
use level_editor::editor::{EditError, EditorState, PaintMode, PointerInput, Tool, ToolOutcome};
use level_editor::level::Level;
use level_editor::region::Region;
use level_editor::selection::SelectionData;
use level_editor::tile::TileData;

const RED: [u8; 3] = [255, 0, 0];

fn idle_at(x: i32, y: i32) -> PointerInput {
    PointerInput {
        cell: (x, y),
        primary_clicked: false,
        secondary_clicked: false,
        primary_dragged: false,
        secondary_dragged: false,
        dragged: false,
        drag_stopped: false,
        paste_requested: false,
    }
}

fn primary_click(x: i32, y: i32) -> PointerInput {
    PointerInput { primary_clicked: true, ..idle_at(x, y) }
}

fn secondary_click(x: i32, y: i32) -> PointerInput {
    PointerInput { secondary_clicked: true, ..idle_at(x, y) }
}

fn primary_drag(x: i32, y: i32) -> PointerInput {
    PointerInput { primary_dragged: true, dragged: true, ..idle_at(x, y) }
}

fn secondary_drag(x: i32, y: i32) -> PointerInput {
    PointerInput { secondary_dragged: true, dragged: true, ..idle_at(x, y) }
}

fn drag_stop(x: i32, y: i32) -> PointerInput {
    PointerInput { drag_stopped: true, ..idle_at(x, y) }
}

fn paste_at(x: i32, y: i32) -> PointerInput {
    PointerInput { paste_requested: true, ..idle_at(x, y) }
}

fn read(state: &EditorState, layer: usize, x: i32, y: i32) -> TileData {
    state.level().get_tile(layer, x, y)
}

fn select(state: &mut EditorState, from: (i32, i32), to: (i32, i32)) -> ToolOutcome {
    state.set_tool(Tool::Select);
    state.handle_pointer(primary_click(from.0, from.1));
    state.handle_pointer(primary_drag(to.0, to.1));
    state.handle_pointer(drag_stop(to.0, to.1))
}

fn sorted_tiles(content: &SelectionContent) -> Vec<((u32, u32), TileData)> {
    let mut tiles = content.tiles.clone();
    tiles.sort_by_key(|tile| tile.0);
    tiles
}

#[test]
fn new_editor_paints_brown_on_the_main_layer() {
    let state = EditorState::new();
    assert_eq!(state.level().layer_count(), 3);
    assert_eq!(state.level().layer(0).unwrap().name(), "Background");
    assert_eq!(state.level().layer(1).unwrap().name(), "Main");
    assert_eq!(state.level().layer(2).unwrap().name(), "Foreground");
    assert_eq!(state.level().name(), "Nouveau Niveau");
    assert_eq!(state.level().width(), 64);
    assert_eq!(state.level().height(), 48);
    assert_eq!(state.level().tile_size(), 16);
    assert_eq!(state.current_layer(), 1);
    assert_eq!(state.current_tool(), Tool::Paint);
    assert_eq!(state.paint_mode(), PaintMode::ColorTile([139, 69, 19]));
    assert_eq!(state.selection(), SelectionData { start: None, end: None, is_active: false });
    assert!(state.clipboard().is_none());
    assert!(state.last_painted().is_none());
    assert!(!state.can_undo());
    assert!(!state.can_redo());
}

#[test]
fn painting_writes_to_the_current_layer_only() {
    let mut state = EditorState::new();
    state.set_paint_mode(PaintMode::ColorTile(RED));
    assert_eq!(state.handle_pointer(primary_click(2, 3)), ToolOutcome::Painted);
    assert_eq!(read(&state, 1, 2, 3), TileData::Color(RED));
    assert_eq!(read(&state, 0, 2, 3), TileData::empty());
    assert_eq!(read(&state, 2, 2, 3), TileData::empty());
}

#[test]
fn texture_paint_mode_writes_a_texture_tile() {
    let mut state = EditorState::new();
    state.pick_paint(PaintMode::TextureTile { tileset_id: 1, tile_index: 9 });
    assert_eq!(state.current_tool(), Tool::Paint);
    state.handle_pointer(primary_click(0, 0));
    assert_eq!(read(&state, 1, 0, 0), TileData::Texture { tileset_id: 1, tile_index: 9 });
}

#[test]
fn secondary_button_erases_with_the_paint_tool() {
    let mut state = EditorState::new();
    state.handle_pointer(primary_click(1, 1));
    assert!(!read(&state, 1, 1, 1).is_empty());
    state.handle_pointer(drag_stop(1, 1));
    assert_eq!(state.handle_pointer(secondary_click(1, 1)), ToolOutcome::Erased);
    assert!(read(&state, 1, 1, 1).is_empty());
}

#[test]
fn erase_tool_exchanges_the_buttons() {
    let mut state = EditorState::new();
    state.set_paint_mode(PaintMode::ColorTile(RED));
    state.set_tool(Tool::Erase);
    assert_eq!(state.handle_pointer(secondary_click(4, 4)), ToolOutcome::Painted);
    assert_eq!(read(&state, 1, 4, 4), TileData::Color(RED));
    state.handle_pointer(drag_stop(4, 4));
    assert_eq!(state.handle_pointer(primary_click(4, 4)), ToolOutcome::Erased);
    assert!(read(&state, 1, 4, 4).is_empty());
}

#[test]
fn both_buttons_together_erase() {
    let mut state = EditorState::new();
    state.handle_pointer(primary_click(0, 0));
    state.handle_pointer(drag_stop(0, 0));
    let both = PointerInput { secondary_clicked: true, ..primary_click(0, 0) };
    assert_eq!(state.handle_pointer(both), ToolOutcome::Erased);
    assert!(read(&state, 1, 0, 0).is_empty());
}

#[test]
fn a_cell_is_written_once_while_the_pointer_stays_on_it() {
    let mut state = EditorState::new();
    assert_eq!(state.handle_pointer(primary_drag(0, 0)), ToolOutcome::Painted);
    assert_eq!(state.last_painted(), Some((0, 0)));
    assert_eq!(state.handle_pointer(secondary_drag(0, 0)), ToolOutcome::Idle);
    assert!(!read(&state, 1, 0, 0).is_empty());
    assert_eq!(state.handle_pointer(primary_drag(1, 0)), ToolOutcome::Painted);
    assert_eq!(state.last_painted(), Some((1, 0)));
    state.handle_pointer(drag_stop(1, 0));
    assert_eq!(state.last_painted(), None);
}

#[test]
fn a_drag_records_one_snapshot() {
    let mut state = EditorState::new();
    state.handle_pointer(primary_drag(0, 0));
    state.handle_pointer(primary_drag(1, 0));
    state.handle_pointer(primary_drag(2, 0));
    state.handle_pointer(drag_stop(2, 0));
    assert!(state.undo());
    assert!(read(&state, 1, 0, 0).is_empty());
    assert!(read(&state, 1, 1, 0).is_empty());
    assert!(read(&state, 1, 2, 0).is_empty());
    assert!(!state.can_undo());
    assert!(state.redo());
    assert!(!read(&state, 1, 0, 0).is_empty());
    assert!(!read(&state, 1, 2, 0).is_empty());
}

#[test]
fn painting_without_a_current_layer_writes_nowhere() {
    let mut state = EditorState::new();
    state.set_current_layer(7);
    assert_eq!(state.handle_pointer(primary_click(0, 0)), ToolOutcome::NoLayer);
    assert!(read(&state, 0, 0, 0).is_empty());
    assert!(read(&state, 1, 0, 0).is_empty());
    assert!(read(&state, 2, 0, 0).is_empty());
    assert!(state.can_undo());
}

#[test]
fn pointer_without_buttons_does_nothing() {
    let mut state = EditorState::new();
    assert_eq!(state.handle_pointer(idle_at(3, 3)), ToolOutcome::Idle);
    assert!(read(&state, 1, 3, 3).is_empty());
    assert!(!state.can_undo());
}

#[test]
fn rect_fill_writes_the_bounding_box_in_one_step() {
    let mut state = EditorState::new();
    state.set_paint_mode(PaintMode::ColorTile(RED));
    state.set_tool(Tool::RectFill);
    assert_eq!(state.handle_pointer(primary_click(0, 0)), ToolOutcome::AnchorSet);
    assert!(read(&state, 1, 0, 0).is_empty());
    assert!(!state.can_undo());
    assert_eq!(state.handle_pointer(primary_click(2, 1)), ToolOutcome::Filled { count: 6 });
    for x in 0..3 {
        for y in 0..2 {
            assert_eq!(read(&state, 1, x, y), TileData::Color(RED));
        }
    }
    assert!(read(&state, 1, 3, 0).is_empty());
    assert!(read(&state, 1, 0, 2).is_empty());
    assert!(read(&state, 1, -1, 0).is_empty());
    assert_eq!(state.level().layer(1).unwrap().tile_count(), 6);
    assert_eq!(state.selection().start, None);
    assert!(state.undo());
    assert_eq!(state.level().layer(1).unwrap().tile_count(), 0);
    assert!(!state.can_undo());
}

#[test]
fn rect_fill_takes_the_corners_in_any_order() {
    let mut state = EditorState::new();
    state.set_tool(Tool::RectFill);
    state.handle_pointer(primary_click(1, -1));
    assert_eq!(state.handle_pointer(primary_click(-1, 1)), ToolOutcome::Filled { count: 9 });
    assert!(!read(&state, 1, -1, -1).is_empty());
    assert!(!read(&state, 1, 1, 1).is_empty());
    assert!(!read(&state, 1, 0, 0).is_empty());
    assert_eq!(state.level().layer(1).unwrap().tile_count(), 9);
}

#[test]
fn line_fill_goes_along_the_row_for_a_wider_gap() {
    let mut state = EditorState::new();
    state.set_paint_mode(PaintMode::ColorTile(RED));
    state.set_tool(Tool::LineFill);
    state.handle_pointer(primary_click(0, 0));
    assert_eq!(state.handle_pointer(primary_click(5, 2)), ToolOutcome::Filled { count: 6 });
    for x in 0..6 {
        assert_eq!(read(&state, 1, x, 0), TileData::Color(RED));
    }
    assert_eq!(state.level().layer(1).unwrap().tile_count(), 6);
}

#[test]
fn line_fill_goes_along_the_column_on_a_tie() {
    let mut state = EditorState::new();
    state.set_paint_mode(PaintMode::ColorTile(RED));
    state.set_tool(Tool::LineFill);
    state.handle_pointer(primary_click(0, 0));
    assert_eq!(state.handle_pointer(primary_click(2, 2)), ToolOutcome::Filled { count: 3 });
    for y in 0..3 {
        assert_eq!(read(&state, 1, 0, y), TileData::Color(RED));
    }
    assert_eq!(state.level().layer(1).unwrap().tile_count(), 3);
}

#[test]
fn line_fill_goes_along_the_column_for_a_taller_gap() {
    let mut state = EditorState::new();
    state.set_tool(Tool::LineFill);
    state.handle_pointer(primary_click(3, 3));
    assert_eq!(state.handle_pointer(primary_click(4, -1)), ToolOutcome::Filled { count: 5 });
    for y in -1..4 {
        assert!(!read(&state, 1, 3, y).is_empty());
    }
    assert!(read(&state, 1, 4, -1).is_empty());
}

#[test]
fn secondary_click_drops_the_fill_anchor() {
    let mut state = EditorState::new();
    state.set_tool(Tool::RectFill);
    state.handle_pointer(primary_click(0, 0));
    assert_eq!(state.selection().start, Some((0, 0)));
    assert_eq!(state.handle_pointer(secondary_click(9, 9)), ToolOutcome::Cancelled);
    assert_eq!(state.selection().start, None);
    assert_eq!(state.handle_pointer(primary_click(5, 5)), ToolOutcome::AnchorSet);
    assert_eq!(state.level().layer(1).unwrap().tile_count(), 0);
    assert!(!state.can_undo());
}

#[test]
fn changing_the_tool_drops_the_anchor() {
    let mut state = EditorState::new();
    state.set_tool(Tool::LineFill);
    state.handle_pointer(primary_click(0, 0));
    state.set_tool(Tool::RectFill);
    assert_eq!(state.selection().start, None);
    assert_eq!(state.handle_pointer(primary_click(3, 3)), ToolOutcome::AnchorSet);
}

#[test]
fn fill_with_the_sentinel_colour_empties_the_cells() {
    let mut state = EditorState::new();
    state.handle_pointer(primary_click(1, 0));
    state.handle_pointer(drag_stop(1, 0));
    state.set_paint_mode(PaintMode::ColorTile([40, 40, 40]));
    state.set_tool(Tool::RectFill);
    state.handle_pointer(primary_click(0, 0));
    state.handle_pointer(primary_click(2, 0));
    assert_eq!(state.level().layer(1).unwrap().tile_count(), 0);
}

#[test]
fn selection_drag_commits_a_rectangle() {
    let mut state = EditorState::new();
    state.set_tool(Tool::Select);
    assert_eq!(state.handle_pointer(primary_click(1, 1)), ToolOutcome::SelectionStarted);
    assert_eq!(
        state.selection(),
        SelectionData { start: Some((1, 1)), end: Some((1, 1)), is_active: false }
    );
    assert_eq!(state.handle_pointer(primary_drag(2, 5)), ToolOutcome::SelectionMoved);
    assert_eq!(state.selection().end, Some((2, 5)));
    assert!(!state.selection().is_active);
    assert_eq!(
        state.handle_pointer(drag_stop(3, 2)),
        ToolOutcome::SelectionCommitted { count: 6 }
    );
    assert_eq!(
        state.selection(),
        SelectionData { start: Some((1, 1)), end: Some((3, 2)), is_active: true }
    );
}

#[test]
fn selection_count_uses_absolute_differences() {
    let mut state = EditorState::new();
    assert_eq!(select(&mut state, (2, 3), (-1, 1)), ToolOutcome::SelectionCommitted { count: 12 });
    assert_eq!(select(&mut state, (0, 0), (0, 0)), ToolOutcome::SelectionCommitted { count: 1 });
}

#[test]
fn selection_methods_follow_the_state_machine() {
    let mut selection = SelectionData::new();
    assert!(!selection.update((1, 1)));
    assert_eq!(selection.commit((1, 1)), None);
    assert_eq!(selection, SelectionData { start: None, end: None, is_active: false });
    assert_eq!(selection.region(), None);
    selection.begin((4, 4));
    assert!(selection.update((0, 6)));
    assert_eq!(selection.region(), Some(Region { min_x: 0, max_x: 4, min_y: 4, max_y: 6 }));
    assert_eq!(selection.active_region(), None);
    assert_eq!(selection.commit((0, 7)), Some(20));
    assert_eq!(
        selection.active_region(),
        Some(Region { min_x: 0, max_x: 4, min_y: 4, max_y: 7 })
    );
    selection.cancel();
    assert_eq!(selection, SelectionData { start: None, end: None, is_active: false });
}

#[test]
fn whole_grid_selection_counts_every_cell() {
    let mut selection = SelectionData::new();
    selection.begin((i32::MIN, i32::MIN));
    assert_eq!(selection.commit((i32::MAX, i32::MAX)), Some(1u128 << 64));
}

#[test]
fn secondary_click_cancels_the_selection() {
    let mut state = EditorState::new();
    select(&mut state, (0, 0), (2, 2));
    assert_eq!(state.handle_pointer(secondary_click(0, 0)), ToolOutcome::Cancelled);
    assert_eq!(state.selection(), SelectionData { start: None, end: None, is_active: false });
    assert_eq!(state.copy_selection(), Err(EditError::NoActiveSelection));
}

#[test]
fn copy_without_active_selection_fails() {
    let mut state = EditorState::new();
    assert_eq!(state.copy_selection(), Err(EditError::NoActiveSelection));
    assert!(state.clipboard().is_none());
    state.set_tool(Tool::Select);
    state.handle_pointer(primary_click(0, 0));
    state.handle_pointer(primary_drag(2, 1));
    assert_eq!(state.copy_selection(), Err(EditError::NoActiveSelection));
    assert!(state.clipboard().is_none());
}

#[test]
fn copy_captures_the_tiles_of_the_rectangle_by_offset() {
    let mut state = EditorState::new();
    let a = TileData::Color([1, 0, 0]);
    let b = TileData::Color([2, 0, 0]);
    let c = TileData::Texture { tileset_id: 0, tile_index: 3 };
    let d = TileData::Color([4, 0, 0]);
    let mut level = Level::new("Level".to_string(), 8, 8, 16);
    level.set_tile(1, 10, 20, a);
    level.set_tile(1, 12, 20, b);
    level.set_tile(1, 11, 21, c);
    level.set_tile(1, 12, 21, d);
    level.set_tile(1, 13, 20, TileData::Color([9, 9, 9]));
    level.set_tile(1, 10, 22, TileData::Color([9, 9, 9]));
    level.set_tile(0, 11, 20, TileData::Color([9, 9, 9]));
    state.load_level(level);
    select(&mut state, (12, 21), (10, 20));
    assert_eq!(state.copy_selection(), Ok(6));
    let content = state.clipboard().unwrap();
    assert_eq!(content.origin, (10, 20));
    assert_eq!(content.width, 3);
    assert_eq!(content.height, 2);
    assert_eq!(content.tiles, vec![((0, 0), a), ((1, 1), c), ((2, 0), b), ((2, 1), d)]);
    assert!(state.selection().is_active);
    assert!(!state.can_undo());
}

#[test]
fn copy_replaces_the_clipboard() {
    let mut state = EditorState::new();
    state.handle_pointer(primary_click(0, 0));
    state.handle_pointer(drag_stop(0, 0));
    select(&mut state, (0, 0), (0, 0));
    state.copy_selection().unwrap();
    assert_eq!(state.clipboard().unwrap().tiles.len(), 1);
    select(&mut state, (5, 5), (6, 6));
    assert_eq!(state.copy_selection(), Ok(4));
    let content = state.clipboard().unwrap();
    assert!(content.tiles.is_empty());
    assert_eq!(content.origin, (5, 5));
    assert_eq!((content.width, content.height), (2, 2));
}

#[test]
fn copy_without_a_current_layer_captures_nothing() {
    let mut state = EditorState::new();
    state.handle_pointer(primary_click(0, 0));
    state.handle_pointer(drag_stop(0, 0));
    select(&mut state, (0, 0), (1, 1));
    state.set_current_layer(5);
    assert_eq!(state.copy_selection(), Ok(4));
    assert!(state.clipboard().unwrap().tiles.is_empty());
}

#[test]
fn paste_with_empty_clipboard_fails() {
    let mut state = EditorState::new();
    assert!(!state.can_paste_at(0, 0));
    assert_eq!(state.paste_selection(0, 0), Err(EditError::ClipboardEmpty));
    assert!(!state.can_undo());
    state.set_tool(Tool::Select);
    assert_eq!(state.handle_pointer(paste_at(0, 0)), ToolOutcome::Idle);
}

#[test]
fn paste_overlays_the_tiles_at_the_target() {
    let mut state = EditorState::new();
    let a = TileData::Color([1, 0, 0]);
    let b = TileData::Color([2, 0, 0]);
    let keep = TileData::Color([7, 7, 7]);
    let mut level = Level::new("Level".to_string(), 8, 8, 16);
    level.set_tile(1, 0, 0, a);
    level.set_tile(1, 1, 1, b);
    level.set_tile(1, 101, 50, keep);
    level.set_tile(1, 100, 50, keep);
    state.load_level(level);
    select(&mut state, (0, 0), (1, 1));
    state.copy_selection().unwrap();
    assert!(state.can_paste_at(100, 50));
    assert_eq!(state.paste_selection(100, 50), Ok(2));
    assert_eq!(read(&state, 1, 100, 50), a);
    assert_eq!(read(&state, 1, 101, 51), b);
    assert_eq!(read(&state, 1, 101, 50), keep);
    assert!(read(&state, 1, 100, 51).is_empty());
    assert_eq!(read(&state, 1, 0, 0), a);
    assert!(state.clipboard().is_some());
    assert!(state.undo());
    assert_eq!(read(&state, 1, 100, 50), keep);
    assert!(read(&state, 1, 101, 51).is_empty());
}

#[test]
fn paste_request_pastes_at_the_pointer() {
    let mut state = EditorState::new();
    state.handle_pointer(primary_click(0, 0));
    state.handle_pointer(drag_stop(0, 0));
    let tile = read(&state, 1, 0, 0);
    select(&mut state, (0, 0), (0, 0));
    state.copy_selection().unwrap();
    assert_eq!(state.handle_pointer(paste_at(-4, -4)), ToolOutcome::Pasted { tiles: 1 });
    assert_eq!(read(&state, 1, -4, -4), tile);
}

#[test]
fn paste_beyond_the_edge_of_the_grid_is_refused() {
    let mut state = EditorState::new();
    let mut level = Level::new("Level".to_string(), 8, 8, 16);
    level.set_tile(1, 1, 1, TileData::Color(RED));
    state.load_level(level);
    select(&mut state, (0, 0), (1, 1));
    state.copy_selection().unwrap();
    assert!(state.can_paste_at(i32::MAX - 1, i32::MAX - 1));
    assert!(!state.can_paste_at(i32::MAX, 0));
    assert!(!state.can_paste_at(0, i32::MAX));
    assert_eq!(state.handle_pointer(paste_at(i32::MAX, 0)), ToolOutcome::PasteOutOfRange);
    assert!(!state.can_undo());
    assert_eq!(
        state.handle_pointer(paste_at(i32::MAX - 1, i32::MAX - 1)),
        ToolOutcome::Pasted { tiles: 1 }
    );
    assert_eq!(read(&state, 1, i32::MAX, i32::MAX), TileData::Color(RED));
}

#[test]
fn delete_without_active_selection_fails() {
    let mut state = EditorState::new();
    state.handle_pointer(primary_click(0, 0));
    state.handle_pointer(drag_stop(0, 0));
    assert_eq!(state.delete_selection(), Err(EditError::NoActiveSelection));
    assert!(!read(&state, 1, 0, 0).is_empty());
}

#[test]
fn delete_empties_the_rectangle_and_drops_the_selection() {
    let mut state = EditorState::new();
    let mut level = Level::new("Level".to_string(), 8, 8, 16);
    level.set_tile(1, 0, 0, TileData::Color(RED));
    level.set_tile(1, 1, 1, TileData::Color(RED));
    level.set_tile(1, 2, 2, TileData::Color(RED));
    level.set_tile(0, 0, 0, TileData::Color(RED));
    state.load_level(level);
    select(&mut state, (0, 0), (1, 1));
    assert_eq!(state.delete_selection(), Ok(4));
    assert!(read(&state, 1, 0, 0).is_empty());
    assert!(read(&state, 1, 1, 1).is_empty());
    assert_eq!(read(&state, 1, 2, 2), TileData::Color(RED));
    assert_eq!(read(&state, 0, 0, 0), TileData::Color(RED));
    assert_eq!(state.selection(), SelectionData { start: None, end: None, is_active: false });
    assert!(state.undo());
    assert_eq!(read(&state, 1, 0, 0), TileData::Color(RED));
    assert_eq!(read(&state, 1, 1, 1), TileData::Color(RED));
}

#[test]
fn undo_and_redo_report_an_empty_history() {
    let mut state = EditorState::new();
    assert!(!state.undo());
    assert!(!state.redo());
    assert_eq!(state.level().layer_count(), 3);
}

#[test]
fn undo_brings_back_the_current_layer_too() {
    let mut state = EditorState::new();
    state.save_history();
    state.set_current_layer(2);
    state.handle_pointer(primary_click(0, 0));
    state.handle_pointer(drag_stop(0, 0));
    assert!(state.undo());
    assert_eq!(state.current_layer(), 2);
    assert!(read(&state, 2, 0, 0).is_empty());
    assert!(state.undo());
    assert_eq!(state.current_layer(), 1);
    assert!(state.redo());
    assert_eq!(state.current_layer(), 2);
    assert!(state.redo());
    assert!(!read(&state, 2, 0, 0).is_empty());
    assert!(!state.redo());
}

#[test]
fn a_new_action_after_undo_discards_redo() {
    let mut state = EditorState::new();
    state.handle_pointer(primary_click(0, 0));
    state.handle_pointer(drag_stop(0, 0));
    assert!(state.undo());
    assert!(state.can_redo());
    state.handle_pointer(primary_click(1, 1));
    assert!(!state.can_redo());
    assert!(!state.redo());
}

#[test]
fn history_keeps_fifty_steps() {
    let mut state = EditorState::new();
    for x in 0..60 {
        state.handle_pointer(primary_click(x, 0));
        state.handle_pointer(drag_stop(x, 0));
    }
    let mut undone: u32 = 0;
    while state.undo() {
        undone += 1;
    }
    assert_eq!(undone, 50);
    assert_eq!(state.level().layer(1).unwrap().tile_count(), 10);
}

#[test]
fn layer_commands_keep_the_current_layer_in_step() {
    let mut state = EditorState::new();
    state.add_layer("Layer 4".to_string(), true);
    assert_eq!(state.current_layer(), 3);
    state.add_layer("Layer 5".to_string(), false);
    assert_eq!(state.current_layer(), 3);
    assert!(state.move_current_layer_up());
    assert_eq!(state.current_layer(), 2);
    assert_eq!(state.level().layer(2).unwrap().name(), "Layer 4");
    assert!(state.move_current_layer_down());
    assert!(state.move_current_layer_down());
    assert_eq!(state.current_layer(), 4);
    assert!(!state.move_current_layer_down());
    assert_eq!(state.level().layer(4).unwrap().name(), "Layer 4");
    assert!(state.remove_current_layer());
    assert_eq!(state.current_layer(), 3);
    assert_eq!(state.level().layer_count(), 4);
    state.set_current_layer(0);
    assert!(!state.move_current_layer_up());
    assert!(state.remove_current_layer());
    assert_eq!(state.current_layer(), 0);
    assert_eq!(state.level().layer(0).unwrap().name(), "Main");
}

#[test]
fn the_last_layer_cannot_be_removed() {
    let mut state = EditorState::new();
    state.set_current_layer(0);
    assert!(state.remove_current_layer());
    assert!(state.remove_current_layer());
    assert!(!state.remove_current_layer());
    assert_eq!(state.level().layer_count(), 1);
    state.set_current_layer(3);
    assert!(!state.remove_current_layer());
}

#[test]
fn layer_presets_replace_the_stack() {
    let mut state = EditorState::new();
    state.handle_pointer(primary_click(0, 0));
    let names = vec!["Sky".to_string(), "Hills".to_string(), "Terrain".to_string()];
    assert!(state.reset_layers(names, 2));
    assert_eq!(state.current_layer(), 2);
    assert_eq!(state.level().layer_count(), 3);
    assert_eq!(state.level().layer(2).unwrap().name(), "Terrain");
    assert!(read(&state, 1, 0, 0).is_empty());
    assert!(!state.reset_layers(Vec::new(), 0));
    assert_eq!(state.current_layer(), 2);
}

#[test]
fn loading_a_level_selects_the_second_layer() {
    let mut state = EditorState::new();
    state.set_current_layer(2);
    let mut level = Level::new("Loaded".to_string(), 10, 10, 8);
    level.remove_layer(0);
    level.remove_layer(0);
    state.load_level(level);
    assert_eq!(state.current_layer(), 0);
    assert_eq!(state.level().name(), "Loaded");
    state.load_level(Level::new("Other".to_string(), 10, 10, 8));
    assert_eq!(state.current_layer(), 1);
    let with = EditorState::with_level(Level::new("Third".to_string(), 1, 1, 1), 2);
    assert_eq!(with.current_layer(), 1);
    assert_eq!(with.level().name(), "Third");
}

#[test]
fn clearing_layers_records_nothing() {
    let mut state = EditorState::new();
    let mut level = Level::new("Level".to_string(), 8, 8, 16);
    level.set_tile(0, 0, 0, TileData::Color(RED));
    level.set_tile(1, 0, 0, TileData::Color(RED));
    state.load_level(level);
    assert!(state.clear_current_layer());
    assert!(read(&state, 1, 0, 0).is_empty());
    assert!(!read(&state, 0, 0, 0).is_empty());
    state.clear_all_layers();
    assert!(read(&state, 0, 0, 0).is_empty());
    assert!(!state.can_undo());
    state.set_current_layer(9);
    assert!(!state.clear_current_layer());
}

#[test]
fn editor_forwards_layer_settings() {
    let mut state = EditorState::new();
    assert!(state.rename_layer(0, "Far".to_string()));
    assert!(!state.rename_layer(3, "None".to_string()));
    assert!(state.set_layer_visible(2, false));
    assert!(!state.set_layer_visible(3, false));
    state.set_level_size(128, 96);
    state.cancel_selection();
    assert_eq!(state.level().layer(0).unwrap().name(), "Far");
    assert!(!state.level().layer(2).unwrap().is_visible());
    assert_eq!((state.level().width(), state.level().height()), (128, 96));
}

#[test]
fn regions_are_normalised() {
    let region = Region::from_corners((3, -2), (-1, 4));
    assert_eq!(region, Region { min_x: -1, max_x: 3, min_y: -2, max_y: 4 });
    assert_eq!(region.width(), 5);
    assert_eq!(region.height(), 7);
    assert_eq!(region.cell_count(), 35);
    assert_eq!(
        Region::line_from((0, 0), (5, 2)),
        Region { min_x: 0, max_x: 5, min_y: 0, max_y: 0 }
    );
    assert_eq!(
        Region::line_from((0, 0), (2, 2)),
        Region { min_x: 0, max_x: 0, min_y: 0, max_y: 2 }
    );
    assert_eq!(
        Region::line_from((0, 0), (-3, 1)),
        Region { min_x: -3, max_x: 0, min_y: 0, max_y: 0 }
    );
    assert_eq!(
        Region::line_from((i32::MIN, 0), (i32::MAX, i32::MAX)),
        Region { min_x: i32::MIN, max_x: i32::MAX, min_y: 0, max_y: 0 }
    );
}

#[test]
fn clipboard_content_checks_the_paste_position() {
    let content = SelectionContent {
        tiles: vec![((0, 0), TileData::Color(RED)), ((3, 2), TileData::Color(RED))],
        origin: (0, 0),
        width: 4,
        height: 3,
    };
    assert!(content.fits_at(0, 0));
    assert!(content.fits_at(i32::MIN, i32::MIN));
    assert!(content.fits_at(i32::MAX - 3, i32::MAX - 2));
    assert!(!content.fits_at(i32::MAX - 2, 0));
    assert!(!content.fits_at(0, i32::MAX - 1));
    assert_eq!(sorted_tiles(&content).len(), 2);
}

#[test]
fn fill_without_a_current_layer_writes_nowhere() {
    let mut state = EditorState::new();
    state.set_tool(Tool::RectFill);
    state.set_current_layer(3);
    state.handle_pointer(primary_click(0, 0));
    assert_eq!(state.handle_pointer(primary_click(1, 1)), ToolOutcome::NoLayer);
    assert_eq!(state.selection().start, None);
    assert!(state.can_undo());
    for layer in state.level().layers() {
        assert_eq!(layer.tile_count(), 0);
    }
}

#[test]
fn replacing_the_level_keeps_the_rest() {
    let mut state = EditorState::new();
    state.handle_pointer(primary_click(0, 0));
    state.set_current_layer(2);
    state.replace_level(Level::new("Fresh".to_string(), 64, 48, 16));
    assert_eq!(state.level().name(), "Fresh");
    assert_eq!(state.current_layer(), 2);
    assert!(read(&state, 1, 0, 0).is_empty());
    assert!(state.can_undo());
    assert_eq!(state.last_painted(), Some((0, 0)));
    state.end_stroke();
    assert_eq!(state.last_painted(), None);
}
