use level_editor::history::{History, HistoryState};
use level_editor::level::Level;
use level_editor::tile::TileData;

fn snapshot(mark: u8, current_layer: usize) -> HistoryState {
    let mut level = Level::new("Level".to_string(), 1, 1, 1);
    level.set_tile(0, 0, 0, TileData::Color([mark, 0, 0]));
    HistoryState::new(level.snapshot_layers(), current_layer)
}

fn mark_of(state: &HistoryState) -> u8 {
    match state.layers()[0].get_tile(0, 0) {
        TileData::Color(rgb) => rgb[0],
        TileData::Texture { .. } => 0,
    }
}

#[test]
fn new_history_is_empty() {
    let history = History::new(50);
    assert_eq!(history.max_size(), 50);
    assert!(!history.can_undo());
    assert!(!history.can_redo());
    assert_eq!(history.undo_len(), 0);
    assert_eq!(history.redo_len(), 0);
}

#[test]
fn undo_on_empty_history_reports_nothing() {
    let mut history = History::new(3);
    assert!(history.undo(snapshot(9, 0)).is_none());
    assert!(history.redo(snapshot(9, 0)).is_none());
    assert_eq!(history.undo_len(), 0);
    assert_eq!(history.redo_len(), 0);
}

#[test]
fn undo_returns_records_newest_first() {
    let mut history = History::new(5);
    history.push(snapshot(1, 0));
    history.push(snapshot(2, 1));
    history.push(snapshot(3, 2));
    let third = history.undo(snapshot(100, 0)).unwrap();
    assert_eq!(mark_of(&third), 3);
    assert_eq!(third.current_layer(), 2);
    let second = history.undo(snapshot(101, 0)).unwrap();
    assert_eq!(mark_of(&second), 2);
    assert_eq!(second.current_layer(), 1);
    let first = history.undo(snapshot(102, 0)).unwrap();
    assert_eq!(mark_of(&first), 1);
    assert_eq!(first.current_layer(), 0);
    assert!(history.undo(snapshot(103, 0)).is_none());
    assert!(!history.can_undo());
    assert_eq!(history.redo_len(), 3);
}

#[test]
fn record_after_undo_discards_the_redo_branch() {
    let mut history = History::new(5);
    history.push(snapshot(1, 0));
    history.push(snapshot(2, 0));
    assert!(history.undo(snapshot(3, 0)).is_some());
    assert!(history.can_redo());
    history.push(snapshot(4, 0));
    assert!(!history.can_redo());
    assert!(history.redo(snapshot(5, 0)).is_none());
    assert_eq!(history.undo_len(), 2);
}

#[test]
fn capacity_two_keeps_the_two_newest_records() {
    let mut history = History::new(2);
    history.push(snapshot(1, 0));
    history.push(snapshot(2, 0));
    history.push(snapshot(3, 0));
    assert_eq!(history.undo_len(), 2);
    assert_eq!(mark_of(&history.undo(snapshot(10, 0)).unwrap()), 3);
    assert_eq!(mark_of(&history.undo(snapshot(11, 0)).unwrap()), 2);
    assert!(history.undo(snapshot(12, 0)).is_none());
}

#[test]
fn redo_returns_what_undo_put_aside() {
    let mut history = History::new(5);
    history.push(snapshot(1, 0));
    let previous = history.undo(snapshot(2, 4)).unwrap();
    assert_eq!(mark_of(&previous), 1);
    let next = history.redo(snapshot(1, 0)).unwrap();
    assert_eq!(mark_of(&next), 2);
    assert_eq!(next.current_layer(), 4);
    assert!(history.can_undo());
    assert!(!history.can_redo());
}

#[test]
fn redo_keeps_the_undo_stack_and_the_rest_of_the_redo_stack() {
    let mut history = History::new(5);
    history.push(snapshot(1, 0));
    history.push(snapshot(2, 0));
    history.push(snapshot(3, 0));
    history.undo(snapshot(4, 0)).unwrap();
    history.undo(snapshot(3, 0)).unwrap();
    assert_eq!(history.undo_len(), 1);
    assert_eq!(history.redo_len(), 2);
    assert_eq!(mark_of(&history.redo(snapshot(2, 0)).unwrap()), 3);
    assert_eq!(history.undo_len(), 2);
    assert_eq!(history.redo_len(), 1);
    assert_eq!(mark_of(&history.redo(snapshot(3, 0)).unwrap()), 4);
    assert_eq!(history.undo_len(), 3);
    assert_eq!(history.redo_len(), 0);
}

#[test]
fn the_redo_stack_is_bounded_too() {
    let mut history = History::new(2);
    history.push(snapshot(1, 0));
    history.push(snapshot(2, 0));
    history.push_redo(snapshot(7, 0));
    history.push_redo(snapshot(8, 0));
    history.push_redo(snapshot(9, 0));
    assert_eq!(history.redo_len(), 2);
    assert_eq!(history.undo_len(), 2);
    assert_eq!(mark_of(&history.redo(snapshot(3, 0)).unwrap()), 9);
    assert_eq!(mark_of(&history.redo(snapshot(4, 0)).unwrap()), 8);
    assert!(history.redo(snapshot(5, 0)).is_none());
}

#[test]
fn capacity_zero_keeps_the_newest_record() {
    let mut history = History::new(0);
    history.push(snapshot(1, 0));
    history.push(snapshot(2, 0));
    assert_eq!(history.undo_len(), 1);
    assert_eq!(mark_of(&history.undo(snapshot(3, 0)).unwrap()), 2);
    assert!(history.undo(snapshot(4, 0)).is_none());
}

#[test]
fn a_snapshot_is_a_deep_copy() {
    let mut level = Level::new("Level".to_string(), 1, 1, 1);
    level.set_tile(1, 5, 5, TileData::Color([9, 9, 9]));
    let state = HistoryState::new(level.snapshot_layers(), 1);
    level.set_tile(1, 5, 5, TileData::empty());
    assert_eq!(state.layers()[1].get_tile(5, 5), TileData::Color([9, 9, 9]));
    let (layers, current_layer) = state.into_parts();
    assert_eq!(layers.len(), 3);
    assert_eq!(current_layer, 1);
}
