use level_editor::layer::Layer;
use level_editor::level::Level;
use level_editor::tile::{TileData, TileRef, TileType};

fn red() -> TileData {
    TileData::Color([255, 0, 0])
}

#[test]
fn sentinel_is_dark_grey_and_empty() {
    assert_eq!(TileData::empty(), TileData::Color([40, 40, 40]));
    assert!(TileData::empty().is_empty());
    assert!(!red().is_empty());
    assert!(!TileData::Color([40, 40, 41]).is_empty());
    assert!(!TileData::Texture { tileset_id: 0, tile_index: 0 }.is_empty());
}

#[test]
fn new_layer_is_visible_and_empty() {
    let layer = Layer::new("Ground".to_string());
    assert_eq!(layer.name(), "Ground");
    assert!(layer.is_visible());
    assert_eq!(layer.tile_count(), 0);
    assert_eq!(layer.get_tile(0, 0), TileData::empty());
}

#[test]
fn set_then_get_returns_the_tile() {
    let mut layer = Layer::new("L".to_string());
    layer.set_tile(2, 3, red());
    assert_eq!(layer.get_tile(2, 3), red());
    assert!(layer.has_tile(2, 3));
    assert_eq!(layer.get_tile(3, 2), TileData::empty());
    assert!(!layer.has_tile(3, 2));
    assert_eq!(layer.tile_count(), 1);
}

#[test]
fn set_sentinel_removes_the_entry() {
    let mut layer = Layer::new("L".to_string());
    layer.set_tile(-7, 9, red());
    layer.set_tile(-7, 9, TileData::empty());
    assert_eq!(layer.get_tile(-7, 9), TileData::empty());
    assert!(!layer.has_tile(-7, 9));
    assert_eq!(layer.tile_count(), 0);
    assert!(layer.entries().is_empty());
}

#[test]
fn set_sentinel_on_an_empty_cell_changes_nothing() {
    let mut layer = Layer::new("L".to_string());
    layer.set_tile(1, 1, red());
    layer.set_tile(5, 5, TileData::empty());
    layer.set_tile(5, 5, TileData::empty());
    assert_eq!(layer.tile_count(), 1);
    assert_eq!(layer.get_tile(1, 1), red());
}

#[test]
fn set_overwrites_the_cell() {
    let mut layer = Layer::new("L".to_string());
    layer.set_tile(0, 0, red());
    let texture = TileData::Texture { tileset_id: 2, tile_index: 17 };
    layer.set_tile(0, 0, texture);
    assert_eq!(layer.get_tile(0, 0), texture);
    assert_eq!(layer.tile_count(), 1);
}

#[test]
fn cells_at_the_edges_of_the_grid_are_distinct() {
    let mut layer = Layer::new("L".to_string());
    let a = TileData::Color([1, 1, 1]);
    let b = TileData::Color([2, 2, 2]);
    let c = TileData::Color([3, 3, 3]);
    let d = TileData::Color([4, 4, 4]);
    layer.set_tile(i32::MIN, i32::MIN, a);
    layer.set_tile(i32::MIN, i32::MAX, b);
    layer.set_tile(i32::MAX, i32::MIN, c);
    layer.set_tile(i32::MAX, i32::MAX, d);
    layer.set_tile(-1, 0, a);
    layer.set_tile(0, -1, b);
    assert_eq!(layer.get_tile(i32::MIN, i32::MIN), a);
    assert_eq!(layer.get_tile(i32::MIN, i32::MAX), b);
    assert_eq!(layer.get_tile(i32::MAX, i32::MIN), c);
    assert_eq!(layer.get_tile(i32::MAX, i32::MAX), d);
    assert_eq!(layer.get_tile(-1, 0), a);
    assert_eq!(layer.get_tile(0, -1), b);
    assert_eq!(layer.get_tile(0, 0), TileData::empty());
    assert_eq!(layer.tile_count(), 6);
}

#[test]
fn clear_empties_every_cell() {
    let mut layer = Layer::new("L".to_string());
    layer.set_tile(1, 2, red());
    layer.set_tile(-3, 4, red());
    layer.set_visible(false);
    layer.clear();
    assert_eq!(layer.tile_count(), 0);
    assert_eq!(layer.get_tile(1, 2), TileData::empty());
    assert_eq!(layer.get_tile(-3, 4), TileData::empty());
    assert_eq!(layer.name(), "L");
    assert!(!layer.is_visible());
}

#[test]
fn entries_list_each_tile_once() {
    let mut layer = Layer::new("L".to_string());
    layer.set_tile(1, 2, red());
    layer.set_tile(-3, 4, TileData::Texture { tileset_id: 1, tile_index: 5 });
    layer.set_tile(1, 2, TileData::Color([0, 0, 1]));
    let mut entries = layer.entries();
    entries.sort_by_key(|entry| entry.0);
    assert_eq!(
        entries,
        vec![
            ((-3, 4), TileData::Texture { tileset_id: 1, tile_index: 5 }),
            ((1, 2), TileData::Color([0, 0, 1])),
        ]
    );
}

#[test]
fn clone_is_a_deep_copy() {
    let mut layer = Layer::new("L".to_string());
    layer.set_tile(1, 1, red());
    let copy = layer.clone();
    layer.set_tile(1, 1, TileData::empty());
    layer.set_name("changed".to_string());
    assert_eq!(copy.get_tile(1, 1), red());
    assert_eq!(copy.name(), "L");
    assert_eq!(layer.get_tile(1, 1), TileData::empty());
}

#[test]
fn tile_types_have_their_colours_and_names() {
    assert_eq!(TileType::Empty.color(), [40, 40, 40]);
    assert_eq!(TileType::Ground.color(), [139, 69, 19]);
    assert_eq!(TileType::Wall.color(), [128, 128, 128]);
    assert_eq!(TileType::Platform.color(), [205, 133, 63]);
    assert_eq!(TileType::Spike.color(), [255, 0, 0]);
    assert_eq!(TileType::Coin.color(), [255, 215, 0]);
    assert_eq!(TileType::Spawn.color(), [0, 255, 0]);
    assert_eq!(TileType::Exit.color(), [0, 191, 255]);
    assert_eq!(TileType::Empty.name(), "Vide");
    assert_eq!(TileType::Ground.name(), "Sol");
    assert_eq!(TileType::Wall.name(), "Mur");
    assert_eq!(TileType::Platform.name(), "Plateforme");
    assert_eq!(TileType::Spike.name(), "Piège");
    assert_eq!(TileType::Coin.name(), "Pièce");
    assert_eq!(TileType::Spawn.name(), "Départ");
    assert_eq!(TileType::Exit.name(), "Sortie");
    assert!(TileType::Empty.to_tile().is_empty());
    assert_eq!(TileType::Coin.to_tile(), TileData::Color([255, 215, 0]));
}

#[test]
fn all_tile_types_are_listed_in_order() {
    assert_eq!(
        TileType::all(),
        vec![
            TileType::Empty,
            TileType::Ground,
            TileType::Wall,
            TileType::Platform,
            TileType::Spike,
            TileType::Coin,
            TileType::Spawn,
            TileType::Exit,
        ]
    );
}

#[test]
fn tile_ref_paints_a_texture_tile() {
    let tile_ref = TileRef { tileset_id: 3, tile_index: 11 };
    assert_eq!(tile_ref.to_tile(), TileData::Texture { tileset_id: 3, tile_index: 11 });
}

#[test]
fn new_level_has_the_three_default_layers() {
    let level = Level::new("Level".to_string(), 64, 48, 16);
    assert_eq!(level.name(), "Level");
    assert_eq!(level.width(), 64);
    assert_eq!(level.height(), 48);
    assert_eq!(level.tile_size(), 16);
    assert_eq!(level.layer_count(), 3);
    let names: Vec<&str> = level.layers().iter().map(|layer| layer.name().as_str()).collect();
    assert_eq!(names, vec!["Background", "Main", "Foreground"]);
    for layer in level.layers() {
        assert!(layer.is_visible());
        assert_eq!(layer.tile_count(), 0);
    }
}

#[test]
fn add_layer_appends_an_empty_layer() {
    let mut level = Level::new("Level".to_string(), 1, 1, 1);
    level.add_layer("Top".to_string());
    assert_eq!(level.layer_count(), 4);
    assert_eq!(level.layer(3).unwrap().name(), "Top");
    assert_eq!(level.layer(3).unwrap().tile_count(), 0);
    assert!(level.layer(4).is_none());
}

#[test]
fn remove_layer_closes_the_gap() {
    let mut level = Level::new("Level".to_string(), 1, 1, 1);
    assert!(level.remove_layer(1));
    assert_eq!(level.layer_count(), 2);
    assert_eq!(level.layer(0).unwrap().name(), "Background");
    assert_eq!(level.layer(1).unwrap().name(), "Foreground");
}

#[test]
fn remove_layer_refuses_the_last_layer_and_bad_indices() {
    let mut level = Level::new("Level".to_string(), 1, 1, 1);
    assert!(!level.remove_layer(3));
    assert_eq!(level.layer_count(), 3);
    assert!(level.remove_layer(0));
    assert!(level.remove_layer(0));
    assert_eq!(level.layer_count(), 1);
    assert!(!level.remove_layer(0));
    assert_eq!(level.layer_count(), 1);
    assert_eq!(level.layer(0).unwrap().name(), "Foreground");
}

#[test]
fn move_layer_up_swaps_with_the_layer_below() {
    let mut level = Level::new("Level".to_string(), 1, 1, 1);
    level.set_tile(2, 0, 0, red());
    assert!(level.move_layer_up(2));
    assert_eq!(level.layer(1).unwrap().name(), "Foreground");
    assert_eq!(level.layer(2).unwrap().name(), "Main");
    assert_eq!(level.get_tile(1, 0, 0), red());
    assert_eq!(level.get_tile(2, 0, 0), TileData::empty());
    assert!(!level.move_layer_up(0));
    assert!(!level.move_layer_up(3));
    assert_eq!(level.layer(0).unwrap().name(), "Background");
}

#[test]
fn move_layer_down_swaps_with_the_layer_above() {
    let mut level = Level::new("Level".to_string(), 1, 1, 1);
    assert!(level.move_layer_down(0));
    assert_eq!(level.layer(0).unwrap().name(), "Main");
    assert_eq!(level.layer(1).unwrap().name(), "Background");
    assert!(!level.move_layer_down(2));
    assert!(!level.move_layer_down(7));
    assert!(!level.move_layer_down(usize::MAX));
    assert_eq!(level.layer(2).unwrap().name(), "Foreground");
}

#[test]
fn rename_layer_refuses_bad_indices() {
    let mut level = Level::new("Level".to_string(), 1, 1, 1);
    assert!(level.rename_layer(1, "Gameplay".to_string()));
    assert_eq!(level.layer(1).unwrap().name(), "Gameplay");
    assert!(!level.rename_layer(3, "Nowhere".to_string()));
    assert_eq!(level.layer_count(), 3);
}

#[test]
fn layer_visibility_is_set_per_layer() {
    let mut level = Level::new("Level".to_string(), 1, 1, 1);
    assert!(level.set_layer_visible(0, false));
    assert!(!level.layer(0).unwrap().is_visible());
    assert!(level.layer(1).unwrap().is_visible());
    assert!(!level.set_layer_visible(9, false));
}

#[test]
fn level_tiles_are_kept_per_layer() {
    let mut level = Level::new("Level".to_string(), 1, 1, 1);
    assert!(level.set_tile(1, 2, 3, red()));
    assert!(!level.set_tile(3, 2, 3, red()));
    assert_eq!(level.get_tile(1, 2, 3), red());
    assert_eq!(level.get_tile(0, 2, 3), TileData::empty());
    assert_eq!(level.get_tile(3, 2, 3), TileData::empty());
    assert!(level.clear_layer(1));
    assert!(!level.clear_layer(3));
    assert_eq!(level.get_tile(1, 2, 3), TileData::empty());
}

#[test]
fn clear_all_layers_keeps_the_layers() {
    let mut level = Level::new("Level".to_string(), 1, 1, 1);
    level.set_tile(0, 1, 1, red());
    level.set_tile(2, -1, -1, red());
    level.clear_all_layers();
    assert_eq!(level.layer_count(), 3);
    assert_eq!(level.get_tile(0, 1, 1), TileData::empty());
    assert_eq!(level.get_tile(2, -1, -1), TileData::empty());
    assert_eq!(level.layer(2).unwrap().name(), "Foreground");
}

#[test]
fn reset_layers_needs_a_name() {
    let mut level = Level::new("Level".to_string(), 1, 1, 1);
    level.set_tile(0, 1, 1, red());
    assert!(!level.reset_layers(Vec::new()));
    assert_eq!(level.layer_count(), 3);
    assert_eq!(level.get_tile(0, 1, 1), red());
    assert!(level.reset_layers(vec!["Sky".to_string(), "Terrain".to_string()]));
    assert_eq!(level.layer_count(), 2);
    assert_eq!(level.layer(0).unwrap().name(), "Sky");
    assert_eq!(level.layer(1).unwrap().name(), "Terrain");
    assert_eq!(level.get_tile(0, 1, 1), TileData::empty());
}

#[test]
fn level_size_is_only_a_hint() {
    let mut level = Level::new("Level".to_string(), 2, 2, 16);
    level.set_size(32, 24);
    assert_eq!(level.width(), 32);
    assert_eq!(level.height(), 24);
    assert!(level.set_tile(0, 1000, -1000, red()));
    assert_eq!(level.get_tile(0, 1000, -1000), red());
}

#[test]
fn find_tiles_by_color_lists_each_matching_cell() {
    let mut layer = Layer::new("L".to_string());
    layer.set_tile(1, 1, red());
    layer.set_tile(-2, 5, red());
    layer.set_tile(3, 3, TileData::Color([255, 0, 1]));
    layer.set_tile(4, 4, TileData::Texture { tileset_id: 255, tile_index: 0 });
    let mut cells = layer.find_tiles_by_color([255, 0, 0]);
    cells.sort();
    assert_eq!(cells, vec![(-2, 5), (1, 1)]);
    assert!(layer.find_tiles_by_color([0, 0, 0]).is_empty());
    assert!(layer.find_tiles_by_color([40, 40, 40]).is_empty());
}

#[test]
fn level_finds_a_colour_layer_after_layer() {
    let mut level = Level::new("Level".to_string(), 1, 1, 1);
    level.set_tile(2, 9, 9, red());
    level.set_tile(0, 1, 1, red());
    level.set_tile(0, 2, 2, TileData::Color([0, 0, 0]));
    level.set_tile(1, 1, 1, red());
    assert_eq!(level.find_tiles_by_color([255, 0, 0]), vec![(1, 1), (1, 1), (9, 9)]);
    assert_eq!(level.find_tiles_by_color([0, 0, 0]), vec![(2, 2)]);
    assert!(level.find_tiles_by_color([1, 2, 3]).is_empty());
}

#[test]
fn layer_named_finds_the_first_layer_of_that_name() {
    let mut level = Level::new("Level".to_string(), 1, 1, 1);
    level.add_layer("Main".to_string());
    level.set_tile(1, 0, 0, red());
    let main = level.layer_named("Main").unwrap();
    assert_eq!(main.get_tile(0, 0), red());
    assert_eq!(level.layer_named("Foreground").unwrap().name(), "Foreground");
    assert!(level.layer_named("main").is_none());
    assert!(level.layer_named("").is_none());
}
