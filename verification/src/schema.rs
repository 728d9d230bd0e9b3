//! The schema of the project file, stated over JSON documents.
//!
//! A project document is an object with a `version`, a `level` and a list of
//! `tilesets`. A level is an object with `name`, `width`, `height`,
//! `tile_size` and `layers`; a layer has `name`, `visible` and `tiles`, an
//! object that maps tile keys to tiles. A tile is an array of three bytes, a
//! flat colour, or an object with `tileset_id` and `tile_index`. Fields that
//! the schema does not name are ignored.

use crate::json::{field_at, lemma_find_field, JsonDoc};
use crate::layer::{lists_tiles, LayerView};
use crate::level::LevelView;
use crate::project::{ProjectView, TilesetView};
use crate::tile::TileData;
use crate::tile_key::{lemma_tile_key_round_trip, parse_tile_key_text, tile_key_text};
use vstd::prelude::*;

verus! {

pub open spec fn decode_u8(doc: JsonDoc) -> Option<u8> {
    match doc.as_uint(u8::MAX as u64) {
        Some(n) => Some(n as u8),
        None => None,
    }
}

pub open spec fn decode_u32(doc: JsonDoc) -> Option<u32> {
    match doc.as_uint(u32::MAX as u64) {
        Some(n) => Some(n as u32),
        None => None,
    }
}

pub open spec fn decode_usize(doc: JsonDoc) -> Option<usize> {
    match doc.as_uint(usize::MAX as u64) {
        Some(n) => Some(n as usize),
        None => None,
    }
}

/// The text of the field `name`, where the object has it and it is a text.
pub open spec fn text_field(doc: JsonDoc, name: Seq<char>) -> Option<Seq<char>> {
    match doc.field(name) {
        Some(value) => value.as_text(),
        None => None,
    }
}

pub open spec fn bool_field(doc: JsonDoc, name: Seq<char>) -> Option<bool> {
    match doc.field(name) {
        Some(value) => value.as_bool(),
        None => None,
    }
}

pub open spec fn u32_field(doc: JsonDoc, name: Seq<char>) -> Option<u32> {
    match doc.field(name) {
        Some(value) => decode_u32(value),
        None => None,
    }
}

pub open spec fn usize_field(doc: JsonDoc, name: Seq<char>) -> Option<usize> {
    match doc.field(name) {
        Some(value) => decode_usize(value),
        None => None,
    }
}

pub open spec fn array_field(doc: JsonDoc, name: Seq<char>) -> Option<Seq<JsonDoc>> {
    match doc.field(name) {
        Some(value) => value.as_array(),
        None => None,
    }
}

pub open spec fn object_field(doc: JsonDoc, name: Seq<char>) -> Option<
    Seq<(Seq<char>, JsonDoc)>,
> {
    match doc.field(name) {
        Some(value) => value.as_object(),
        None => None,
    }
}

/// The tile that a document denotes: an array of three bytes is a flat
/// colour, an object with `tileset_id` and `tile_index` a texture reference.
pub open spec fn decode_tile(doc: JsonDoc) -> Option<TileData> {
    match doc {
        JsonDoc::Array(items) => if items.len() == 3 {
            match (decode_u8(items[0]), decode_u8(items[1]), decode_u8(items[2])) {
                (Some(r), Some(g), Some(b)) => Some(TileData::Color([r, g, b])),
                _ => None,
            }
        } else {
            None
        },
        JsonDoc::Object(_) => match (
            usize_field(doc, "tileset_id"@),
            u32_field(doc, "tile_index"@),
        ) {
            (Some(tileset_id), Some(tile_index)) => Some(
                TileData::Texture { tileset_id, tile_index },
            ),
            _ => None,
        },
        _ => None,
    }
}

/// The tiles after a write of `tile` to `cell`.
pub open spec fn put_tile(
    tiles: Map<(i32, i32), TileData>,
    cell: (i32, i32),
    tile: TileData,
) -> Map<(i32, i32), TileData> {
    if tile.is_sentinel() {
        tiles.remove(cell)
    } else {
        tiles.insert(cell, tile)
    }
}

/// The tiles that the fields of a `tiles` object denote. The fields are
/// written to an empty layer in their order. Every value must be a tile. A
/// field whose key is no tile key is skipped.
pub open spec fn decode_tiles(fields: Seq<(Seq<char>, JsonDoc)>) -> Option<
    Map<(i32, i32), TileData>,
>
    decreases fields.len(),
{
    if fields.len() == 0 {
        Some(Map::empty())
    } else {
        match (decode_tiles(fields.drop_last()), decode_tile(fields.last().1)) {
            (Some(tiles), Some(tile)) => Some(
                match parse_tile_key_text(fields.last().0) {
                    Some(cell) => put_tile(tiles, cell, tile),
                    None => tiles,
                },
            ),
            _ => None,
        }
    }
}

/// The layer that a document denotes.
pub open spec fn decode_layer(doc: JsonDoc) -> Option<LayerView> {
    match (text_field(doc, "name"@), bool_field(doc, "visible"@), object_field(doc, "tiles"@)) {
        (Some(name), Some(visible), Some(fields)) => match decode_tiles(fields) {
            Some(tiles) => Some(LayerView { name, visible, tiles }),
            None => None,
        },
        _ => None,
    }
}

/// The layers that the items of a `layers` array denote: every item must be
/// a layer.
pub open spec fn decode_layers(items: Seq<JsonDoc>) -> Option<Seq<LayerView>> {
    if forall|i: int| 0 <= i < items.len() ==> (#[trigger] decode_layer(items[i])).is_some() {
        Some(Seq::new(items.len(), |i: int| decode_layer(items[i]).unwrap()))
    } else {
        None
    }
}

/// The level that a document denotes. A level without layers is refused.
pub open spec fn decode_level(doc: JsonDoc) -> Option<LevelView> {
    match (
        text_field(doc, "name"@),
        u32_field(doc, "width"@),
        u32_field(doc, "height"@),
        u32_field(doc, "tile_size"@),
        array_field(doc, "layers"@),
    ) {
        (Some(name), Some(width), Some(height), Some(tile_size), Some(items)) => {
            match decode_layers(items) {
                Some(layers) => if layers.len() >= 1 {
                    Some(LevelView { name, width, height, tile_size, layers })
                } else {
                    None
                },
                None => None,
            }
        },
        _ => None,
    }
}

/// The tileset record that a document denotes.
pub open spec fn decode_tileset(doc: JsonDoc) -> Option<TilesetView> {
    match (
        usize_field(doc, "id"@),
        text_field(doc, "name"@),
        text_field(doc, "path"@),
        u32_field(doc, "tile_width"@),
        u32_field(doc, "tile_height"@),
        u32_field(doc, "columns"@),
        u32_field(doc, "rows"@),
    ) {
        (
            Some(id),
            Some(name),
            Some(path),
            Some(tile_width),
            Some(tile_height),
            Some(columns),
            Some(rows),
        ) => Some(TilesetView { id, name, path, tile_width, tile_height, columns, rows }),
        _ => None,
    }
}

pub open spec fn decode_tilesets(items: Seq<JsonDoc>) -> Option<Seq<TilesetView>> {
    if forall|i: int| 0 <= i < items.len() ==> (#[trigger] decode_tileset(items[i])).is_some() {
        Some(Seq::new(items.len(), |i: int| decode_tileset(items[i]).unwrap()))
    } else {
        None
    }
}

/// The project that a document denotes.
pub open spec fn decode_project(doc: JsonDoc) -> Option<ProjectView> {
    match (text_field(doc, "version"@), doc.field("level"@), array_field(doc, "tilesets"@)) {
        (Some(version), Some(level_doc), Some(items)) => match (
            decode_level(level_doc),
            decode_tilesets(items),
        ) {
            (Some(level), Some(tilesets)) => Some(ProjectView { version, level, tilesets }),
            _ => None,
        },
        _ => None,
    }
}

/// The document of a tile.
pub open spec fn tile_doc(tile: TileData) -> JsonDoc {
    match tile {
        TileData::Color(rgb) => JsonDoc::Array(
            seq![
                JsonDoc::UInt(rgb[0] as u64),
                JsonDoc::UInt(rgb[1] as u64),
                JsonDoc::UInt(rgb[2] as u64),
            ],
        ),
        TileData::Texture { tileset_id, tile_index } => JsonDoc::Object(
            seq![
                ("tileset_id"@, JsonDoc::UInt(tileset_id as u64)),
                ("tile_index"@, JsonDoc::UInt(tile_index as u64)),
            ],
        ),
    }
}

/// The field of one tile of a `tiles` object.
pub open spec fn tile_field(entry: ((i32, i32), TileData)) -> (Seq<char>, JsonDoc) {
    (tile_key_text(entry.0.0, entry.0.1), tile_doc(entry.1))
}

/// The fields of a `tiles` object for a listing of tiles.
pub open spec fn tile_fields(entries: Seq<((i32, i32), TileData)>) -> Seq<(Seq<char>, JsonDoc)> {
    Seq::new(entries.len(), |i: int| tile_field(entries[i]))
}

/// `fields` are the fields of a `tiles` object for `tiles`: one field for
/// each filled cell, in any order.
pub open spec fn encodes_tiles(
    fields: Seq<(Seq<char>, JsonDoc)>,
    tiles: Map<(i32, i32), TileData>,
) -> bool {
    exists|entries: Seq<((i32, i32), TileData)>| #[trigger]
        lists_tiles(entries, tiles) && fields == tile_fields(entries)
}

/// `doc` is the document of `layer`.
pub open spec fn encodes_layer(doc: JsonDoc, layer: LayerView) -> bool {
    &&& doc matches JsonDoc::Object(fields)
    &&& fields.len() == 3
    &&& fields[0] == ("name"@, JsonDoc::Text(layer.name))
    &&& fields[1] == ("visible"@, JsonDoc::Bool(layer.visible))
    &&& fields[2].0 == "tiles"@
    &&& fields[2].1 matches JsonDoc::Object(tiles)
    &&& encodes_tiles(tiles, layer.tiles)
}

/// `docs` are the documents of `layers`, in order.
pub open spec fn encodes_layers(docs: Seq<JsonDoc>, layers: Seq<LayerView>) -> bool {
    &&& docs.len() == layers.len()
    &&& forall|i: int| 0 <= i < docs.len() ==> encodes_layer(#[trigger] docs[i], layers[i])
}

/// `doc` is the document of `level`.
pub open spec fn encodes_level(doc: JsonDoc, level: LevelView) -> bool {
    &&& doc matches JsonDoc::Object(fields)
    &&& fields.len() == 5
    &&& fields[0] == ("name"@, JsonDoc::Text(level.name))
    &&& fields[1] == ("width"@, JsonDoc::UInt(level.width as u64))
    &&& fields[2] == ("height"@, JsonDoc::UInt(level.height as u64))
    &&& fields[3] == ("tile_size"@, JsonDoc::UInt(level.tile_size as u64))
    &&& fields[4].0 == "layers"@
    &&& fields[4].1 matches JsonDoc::Array(docs)
    &&& encodes_layers(docs, level.layers)
}

/// The document of a tileset record.
pub open spec fn tileset_doc(tileset: TilesetView) -> JsonDoc {
    JsonDoc::Object(
        seq![
            ("id"@, JsonDoc::UInt(tileset.id as u64)),
            ("name"@, JsonDoc::Text(tileset.name)),
            ("path"@, JsonDoc::Text(tileset.path)),
            ("tile_width"@, JsonDoc::UInt(tileset.tile_width as u64)),
            ("tile_height"@, JsonDoc::UInt(tileset.tile_height as u64)),
            ("columns"@, JsonDoc::UInt(tileset.columns as u64)),
            ("rows"@, JsonDoc::UInt(tileset.rows as u64)),
        ],
    )
}

/// The documents of a list of tileset records.
pub open spec fn tileset_docs(tilesets: Seq<TilesetView>) -> Seq<JsonDoc> {
    Seq::new(tilesets.len(), |i: int| tileset_doc(tilesets[i]))
}

/// `doc` is the document of `project`.
pub open spec fn encodes_project(doc: JsonDoc, project: ProjectView) -> bool {
    &&& doc matches JsonDoc::Object(fields)
    &&& fields.len() == 3
    &&& fields[0] == ("version"@, JsonDoc::Text(project.version))
    &&& fields[1].0 == "level"@
    &&& encodes_level(fields[1].1, project.level)
    &&& fields[2] == ("tilesets"@, JsonDoc::Array(tileset_docs(project.tilesets)))
}

proof fn lemma_tile_field_names()
    ensures
        "tileset_id"@ != "tile_index"@,
{
    reveal_strlit("tileset_id");
    reveal_strlit("tile_index");
    assert("tileset_id"@[4] != "tile_index"@[4]);
}

proof fn lemma_layer_field_names()
    ensures
        "name"@ != "visible"@,
        "name"@ != "tiles"@,
        "visible"@ != "tiles"@,
{
    reveal_strlit("name");
    reveal_strlit("visible");
    reveal_strlit("tiles");
    assert("name"@.len() == 4);
    assert("visible"@.len() == 7);
    assert("tiles"@.len() == 5);
}

proof fn lemma_level_field_names()
    ensures
        "name"@ != "width"@,
        "name"@ != "height"@,
        "name"@ != "tile_size"@,
        "name"@ != "layers"@,
        "width"@ != "height"@,
        "width"@ != "tile_size"@,
        "width"@ != "layers"@,
        "height"@ != "tile_size"@,
        "height"@ != "layers"@,
        "tile_size"@ != "layers"@,
{
    reveal_strlit("name");
    reveal_strlit("width");
    reveal_strlit("height");
    reveal_strlit("tile_size");
    reveal_strlit("layers");
    assert("name"@.len() == 4);
    assert("width"@.len() == 5);
    assert("height"@.len() == 6);
    assert("tile_size"@.len() == 9);
    assert("layers"@.len() == 6);
    assert("height"@[0] != "layers"@[0]);
}

proof fn lemma_project_field_names()
    ensures
        "version"@ != "level"@,
        "version"@ != "tilesets"@,
        "level"@ != "tilesets"@,
{
    reveal_strlit("version");
    reveal_strlit("level");
    reveal_strlit("tilesets");
    assert("version"@.len() == 7);
    assert("level"@.len() == 5);
    assert("tilesets"@.len() == 8);
}

proof fn lemma_tileset_field_names()
    ensures
        "id"@ != "name"@,
        "id"@ != "path"@,
        "id"@ != "tile_width"@,
        "id"@ != "tile_height"@,
        "id"@ != "columns"@,
        "id"@ != "rows"@,
        "name"@ != "path"@,
        "name"@ != "tile_width"@,
        "name"@ != "tile_height"@,
        "name"@ != "columns"@,
        "name"@ != "rows"@,
        "path"@ != "tile_width"@,
        "path"@ != "tile_height"@,
        "path"@ != "columns"@,
        "path"@ != "rows"@,
        "tile_width"@ != "tile_height"@,
        "tile_width"@ != "columns"@,
        "tile_width"@ != "rows"@,
        "tile_height"@ != "columns"@,
        "tile_height"@ != "rows"@,
        "columns"@ != "rows"@,
{
    reveal_strlit("id");
    reveal_strlit("name");
    reveal_strlit("path");
    reveal_strlit("tile_width");
    reveal_strlit("tile_height");
    reveal_strlit("columns");
    reveal_strlit("rows");
    assert("id"@.len() == 2);
    assert("name"@.len() == 4);
    assert("path"@.len() == 4);
    assert("tile_width"@.len() == 10);
    assert("tile_height"@.len() == 11);
    assert("columns"@.len() == 7);
    assert("rows"@.len() == 4);
    assert("name"@[0] != "path"@[0]);
    assert("name"@[0] != "rows"@[0]);
    assert("path"@[0] != "rows"@[0]);
}

/// The field at place `i` of an object is found under its name, where no
/// earlier field has that name.
proof fn lemma_field_of(doc: JsonDoc, i: int)
    requires
        doc is Object,
        0 <= i < doc->Object_0.len(),
        forall|j: int| 0 <= j < i ==> (#[trigger] doc->Object_0[j]).0 != doc->Object_0[i].0,
    ensures
        doc.field(doc->Object_0[i].0) == Some(doc->Object_0[i].1),
{
    let fields = doc->Object_0;
    assert(field_at(fields, fields[i].0, i));
    lemma_find_field(fields, fields[i].0, i);
}

/// Reading the document of a tile gives the tile back.
pub proof fn lemma_tile_round_trip(tile: TileData)
    ensures
        decode_tile(tile_doc(tile)) == Some(tile),
{
    lemma_tile_field_names();
    match tile {
        TileData::Color(rgb) => {
            assert([rgb[0], rgb[1], rgb[2]] =~= rgb);
        },
        TileData::Texture { tileset_id, tile_index } => {
            let doc = tile_doc(tile);
            lemma_field_of(doc, 0);
            lemma_field_of(doc, 1);
        },
    }
}

/// Reading the fields of a `tiles` object that lists `tiles` gives `tiles`
/// back, where no tile is the sentinel.
pub proof fn lemma_tiles_round_trip(
    entries: Seq<((i32, i32), TileData)>,
    tiles: Map<(i32, i32), TileData>,
)
    requires
        lists_tiles(entries, tiles),
        forall|p: (i32, i32)| #[trigger] tiles.contains_key(p) ==> !tiles[p].is_sentinel(),
    ensures
        decode_tiles(tile_fields(entries)) == Some(tiles),
    decreases entries.len(),
{
    let fields = tile_fields(entries);
    if entries.len() == 0 {
        assert(tiles =~= Map::empty()) by {
            assert forall|p: (i32, i32)| !tiles.contains_key(p) by {
                if tiles.contains_key(p) {
                    let i = choose|i: int| 0 <= i < entries.len() && (#[trigger] entries[i]).0 == p;
                }
            }
        }
    } else {
        let last = entries.last();
        let earlier = entries.drop_last();
        let rest = tiles.remove(last.0);
        assert(lists_tiles(earlier, rest)) by {
            assert forall|i: int| 0 <= i < earlier.len() implies rest.contains_key(
                (#[trigger] earlier[i]).0,
            ) && rest[earlier[i].0] == earlier[i].1 by {
                assert(earlier[i] == entries[i]);
                assert(entries[i].0 != entries[entries.len() - 1].0);
            }
            assert forall|p: (i32, i32)| #[trigger] rest.contains_key(p) implies exists|i: int|
                0 <= i < earlier.len() && (#[trigger] earlier[i]).0 == p by {
                assert(tiles.contains_key(p));
                let i = choose|i: int| 0 <= i < entries.len() && (#[trigger] entries[i]).0 == p;
                assert(earlier[i] == entries[i]);
            }
            assert forall|i: int, j: int| 0 <= i < j < earlier.len() implies (#[trigger] earlier[i]).0
                != (#[trigger] earlier[j]).0 by {
                assert(earlier[i] == entries[i]);
                assert(earlier[j] == entries[j]);
            }
        }
        lemma_tiles_round_trip(earlier, rest);
        assert(fields.drop_last() =~= tile_fields(earlier));
        assert(fields.last() == tile_field(last));
        lemma_tile_round_trip(last.1);
        lemma_tile_key_round_trip(last.0.0, last.0.1);
        assert(tiles.contains_key(entries[entries.len() - 1].0));
        assert(put_tile(rest, last.0, last.1) =~= tiles);
    }
}

/// Round trip of a layer: reading a document of a layer gives the layer
/// back, with the same name, visibility and tiles, whatever the order in
/// which the document lists the tiles and wherever on the grid they lie.
pub proof fn lemma_layer_round_trip(doc: JsonDoc, layer: LayerView)
    requires
        encodes_layer(doc, layer),
        layer.wf(),
    ensures
        decode_layer(doc) == Some(layer),
{
    lemma_layer_field_names();
    lemma_field_of(doc, 0);
    lemma_field_of(doc, 1);
    lemma_field_of(doc, 2);
    let fields = doc->Object_0[2].1->Object_0;
    let entries = choose|entries: Seq<((i32, i32), TileData)>| #[trigger]
        lists_tiles(entries, layer.tiles) && fields == tile_fields(entries);
    lemma_tiles_round_trip(entries, layer.tiles);
}

/// Round trip of a stack of layers.
pub proof fn lemma_layers_round_trip(docs: Seq<JsonDoc>, layers: Seq<LayerView>)
    requires
        encodes_layers(docs, layers),
        forall|i: int| 0 <= i < layers.len() ==> (#[trigger] layers[i]).wf(),
    ensures
        decode_layers(docs) == Some(layers),
{
    assert forall|i: int| 0 <= i < docs.len() implies #[trigger] decode_layer(docs[i]) == Some(
        layers[i],
    ) by {
        lemma_layer_round_trip(docs[i], layers[i]);
    }
    assert(decode_layers(docs).unwrap() =~= layers);
}

/// Round trip of a level: reading a document of a level gives the level
/// back.
pub proof fn lemma_level_round_trip(doc: JsonDoc, level: LevelView)
    requires
        encodes_level(doc, level),
        level.wf(),
    ensures
        decode_level(doc) == Some(level),
{
    lemma_level_field_names();
    lemma_field_of(doc, 0);
    lemma_field_of(doc, 1);
    lemma_field_of(doc, 2);
    lemma_field_of(doc, 3);
    lemma_field_of(doc, 4);
    lemma_layers_round_trip(doc->Object_0[4].1->Array_0, level.layers);
}

/// Round trip of a tileset record.
pub proof fn lemma_tileset_round_trip(tileset: TilesetView)
    ensures
        decode_tileset(tileset_doc(tileset)) == Some(tileset),
{
    lemma_tileset_field_names();
    let doc = tileset_doc(tileset);
    lemma_field_of(doc, 0);
    lemma_field_of(doc, 1);
    lemma_field_of(doc, 2);
    lemma_field_of(doc, 3);
    lemma_field_of(doc, 4);
    lemma_field_of(doc, 5);
    lemma_field_of(doc, 6);
}

/// Round trip of a project: reading a document of a project gives the
/// project back.
pub proof fn lemma_project_round_trip(doc: JsonDoc, project: ProjectView)
    requires
        encodes_project(doc, project),
        project.wf(),
    ensures
        decode_project(doc) == Some(project),
{
    lemma_project_field_names();
    lemma_field_of(doc, 0);
    lemma_field_of(doc, 1);
    lemma_field_of(doc, 2);
    lemma_level_round_trip(doc->Object_0[1].1, project.level);
    let docs = tileset_docs(project.tilesets);
    assert forall|i: int| 0 <= i < docs.len() implies #[trigger] decode_tileset(docs[i]) == Some(
        project.tilesets[i],
    ) by {
        lemma_tileset_round_trip(project.tilesets[i]);
    }
    assert(decode_tilesets(docs).unwrap() =~= project.tilesets);
}

} // verus!
