//! Reading and writing project files.
//!
//! A value is written in two steps, value to document and document to text,
//! and read in the two opposite steps. The steps between value and document
//! follow the schema and are proved against it; the steps between document
//! and text are those of `serde_json`.

use crate::json::{
    fields_view, items_view, json_parse, json_render, lemma_array_view, lemma_object_view,
    parse_json, render_json, Json, JsonDoc,
};
use crate::layer::{lists_tiles, Layer};
use crate::level::{layer_views, Level};
use crate::project::{tileset_views, Project, TilesetMetadata};
use crate::schema::{
    array_field, bool_field, decode_layer, decode_layers, decode_level, decode_project,
    decode_tile, decode_tiles, decode_tileset, decode_tilesets, decode_u8, encodes_layer,
    encodes_layers, encodes_level, encodes_project, encodes_tiles, object_field, put_tile,
    text_field, tile_doc, tile_field, tile_fields, tileset_doc, tileset_docs, u32_field,
    usize_field,
};
use crate::tile::TileData;
use crate::tile_key::{format_tile_key, parse_tile_key};
use vstd::prelude::*;

verus! {

/// Why a text could not be loaded.
#[derive(Debug, Clone, Copy, PartialEq, Eq, Structural)]
pub enum LoadError {
    /// The text is not a JSON document.
    Syntax,
    /// The document does not follow the schema.
    Schema,
}

impl LoadError {
    /// The cause in words.
    pub open spec fn spec_message(self) -> Seq<char> {
        match self {
            LoadError::Syntax => "the file is not a JSON document"@,
            LoadError::Schema => "the document does not follow the project schema"@,
        }
    }

    /// The cause in words, to show to the user.
    pub fn message(&self) -> (text: String)
        ensures
            text@ == self.spec_message(),
    {
        match self {
            LoadError::Syntax => "the file is not a JSON document".to_owned(),
            LoadError::Schema => "the document does not follow the project schema".to_owned(),
        }
    }
}

fn read_text_field(doc: &Json, name: &str) -> (text: Option<String>)
    ensures
        match text {
            Some(t) => text_field(doc@, name@) == Some(t@),
            None => text_field(doc@, name@).is_none(),
        },
{
    match doc.field(name) {
        Some(value) => match value.as_text() {
            Some(text) => Some(text.clone()),
            None => None,
        },
        None => None,
    }
}

fn read_bool_field(doc: &Json, name: &str) -> (value: Option<bool>)
    ensures
        value == bool_field(doc@, name@),
{
    match doc.field(name) {
        Some(value) => value.as_bool(),
        None => None,
    }
}

fn read_u32_field(doc: &Json, name: &str) -> (value: Option<u32>)
    ensures
        value == u32_field(doc@, name@),
{
    match doc.field(name) {
        Some(value) => match value.as_uint(u32::MAX as u64) {
            Some(n) => Some(n as u32),
            None => None,
        },
        None => None,
    }
}

fn read_usize_field(doc: &Json, name: &str) -> (value: Option<usize>)
    ensures
        value == usize_field(doc@, name@),
{
    match doc.field(name) {
        Some(value) => match value.as_uint(usize::MAX as u64) {
            Some(n) => Some(n as usize),
            None => None,
        },
        None => None,
    }
}

fn read_u8(doc: &Json) -> (value: Option<u8>)
    ensures
        value == decode_u8(doc@),
{
    match doc.as_uint(u8::MAX as u64) {
        Some(n) => Some(n as u8),
        None => None,
    }
}

/// A `tiles` object whose first fields cannot be read cannot be read.
proof fn lemma_decode_tiles_prefix(fields: Seq<(Seq<char>, JsonDoc)>, k: int)
    requires
        0 <= k <= fields.len(),
        decode_tiles(fields.take(k)).is_none(),
    ensures
        decode_tiles(fields).is_none(),
    decreases fields.len() - k,
{
    if k < fields.len() {
        assert(fields.take(k + 1).drop_last() =~= fields.take(k));
        lemma_decode_tiles_prefix(fields, k + 1);
    } else {
        assert(fields.take(k) =~= fields);
    }
}

impl TileData {
    /// Reads a tile from its document.
    pub fn from_json(doc: &Json) -> (tile: Option<TileData>)
        ensures
            tile == decode_tile(doc@),
    {
        match doc {
            Json::Array(items) => {
                proof {
                    lemma_array_view(*items);
                }
                if items.len() != 3 {
                    return None;
                }
                match (read_u8(&items[0]), read_u8(&items[1]), read_u8(&items[2])) {
                    (Some(r), Some(g), Some(b)) => Some(TileData::Color([r, g, b])),
                    _ => None,
                }
            },
            Json::Object(fields) => {
                proof {
                    lemma_object_view(*fields);
                }
                match (read_usize_field(doc, "tileset_id"), read_u32_field(doc, "tile_index")) {
                    (Some(tileset_id), Some(tile_index)) => Some(
                        TileData::Texture { tileset_id, tile_index },
                    ),
                    _ => None,
                }
            },
            _ => None,
        }
    }

    /// The document of the tile: three bytes for a flat colour, an object for
    /// a texture reference.
    pub fn to_json(&self) -> (doc: Json)
        ensures
            doc@ == tile_doc(*self),
    {
        match self {
            TileData::Color(rgb) => {
                let items = vec![
                    Json::UInt(rgb[0] as u64),
                    Json::UInt(rgb[1] as u64),
                    Json::UInt(rgb[2] as u64),
                ];
                proof {
                    lemma_array_view(items);
                    assert(items_view(items@) =~= tile_doc(*self)->Array_0);
                }
                Json::Array(items)
            },
            TileData::Texture { tileset_id, tile_index } => {
                let fields = vec![
                    ("tileset_id".to_owned(), Json::UInt(*tileset_id as u64)),
                    ("tile_index".to_owned(), Json::UInt(*tile_index as u64)),
                ];
                proof {
                    lemma_object_view(fields);
                    assert(fields_view(fields@) =~= tile_doc(*self)->Object_0);
                }
                Json::Object(fields)
            },
        }
    }
}

impl Layer {
    /// Reads a layer from its document. Tiles under a key that is no tile
    /// key are left out; the layer is read all the same.
    pub fn from_json(doc: &Json) -> (layer: Option<Layer>)
        ensures
            match layer {
                Some(l) => decode_layer(doc@) == Some(l@) && l.wf(),
                None => decode_layer(doc@).is_none(),
            },
    {
        let name = match read_text_field(doc, "name") {
            Some(name) => name,
            None => {
                return None;
            },
        };
        let visible = match read_bool_field(doc, "visible") {
            Some(visible) => visible,
            None => {
                return None;
            },
        };
        let fields = match doc.field("tiles") {
            Some(value) => match value.as_object() {
                Some(fields) => fields,
                None => {
                    return None;
                },
            },
            None => {
                return None;
            },
        };
        let ghost all = fields_view(fields@);
        assert(object_field(doc@, "tiles"@) == Some(all));
        let mut layer = Layer::new(name);
        layer.set_visible(visible);
        let mut i: usize = 0;
        while i < fields.len()
            invariant
                i <= fields.len(),
                all == fields_view(fields@),
                object_field(doc@, "tiles"@) == Some(all),
                layer.wf(),
                layer@.name == name@,
                layer@.visible == visible,
                decode_tiles(all.take(i as int)) == Some(layer@.tiles),
            decreases fields.len() - i,
        {
            proof {
                assert(all.take(i + 1).drop_last() =~= all.take(i as int));
                assert(all.take(i + 1).last() == all[i as int]);
            }
            let tile = match TileData::from_json(&fields[i].1) {
                Some(tile) => tile,
                None => {
                    proof {
                        lemma_decode_tiles_prefix(all, i + 1);
                    }
                    return None;
                },
            };
            match parse_tile_key(fields[i].0.as_str()) {
                Some(cell) => {
                    layer.set_tile(cell.0, cell.1, tile);
                    proof {
                        assert(layer@.tiles =~= put_tile(
                            decode_tiles(all.take(i as int)).unwrap(),
                            cell,
                            tile,
                        ));
                    }
                },
                None => {},
            }
            i += 1;
        }
        proof {
            assert(all.take(i as int) =~= all);
        }
        Some(layer)
    }

    /// The document of the layer.
    pub fn to_json(&self) -> (doc: Json)
        ensures
            encodes_layer(doc@, self@),
    {
        let entries = self.entries();
        let mut fields: Vec<(String, Json)> = Vec::new();
        let mut i: usize = 0;
        while i < entries.len()
            invariant
                i <= entries.len(),
                fields.len() == i,
                forall|j: int|
                    0 <= j < i ==> (#[trigger] fields_view(fields@)[j]) == tile_field(entries@[j]),
            decreases entries.len() - i,
        {
            let (cell, tile) = entries[i];
            let ghost before = fields_view(fields@);
            fields.push((format_tile_key(cell.0, cell.1), tile.to_json()));
            proof {
                assert forall|j: int| 0 <= j < i + 1 implies (#[trigger] fields_view(fields@)[j])
                    == tile_field(entries@[j]) by {
                    if j < i {
                        assert(fields_view(fields@)[j] == before[j]);
                    }
                }
            }
            i += 1;
        }
        proof {
            assert(fields_view(fields@) =~= tile_fields(entries@));
            lemma_object_view(fields);
        }
        let tiles = Json::Object(fields);
        let parts = vec![
            ("name".to_owned(), Json::Text(self.name().clone())),
            ("visible".to_owned(), Json::Bool(self.is_visible())),
            ("tiles".to_owned(), tiles),
        ];
        proof {
            lemma_object_view(parts);
            assert(lists_tiles(entries@, self@.tiles));
            assert(encodes_tiles(fields_view(fields@), self@.tiles));
        }
        Json::Object(parts)
    }
}

impl Level {
    /// Reads a level from its document.
    pub fn from_json(doc: &Json) -> (level: Option<Level>)
        ensures
            match level {
                Some(l) => decode_level(doc@) == Some(l@) && l.wf(),
                None => decode_level(doc@).is_none(),
            },
    {
        let name = match read_text_field(doc, "name") {
            Some(name) => name,
            None => {
                return None;
            },
        };
        let width = match read_u32_field(doc, "width") {
            Some(width) => width,
            None => {
                return None;
            },
        };
        let height = match read_u32_field(doc, "height") {
            Some(height) => height,
            None => {
                return None;
            },
        };
        let tile_size = match read_u32_field(doc, "tile_size") {
            Some(tile_size) => tile_size,
            None => {
                return None;
            },
        };
        let items = match doc.field("layers") {
            Some(value) => match value.as_array() {
                Some(items) => items,
                None => {
                    return None;
                },
            },
            None => {
                return None;
            },
        };
        let ghost all = items_view(items@);
        assert(array_field(doc@, "layers"@) == Some(all));
        let mut layers: Vec<Layer> = Vec::new();
        let mut i: usize = 0;
        while i < items.len()
            invariant
                i <= items.len(),
                all == items_view(items@),
                array_field(doc@, "layers"@) == Some(all),
                layers.len() == i,
                forall|j: int|
                    0 <= j < i ==> (#[trigger] decode_layer(all[j])) == Some(layers@[j]@)
                        && layers@[j].wf(),
            decreases items.len() - i,
        {
            match Layer::from_json(&items[i]) {
                Some(layer) => {
                    layers.push(layer);
                },
                None => {
                    proof {
                        assert(decode_layer(all[i as int]).is_none());
                    }
                    return None;
                },
            }
            i += 1;
        }
        proof {
            assert(decode_layers(all).unwrap() =~= layer_views(layers@));
        }
        if layers.len() == 0 {
            return None;
        }
        Some(Level::from_parts(name, width, height, tile_size, layers))
    }

    /// The document of the level.
    pub fn to_json(&self) -> (doc: Json)
        ensures
            encodes_level(doc@, self@),
    {
        let layers = self.layers();
        let mut items: Vec<Json> = Vec::new();
        let mut i: usize = 0;
        while i < layers.len()
            invariant
                i <= layers.len(),
                items.len() == i,
                layer_views(layers@) == self@.layers,
                forall|j: int|
                    0 <= j < i ==> encodes_layer(#[trigger] items_view(items@)[j], layers@[j]@),
            decreases layers.len() - i,
        {
            let ghost before = items_view(items@);
            items.push(layers[i].to_json());
            proof {
                assert forall|j: int| 0 <= j < i + 1 implies encodes_layer(
                    #[trigger] items_view(items@)[j],
                    layers@[j]@,
                ) by {
                    if j < i {
                        assert(items_view(items@)[j] == before[j]);
                    }
                }
            }
            i += 1;
        }
        proof {
            lemma_array_view(items);
            assert(encodes_layers(items_view(items@), self@.layers)) by {
                assert forall|j: int| 0 <= j < items.len() implies encodes_layer(
                    #[trigger] items_view(items@)[j],
                    self@.layers[j],
                ) by {
                    assert(self@.layers[j] == layers@[j]@);
                }
            }
        }
        let parts = vec![
            ("name".to_owned(), Json::Text(self.name().clone())),
            ("width".to_owned(), Json::UInt(self.width() as u64)),
            ("height".to_owned(), Json::UInt(self.height() as u64)),
            ("tile_size".to_owned(), Json::UInt(self.tile_size() as u64)),
            ("layers".to_owned(), Json::Array(items)),
        ];
        proof {
            lemma_object_view(parts);
        }
        Json::Object(parts)
    }

    /// The level as the text of a level-only file: a document of the level,
    /// written by `serde_json`.
    pub fn to_json_text(&self) -> (text: String)
        ensures
            exists|doc: JsonDoc| #[trigger] encodes_level(doc, self@) && text@ == json_render(doc),
    {
        let doc = self.to_json();
        render_json(&doc)
    }

    /// Reads the text of a level-only file.
    pub fn from_json_text(text: &str) -> (result: Result<Level, LoadError>)
        ensures
            match result {
                Ok(level) => json_parse(text@) matches Some(doc) && decode_level(doc) == Some(
                    level@,
                ) && level.wf(),
                Err(LoadError::Syntax) => json_parse(text@).is_none(),
                Err(LoadError::Schema) => json_parse(text@) matches Some(doc) && decode_level(
                    doc,
                ).is_none(),
            },
    {
        match parse_json(text) {
            Some(doc) => match Level::from_json(&doc) {
                Some(level) => Ok(level),
                None => Err(LoadError::Schema),
            },
            None => Err(LoadError::Syntax),
        }
    }
}

impl TilesetMetadata {
    /// Reads a tileset record from its document.
    pub fn from_json(doc: &Json) -> (tileset: Option<TilesetMetadata>)
        ensures
            match tileset {
                Some(t) => decode_tileset(doc@) == Some(t@),
                None => decode_tileset(doc@).is_none(),
            },
    {
        let id = match read_usize_field(doc, "id") {
            Some(id) => id,
            None => {
                return None;
            },
        };
        let name = match read_text_field(doc, "name") {
            Some(name) => name,
            None => {
                return None;
            },
        };
        let path = match read_text_field(doc, "path") {
            Some(path) => path,
            None => {
                return None;
            },
        };
        let tile_width = match read_u32_field(doc, "tile_width") {
            Some(tile_width) => tile_width,
            None => {
                return None;
            },
        };
        let tile_height = match read_u32_field(doc, "tile_height") {
            Some(tile_height) => tile_height,
            None => {
                return None;
            },
        };
        let columns = match read_u32_field(doc, "columns") {
            Some(columns) => columns,
            None => {
                return None;
            },
        };
        let rows = match read_u32_field(doc, "rows") {
            Some(rows) => rows,
            None => {
                return None;
            },
        };
        Some(TilesetMetadata { id, name, path, tile_width, tile_height, columns, rows })
    }

    /// The document of the tileset record.
    pub fn to_json(&self) -> (doc: Json)
        ensures
            doc@ == tileset_doc(self@),
    {
        let parts = vec![
            ("id".to_owned(), Json::UInt(self.id as u64)),
            ("name".to_owned(), Json::Text(self.name.clone())),
            ("path".to_owned(), Json::Text(self.path.clone())),
            ("tile_width".to_owned(), Json::UInt(self.tile_width as u64)),
            ("tile_height".to_owned(), Json::UInt(self.tile_height as u64)),
            ("columns".to_owned(), Json::UInt(self.columns as u64)),
            ("rows".to_owned(), Json::UInt(self.rows as u64)),
        ];
        proof {
            lemma_object_view(parts);
            assert(fields_view(parts@) =~= tileset_doc(self@)->Object_0);
        }
        Json::Object(parts)
    }
}

impl Project {
    /// Reads a project from its document.
    pub fn from_json(doc: &Json) -> (project: Option<Project>)
        ensures
            match project {
                Some(p) => decode_project(doc@) == Some(p@) && p.wf(),
                None => decode_project(doc@).is_none(),
            },
    {
        let version = match read_text_field(doc, "version") {
            Some(version) => version,
            None => {
                return None;
            },
        };
        let level_doc = match doc.field("level") {
            Some(value) => value,
            None => {
                return None;
            },
        };
        let items = match doc.field("tilesets") {
            Some(value) => match value.as_array() {
                Some(items) => items,
                None => {
                    return None;
                },
            },
            None => {
                return None;
            },
        };
        let ghost all = items_view(items@);
        assert(array_field(doc@, "tilesets"@) == Some(all));
        let level = match Level::from_json(level_doc) {
            Some(level) => level,
            None => {
                return None;
            },
        };
        let mut tilesets: Vec<TilesetMetadata> = Vec::new();
        let mut i: usize = 0;
        while i < items.len()
            invariant
                i <= items.len(),
                all == items_view(items@),
                array_field(doc@, "tilesets"@) == Some(all),
                tilesets.len() == i,
                forall|j: int|
                    0 <= j < i ==> (#[trigger] decode_tileset(all[j])) == Some(tilesets@[j]@),
            decreases items.len() - i,
        {
            match TilesetMetadata::from_json(&items[i]) {
                Some(tileset) => {
                    tilesets.push(tileset);
                },
                None => {
                    proof {
                        assert(decode_tileset(all[i as int]).is_none());
                    }
                    return None;
                },
            }
            i += 1;
        }
        proof {
            assert(decode_tilesets(all).unwrap() =~= tileset_views(tilesets@));
        }
        Some(Project { version, level, tilesets })
    }

    /// The document of the project.
    pub fn to_json(&self) -> (doc: Json)
        ensures
            encodes_project(doc@, self@),
    {
        let mut items: Vec<Json> = Vec::new();
        let mut i: usize = 0;
        while i < self.tilesets.len()
            invariant
                i <= self.tilesets.len(),
                items.len() == i,
                forall|j: int|
                    0 <= j < i ==> (#[trigger] items_view(items@)[j]) == tileset_doc(
                        self.tilesets@[j]@,
                    ),
            decreases self.tilesets.len() - i,
        {
            let ghost before = items_view(items@);
            items.push(self.tilesets[i].to_json());
            proof {
                assert forall|j: int| 0 <= j < i + 1 implies (#[trigger] items_view(items@)[j])
                    == tileset_doc(self.tilesets@[j]@) by {
                    if j < i {
                        assert(items_view(items@)[j] == before[j]);
                    }
                }
            }
            i += 1;
        }
        proof {
            lemma_array_view(items);
            assert(items_view(items@) =~= tileset_docs(self@.tilesets));
        }
        let parts = vec![
            ("version".to_owned(), Json::Text(self.version.clone())),
            ("level".to_owned(), self.level.to_json()),
            ("tilesets".to_owned(), Json::Array(items)),
        ];
        proof {
            lemma_object_view(parts);
        }
        Json::Object(parts)
    }

    /// The project as the text of a project file: a document of the
    /// project, written by `serde_json`.
    pub fn to_json_text(&self) -> (text: String)
        ensures
            exists|doc: JsonDoc| #[trigger]
                encodes_project(doc, self@) && text@ == json_render(doc),
    {
        let doc = self.to_json();
        render_json(&doc)
    }

    /// Reads the text of a project file.
    pub fn from_json_text(text: &str) -> (result: Result<Project, LoadError>)
        ensures
            match result {
                Ok(project) => json_parse(text@) matches Some(doc) && decode_project(doc)
                    == Some(project@) && project.wf(),
                Err(LoadError::Syntax) => json_parse(text@).is_none(),
                Err(LoadError::Schema) => json_parse(text@) matches Some(doc) && decode_project(
                    doc,
                ).is_none(),
            },
    {
        match parse_json(text) {
            Some(doc) => match Project::from_json(&doc) {
                Some(project) => Ok(project),
                None => Err(LoadError::Schema),
            },
            None => Err(LoadError::Syntax),
        }
    }

    /// The text of a level-only file for the project's level: the older
    /// format, without version and tilesets.
    pub fn save_level_only(&self) -> (text: String)
        ensures
            exists|doc: JsonDoc| #[trigger]
                encodes_level(doc, self@.level) && text@ == json_render(doc),
    {
        let text = self.level.to_json_text();
        proof {
            let doc = choose|doc: JsonDoc| #[trigger]
                encodes_level(doc, self.level@) && text@ == json_render(doc);
            assert(encodes_level(doc, self@.level));
        }
        text
    }
}

} // verus!
