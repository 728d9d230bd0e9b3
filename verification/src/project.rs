//! Projects: a level together with the tilesets that its tiles refer to.

use crate::level::{Level, LevelView};
use vstd::prelude::*;

verus! {

/// What the project records of a tileset: where its image lies and how the
/// image divides into tiles.
#[derive(Debug, PartialEq, Eq)]
pub struct TilesetMetadata {
    pub id: usize,
    pub name: String,
    pub path: String,
    pub tile_width: u32,
    pub tile_height: u32,
    pub columns: u32,
    pub rows: u32,
}

/// The mathematical content of a tileset record.
pub struct TilesetView {
    pub id: usize,
    pub name: Seq<char>,
    pub path: Seq<char>,
    pub tile_width: u32,
    pub tile_height: u32,
    pub columns: u32,
    pub rows: u32,
}

impl View for TilesetMetadata {
    type V = TilesetView;

    open spec fn view(&self) -> TilesetView {
        TilesetView {
            id: self.id,
            name: self.name@,
            path: self.path@,
            tile_width: self.tile_width,
            tile_height: self.tile_height,
            columns: self.columns,
            rows: self.rows,
        }
    }
}

impl Clone for TilesetMetadata {
    fn clone(&self) -> (copy: TilesetMetadata)
        ensures
            copy@ == self@,
    {
        TilesetMetadata {
            id: self.id,
            name: self.name.clone(),
            path: self.path.clone(),
            tile_width: self.tile_width,
            tile_height: self.tile_height,
            columns: self.columns,
            rows: self.rows,
        }
    }
}

impl TilesetView {
    /// The number of tiles of the tileset.
    pub open spec fn tile_count(self) -> int {
        self.columns * self.rows
    }
}

impl TilesetMetadata {
    /// The record of a tileset whose image is `image_width` by
    /// `image_height` pixels: as many columns and rows as whole tiles fit.
    /// `None` for a tile width or height of 0.
    pub fn for_image(
        id: usize,
        name: String,
        path: String,
        image_width: u32,
        image_height: u32,
        tile_width: u32,
        tile_height: u32,
    ) -> (metadata: Option<TilesetMetadata>)
        ensures
            match metadata {
                Some(m) => tile_width > 0 && tile_height > 0 && m@ == (TilesetView {
                    id,
                    name: name@,
                    path: path@,
                    tile_width,
                    tile_height,
                    columns: (image_width / tile_width) as u32,
                    rows: (image_height / tile_height) as u32,
                }),
                None => tile_width == 0 || tile_height == 0,
            },
    {
        if tile_width == 0 || tile_height == 0 {
            None
        } else {
            Some(
                TilesetMetadata {
                    id,
                    name,
                    path,
                    tile_width,
                    tile_height,
                    columns: image_width / tile_width,
                    rows: image_height / tile_height,
                },
            )
        }
    }

    /// The number of tiles: columns times rows.
    pub fn tile_count(&self) -> (count: u64)
        ensures
            count == self@.tile_count(),
    {
        assert(self.columns * self.rows <= 0xffff_ffff * 0xffff_ffff) by (nonlinear_arith)
            requires
                self.columns <= 0xffff_ffff,
                self.rows <= 0xffff_ffff,
        ;
        self.columns as u64 * self.rows as u64
    }

    /// The column and row of tile `tile_index`, tiles counted row by row.
    /// `None` for a tileset without columns.
    pub fn tile_position(&self, tile_index: u32) -> (position: Option<(u32, u32)>)
        ensures
            match position {
                Some((column, row)) => self.columns > 0 && column == tile_index % self.columns
                    && row == tile_index / self.columns,
                None => self.columns == 0,
            },
    {
        if self.columns == 0 {
            None
        } else {
            Some((tile_index % self.columns, tile_index / self.columns))
        }
    }
}

/// A level and its tilesets, as one unit to save and load.
#[derive(Debug)]
pub struct Project {
    pub version: String,
    pub level: Level,
    pub tilesets: Vec<TilesetMetadata>,
}

/// The views of a sequence of tileset records.
pub open spec fn tileset_views(tilesets: Seq<TilesetMetadata>) -> Seq<TilesetView> {
    tilesets.map_values(|tileset: TilesetMetadata| tileset@)
}

/// The mathematical content of a project.
pub struct ProjectView {
    pub version: Seq<char>,
    pub level: LevelView,
    pub tilesets: Seq<TilesetView>,
}

impl View for Project {
    type V = ProjectView;

    open spec fn view(&self) -> ProjectView {
        ProjectView {
            version: self.version@,
            level: self.level@,
            tilesets: tileset_views(self.tilesets@),
        }
    }
}

impl ProjectView {
    pub open spec fn wf(self) -> bool {
        self.level.wf()
    }
}

impl Project {
    /// The project's invariant: that of its level.
    pub open spec fn wf(&self) -> bool {
        self@.wf()
    }

    /// The version that new projects carry.
    pub open spec fn current_version() -> Seq<char> {
        "1.0"@
    }

    /// A project of version "1.0" with the given level and no tileset.
    pub fn new(level: Level) -> (project: Project)
        ensures
            project@ == (ProjectView {
                version: Project::current_version(),
                level: level@,
                tilesets: Seq::empty(),
            }),
    {
        let project = Project { version: "1.0".to_owned(), level, tilesets: Vec::new() };
        proof {
            assert(project@.tilesets =~= Seq::empty());
        }
        project
    }

    /// Appends a tileset record.
    pub fn add_tileset(&mut self, metadata: TilesetMetadata)
        ensures
            final(self)@ == (ProjectView {
                tilesets: old(self)@.tilesets.push(metadata@),
                ..old(self)@
            }),
    {
        self.tilesets.push(metadata);
        proof {
            assert(self@.tilesets =~= old(self)@.tilesets.push(metadata@));
        }
    }
}

} // verus!
