//! Tile values: the unit that a layer stores in one grid cell.

use vstd::prelude::*;

verus! {

/// What one grid cell holds: a flat colour or a reference into a tileset.
#[derive(Debug, Clone, Copy, PartialEq, Eq, Hash)]
pub enum TileData {
    Color([u8; 3]),
    Texture { tileset_id: usize, tile_index: u32 },
}

impl TileData {
    /// The reserved dark-grey colour that stands for "no tile".
    pub open spec fn sentinel() -> TileData {
        TileData::Color([40u8, 40u8, 40u8])
    }

    /// Whether this value is the reserved "no tile" colour.
    pub open spec fn is_sentinel(self) -> bool {
        self matches TileData::Color(c) && c[0] == 40 && c[1] == 40 && c[2] == 40
    }

    /// The sentinel is the one value that `is_sentinel` accepts.
    pub proof fn lemma_sentinel_is_unique(self)
        ensures
            self.is_sentinel() <==> self == TileData::sentinel(),
    {
        if self.is_sentinel() {
            let c = self->Color_0;
            assert(c =~= [40u8, 40u8, 40u8]);
        }
    }

    pub fn empty() -> (t: TileData)
        ensures
            t == TileData::sentinel(),
            t.is_sentinel(),
    {
        TileData::Color([40, 40, 40])
    }

    pub fn is_empty(&self) -> (b: bool)
        ensures
            b == self.is_sentinel(),
    {
        match self {
            TileData::Color(c) => c[0] == 40 && c[1] == 40 && c[2] == 40,
            TileData::Texture { .. } => false,
        }
    }
}

/// A reference to one tile of a tileset.
#[derive(Debug, Clone, Copy, PartialEq, Eq, Hash)]
pub struct TileRef {
    pub tileset_id: usize,
    pub tile_index: u32,
}

impl TileRef {
    /// The tile value that paints this tile.
    pub fn to_tile(&self) -> (tile: TileData)
        ensures
            tile == (TileData::Texture { tileset_id: self.tileset_id, tile_index: self.tile_index }),
            !tile.is_sentinel(),
    {
        TileData::Texture { tileset_id: self.tileset_id, tile_index: self.tile_index }
    }
}

/// The predefined kinds of tile, each with a fixed colour and a display name.
#[derive(Debug, Clone, Copy, PartialEq, Eq, Hash, Structural)]
pub enum TileType {
    Empty,
    Ground,
    Wall,
    Platform,
    Spike,
    Coin,
    Spawn,
    Exit,
}

impl TileType {
    /// The colour of each kind. `Empty` has the sentinel colour.
    pub open spec fn spec_color(self) -> [u8; 3] {
        match self {
            TileType::Empty => [40u8, 40u8, 40u8],
            TileType::Ground => [139u8, 69u8, 19u8],
            TileType::Wall => [128u8, 128u8, 128u8],
            TileType::Platform => [205u8, 133u8, 63u8],
            TileType::Spike => [255u8, 0u8, 0u8],
            TileType::Coin => [255u8, 215u8, 0u8],
            TileType::Spawn => [0u8, 255u8, 0u8],
            TileType::Exit => [0u8, 191u8, 255u8],
        }
    }

    /// The display name of each kind.
    pub open spec fn spec_name(self) -> Seq<char> {
        match self {
            TileType::Empty => "Vide"@,
            TileType::Ground => "Sol"@,
            TileType::Wall => "Mur"@,
            TileType::Platform => "Plateforme"@,
            TileType::Spike => "Piège"@,
            TileType::Coin => "Pièce"@,
            TileType::Spawn => "Départ"@,
            TileType::Exit => "Sortie"@,
        }
    }

    /// Every kind, `Empty` first.
    pub open spec fn spec_all() -> Seq<TileType> {
        seq![
            TileType::Empty,
            TileType::Ground,
            TileType::Wall,
            TileType::Platform,
            TileType::Spike,
            TileType::Coin,
            TileType::Spawn,
            TileType::Exit,
        ]
    }

    pub fn color(&self) -> (rgb: [u8; 3])
        ensures
            rgb == self.spec_color(),
    {
        match self {
            TileType::Empty => [40, 40, 40],
            TileType::Ground => [139, 69, 19],
            TileType::Wall => [128, 128, 128],
            TileType::Platform => [205, 133, 63],
            TileType::Spike => [255, 0, 0],
            TileType::Coin => [255, 215, 0],
            TileType::Spawn => [0, 255, 0],
            TileType::Exit => [0, 191, 255],
        }
    }

    pub fn name(&self) -> (name: &'static str)
        ensures
            name@ == self.spec_name(),
    {
        match self {
            TileType::Empty => "Vide",
            TileType::Ground => "Sol",
            TileType::Wall => "Mur",
            TileType::Platform => "Plateforme",
            TileType::Spike => "Piège",
            TileType::Coin => "Pièce",
            TileType::Spawn => "Départ",
            TileType::Exit => "Sortie",
        }
    }

    pub fn all() -> (kinds: Vec<TileType>)
        ensures
            kinds@ == TileType::spec_all(),
    {
        let kinds = vec![
            TileType::Empty,
            TileType::Ground,
            TileType::Wall,
            TileType::Platform,
            TileType::Spike,
            TileType::Coin,
            TileType::Spawn,
            TileType::Exit,
        ];
        proof {
            assert(kinds@ =~= TileType::spec_all());
        }
        kinds
    }

    /// The tile value that paints this kind.
    pub fn to_tile(&self) -> (tile: TileData)
        ensures
            tile == TileData::Color(self.spec_color()),
    {
        TileData::Color(self.color())
    }
}

} // verus!
