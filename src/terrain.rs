use vstd::prelude::*;

verus! {

/// An RGBA color, one byte per channel.
pub type Color = (u8, u8, u8, u8);

/// The color of a cell that has not been observed yet.
pub open spec fn transparent() -> Color {
    (0u8, 0u8, 0u8, 0u8)
}

/// The terrain category of an observed tile.
#[derive(Clone, Copy, Debug, PartialEq, Eq, Structural)]
pub enum Terrain {
    Grass,
    Street,
    ShallowWater,
    DeepWater,
    Sand,
    Hill,
    Mountain,
    Wall,
    /// A teleport tile; the flag tells whether it has been activated.
    Teleport(bool),
    Lava,
    Snow,
}

/// What a tile holds, by kind.
#[derive(Clone, Copy, Debug, PartialEq, Eq, Structural)]
pub enum ContentKind {
    Rock,
    Tree,
    Garbage,
    Fire,
    Coin,
    Bin,
    Crate,
    Bank,
    Water,
    Market,
    Fish,
    Building,
    Bush,
    JollyBlock,
    Scarecrow,
    NoContent,
}

/// One observed cell of the discovered map.
#[derive(Clone, Copy, Debug, PartialEq, Eq, Structural)]
pub struct Tile {
    pub tile_type: Terrain,
    pub content: ContentKind,
}

/// The fixed opaque color of each terrain category.
pub open spec fn terrain_color(t: Terrain) -> Color {
    match t {
        Terrain::Grass => (0u8, 255u8, 0u8, 255u8),
        Terrain::Street => (0u8, 0u8, 0u8, 255u8),
        Terrain::ShallowWater => (0u8, 0u8, 255u8, 255u8),
        Terrain::DeepWater => (0u8, 0u8, 128u8, 255u8),
        Terrain::Sand => (255u8, 255u8, 0u8, 255u8),
        Terrain::Hill => (255u8, 128u8, 0u8, 255u8),
        Terrain::Mountain => (128u8, 128u8, 128u8, 255u8),
        Terrain::Wall => (255u8, 128u8, 0u8, 255u8),
        Terrain::Teleport(_) => (255u8, 0u8, 255u8, 255u8),
        Terrain::Lava => (255u8, 0u8, 0u8, 255u8),
        Terrain::Snow => (255u8, 255u8, 255u8, 255u8),
    }
}

/// The color of each content kind; an empty cell is transparent.
pub open spec fn content_color(c: ContentKind) -> Color {
    match c {
        ContentKind::Rock => (112u8, 128u8, 144u8, 255u8),
        ContentKind::Tree => (0u8, 100u8, 0u8, 255u8),
        ContentKind::Garbage => (0u8, 0u8, 0u8, 255u8),
        ContentKind::Fire => (255u8, 0u8, 0u8, 255u8),
        ContentKind::Coin => (255u8, 215u8, 0u8, 255u8),
        ContentKind::Bin => (70u8, 130u8, 180u8, 255u8),
        ContentKind::Crate => (255u8, 128u8, 0u8, 255u8),
        ContentKind::Bank => (128u8, 128u8, 128u8, 255u8),
        ContentKind::Water => (173u8, 216u8, 230u8, 255u8),
        ContentKind::Market => (255u8, 0u8, 255u8, 255u8),
        ContentKind::Fish => (64u8, 224u8, 208u8, 255u8),
        ContentKind::Building => (204u8, 85u8, 0u8, 255u8),
        ContentKind::Bush => (50u8, 205u8, 50u8, 255u8),
        ContentKind::JollyBlock => (255u8, 192u8, 203u8, 255u8),
        ContentKind::Scarecrow => (160u8, 82u8, 45u8, 255u8),
        ContentKind::NoContent => (0u8, 0u8, 0u8, 0u8),
    }
}

/// The color of one cell of a snapshot: its terrain color, or transparent when unobserved.
pub open spec fn cell_color(cell: Option<Tile>) -> Color {
    match cell {
        Some(tile) => terrain_color(tile.tile_type),
        None => transparent(),
    }
}

/// Looks up the color of a terrain category.
pub fn match_color_to_type(tile_type: &Terrain) -> (c: Color)
    ensures
        c == terrain_color(*tile_type),
{
    match tile_type {
        Terrain::Grass => (0, 255, 0, 255),
        Terrain::Street => (0, 0, 0, 255),
        Terrain::ShallowWater => (0, 0, 255, 255),
        Terrain::DeepWater => (0, 0, 128, 255),
        Terrain::Sand => (255, 255, 0, 255),
        Terrain::Hill => (255, 128, 0, 255),
        Terrain::Mountain => (128, 128, 128, 255),
        Terrain::Wall => (255, 128, 0, 255),
        Terrain::Teleport(_) => (255, 0, 255, 255),
        Terrain::Lava => (255, 0, 0, 255),
        Terrain::Snow => (255, 255, 255, 255),
    }
}

/// Looks up the color of a content kind.
pub fn match_color_to_content(content: &ContentKind) -> (c: Color)
    ensures
        c == content_color(*content),
{
    match content {
        ContentKind::Rock => (112, 128, 144, 255),
        ContentKind::Tree => (0, 100, 0, 255),
        ContentKind::Garbage => (0, 0, 0, 255),
        ContentKind::Fire => (255, 0, 0, 255),
        ContentKind::Coin => (255, 215, 0, 255),
        ContentKind::Bin => (70, 130, 180, 255),
        ContentKind::Crate => (255, 128, 0, 255),
        ContentKind::Bank => (128, 128, 128, 255),
        ContentKind::Water => (173, 216, 230, 255),
        ContentKind::Market => (255, 0, 255, 255),
        ContentKind::Fish => (64, 224, 208, 255),
        ContentKind::Building => (204, 85, 0, 255),
        ContentKind::Bush => (50, 205, 50, 255),
        ContentKind::JollyBlock => (255, 192, 203, 255),
        ContentKind::Scarecrow => (160, 82, 45, 255),
        ContentKind::NoContent => (0, 0, 0, 0),
    }
}

/// The color of one snapshot cell.
pub fn cell_to_color(cell: &Option<Tile>) -> (c: Color)
    ensures
        c == cell_color(*cell),
{
    match cell {
        Some(tile) => match_color_to_type(&tile.tile_type),
        None => (0, 0, 0, 0),
    }
}

} // verus!
