use vstd::prelude::*;

verus! {

/// The kinds of terrain a map cell can hold.
#[derive(PartialEq, Eq, Structural, Copy, Clone, Debug, Hash)]
pub enum TileType {
    Wall,
    Floor,
    DownStairs,
    Road,
    Grass,
    ShallowWater,
    DeepWater,
    WoodFloor,
    Bridge,
    Gravel,
    UpStairs,
}

/// A tile can be walked on unless it is a wall or deep water.
pub open spec fn is_walkable(tt: TileType) -> bool {
    !(tt == TileType::Wall || tt == TileType::DeepWater)
}

/// Only walls block the line of sight.
pub open spec fn is_opaque(tt: TileType) -> bool {
    tt == TileType::Wall
}

pub fn tile_walkable(tt: TileType) -> (walkable: bool)
    ensures
        walkable == is_walkable(tt),
{
    match tt {
        TileType::DeepWater | TileType::Wall => false,
        TileType::Floor
        | TileType::DownStairs
        | TileType::Grass
        | TileType::Road
        | TileType::ShallowWater
        | TileType::WoodFloor
        | TileType::Gravel
        | TileType::UpStairs
        | TileType::Bridge => true,
    }
}

pub fn tile_opaque(tt: TileType) -> (opaque: bool)
    ensures
        opaque == is_opaque(tt),
{
    matches!(tt, TileType::Wall)
}

} // verus!
