//! Small world-level data types: biomes, trees, flora requests, item stacks.
use vstd::prelude::*;

use crate::blocks::{ItemId, ItemType};

verus! {

/// Scale factor for biome noise generation, in thousandths (0.01).
pub const BIOME_SCALE_THOUSANDTHS: u32 = 10;

/// Seed offset for temperature noise generation.
pub const TEMP_SEED_OFFSET: u32 = 1;

/// Seed offset for humidity noise generation.
pub const HUMIDITY_SEED_OFFSET: u32 = 2;

/// Biomes of the generated world.
#[derive(Debug, Clone, Copy, PartialEq, Eq, Structural, PartialOrd, Ord, Hash)]
pub enum Biome {
    PolarOcean,
    Canyon,
    Ocean,
    Plain,
    Mountain,
    Desert,
    Tundra,
    Savannah,
    Jungle,
}

/// Kinds of trees.
#[derive(Debug, Clone, Copy, PartialEq, Eq, Structural)]
pub enum Tree {
    Oak,
    Spruce,
    Sequoia,
    Palm,
    Birch,
    Chestnut,
    Cypress,
    Ironwood,
    Baobab,
    Cactus,
    Acacia,
    Bamboo,
}

/// The biome of a column, by its number in the world's table of biomes.
pub type BiomeId = u8;

/// A type of flora that can be requested for generation in the chunk above.
#[derive(Debug, Clone, Copy, PartialEq, Eq, Structural)]
pub enum FloraType {
    /// A flower (dandelion or poppy).
    Flower,
    /// Tall grass.
    TallGrass,
    /// A standard tree.
    Tree,
    /// A big tree (forest biome).
    BigTree,
    /// A cactus.
    Cactus,
}

/// Seed of the world generator.
#[derive(Debug, Clone, Copy, PartialEq, Eq, Structural)]
pub struct WorldSeed(pub u32);

impl Default for WorldSeed {
    fn default() -> (r: Self)
        ensures
            r.0 == 0,
    {
        WorldSeed(0)
    }
}

/// A number of items of one kind.
#[derive(Debug, Clone, Copy, PartialEq, Eq, Structural)]
pub struct ItemStack {
    pub item_id: ItemId,
    pub item_type: ItemType,
    pub nb: u32,
}

impl Default for ItemStack {
    fn default() -> (r: Self)
        ensures
            r.item_id == ItemId::Dirt,
            r.item_type == ItemType::Block(crate::blocks::BlockId::Dirt),
            r.nb == 0,
    {
        ItemStack { item_id: ItemId::Dirt, item_type: ItemType::Block(crate::blocks::BlockId::Dirt), nb: 0 }
    }
}

/// Global state of the game client.
#[derive(Debug, Clone, Copy, PartialEq, Eq, Structural, Hash)]
pub enum GameState {
    Splash,
    Menu,
    PreGameLoading,
    GameLoading,
    Game,
}

impl Default for GameState {
    fn default() -> (r: Self)
        ensures
            r == GameState::Menu,
    {
        GameState::Menu
    }
}

/// Preset wave configurations for different kinds of water.
#[derive(Debug, Clone, Copy, PartialEq, Eq, Structural)]
pub enum WavePreset {
    /// Calm water with minimal waves.
    Calm,
    /// Lake with gentle waves.
    Lake,
    /// Standard ocean waves.
    Ocean,
    /// Stormy ocean with large waves.
    Storm,
    /// Completely still water.
    Still,
}

impl Default for WavePreset {
    fn default() -> (r: Self)
        ensures
            r == WavePreset::Ocean,
    {
        WavePreset::Ocean
    }
}

/// Which side of the network runs a piece of shared simulation code.
#[derive(Debug, Clone, Copy, PartialEq, Eq, Structural)]
pub enum CallerType {
    Client,
    Server,
}

impl CallerType {
    /// Log prefix naming the caller: `"[CLIENT]"` or `"[SERVER]"`.
    pub fn as_str(&self) -> (r: &'static str)
        ensures
            r@ == (match *self {
                CallerType::Client => "[CLIENT]"@,
                CallerType::Server => "[SERVER]"@,
            }),
    {
        match self {
            CallerType::Client => "[CLIENT]",
            CallerType::Server => "[SERVER]",
        }
    }
}

} // verus!
