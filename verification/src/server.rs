//! The configuration and clock that every client update reads.

use vstd::prelude::*;
use crate::fixed::Fixed;
use crate::ident::{DimensionId, Ident};
use crate::Ticks;

verus! {

/// The sky and fog a dimension is drawn with.
#[derive(Clone, Copy, PartialEq, Eq, Debug, Structural)]
pub enum DimensionEffects {
    Overworld,
    TheNether,
    TheEnd,
}

/// A kind of world: its height, its light and its time.
#[derive(Clone, Copy, PartialEq, Eq, Debug, Structural)]
pub struct Dimension {
    pub natural: bool,
    pub ambient_light: Fixed,
    pub fixed_time: Option<u16>,
    pub effects: DimensionEffects,
    /// The height of the lowest block.
    pub min_y: i32,
    /// The number of blocks from the lowest to the highest.
    pub height: i32,
}

/// What falls from the sky in a biome.
#[derive(Clone, Copy, PartialEq, Eq, Debug, Structural)]
pub enum BiomePrecipitation {
    Rain,
    Snow,
    Dry,
}

/// The look of a region of the world.
#[derive(Clone, PartialEq, Eq, Debug)]
pub struct Biome {
    pub name: Ident,
    pub precipitation: BiomePrecipitation,
    pub sky_color: u32,
    pub water_fog_color: u32,
    pub fog_color: u32,
    pub water_color: u32,
    pub foliage_color: Option<u32>,
    pub grass_color: Option<u32>,
}

/// The state every client reads and none writes during a tick.
pub struct SharedServer {
    /// Ticks per second.
    pub tick_rate: Ticks,
    pub current_tick: Ticks,
    pub dimensions: Vec<Dimension>,
    pub biomes: Vec<Biome>,
}

impl Dimension {
    /// The overworld: 384 blocks from -64 up, with a day and a night.
    pub fn overworld() -> (r: Dimension)
        ensures
            r == (Dimension {
                natural: true,
                ambient_light: 4096,
                fixed_time: None,
                effects: DimensionEffects::Overworld,
                min_y: -64i32,
                height: 384,
            }),
    {
        Dimension {
            natural: true,
            ambient_light: 4096,
            fixed_time: None,
            effects: DimensionEffects::Overworld,
            min_y: -64,
            height: 384,
        }
    }
}

impl Biome {
    /// Whether the biome is the `minecraft:plains` that clients insist on.
    pub open spec fn is_plains(self) -> bool {
        self.name.namespace@ == "minecraft"@ && self.name.path@ == "plains"@
    }

    /// The biome `minecraft:plains`.
    pub fn plains() -> (r: Biome)
        ensures
            r.is_plains(),
            r.precipitation == BiomePrecipitation::Rain,
            r.sky_color == 0x78a7ff,
            r.water_fog_color == 0x050533,
            r.fog_color == 0xc0d8ff,
            r.water_color == 0x3f76e4,
            r.foliage_color is None,
            r.grass_color is None,
    {
        Biome {
            name: Ident::new("minecraft", "plains"),
            precipitation: BiomePrecipitation::Rain,
            sky_color: 0x78a7ff,
            water_fog_color: 0x050533,
            fog_color: 0xc0d8ff,
            water_color: 0x3f76e4,
            foliage_color: None,
            grass_color: None,
        }
    }
}

impl SharedServer {
    /// The dimension `id`, where it is configured.
    pub open spec fn dimension_spec(&self, id: DimensionId) -> Option<Dimension> {
        if (id.0 as int) < self.dimensions@.len() {
            Some(self.dimensions@[id.0 as int])
        } else {
            None
        }
    }

    /// Whether a keep-alive falls due on tick `tick`: once every eight seconds.
    pub open spec fn keepalive_due_spec(&self, tick: Ticks) -> bool {
        self.tick_rate > 0 && tick as int % (self.tick_rate as int * 8) == 0
    }

    pub fn current_tick(&self) -> (r: Ticks)
        ensures
            r == self.current_tick,
    {
        self.current_tick
    }

    pub fn tick_rate(&self) -> (r: Ticks)
        ensures
            r == self.tick_rate,
    {
        self.tick_rate
    }

    /// The dimension `id`, where it is configured.
    pub fn dimension(&self, id: DimensionId) -> (r: Option<Dimension>)
        ensures
            r == self.dimension_spec(id),
    {
        let i: usize = id.0 as usize;
        if i < self.dimensions.len() {
            Some(self.dimensions[i])
        } else {
            None
        }
    }

    /// Whether a keep-alive falls due on the current tick.
    pub fn keepalive_due(&self) -> (r: bool)
        ensures
            r == self.keepalive_due_spec(self.current_tick),
    {
        if self.tick_rate <= 0 {
            return false;
        }
        let period: i128 = self.tick_rate as i128 * 8;
        match (self.current_tick as i128).checked_rem_euclid(period) {
            Some(r) => r == 0,
            None => false,
        }
    }
}

} // verus!
