//! The registry codec: the catalogue of dimension types, biomes and chat
//! types that a client is handed when it joins.

use vstd::prelude::*;
use crate::ident::{DimensionId, DimensionTypeName, Ident, IdentView};
use crate::seqs::{lemma_views_push, views};
use crate::server::{Biome, BiomePrecipitation, Dimension, SharedServer};

verus! {

/// One dimension type of the catalogue.
#[derive(Clone, Copy, PartialEq, Eq, Debug, Structural)]
pub struct DimensionTypeEntry {
    pub name: DimensionTypeName,
    pub id: i32,
    pub element: Dimension,
}

/// One biome of the catalogue.
#[derive(Clone, PartialEq, Eq, Debug)]
pub struct BiomeEntry {
    pub id: i32,
    pub biome: Biome,
}

/// How a chat type is read out.
#[derive(Clone, Copy, PartialEq, Eq, Debug, Structural)]
pub enum NarrationPriority {
    Chat,
    System,
}

/// The name of a chat type.
#[derive(Clone, Copy, PartialEq, Eq, Debug, Structural)]
pub enum ChatTypeName {
    /// `minecraft:system`.
    System,
}

/// One chat type of the catalogue.
#[derive(Clone, Copy, PartialEq, Eq, Debug, Structural)]
pub struct ChatTypeEntry {
    pub name: ChatTypeName,
    pub id: i32,
    pub narration_priority: NarrationPriority,
}

/// The catalogue of registries sent with the login packet.
#[derive(Clone, PartialEq, Eq, Debug)]
pub struct RegistryCodec {
    /// The registry `minecraft:dimension_type`.
    pub dimension_types: Vec<DimensionTypeEntry>,
    /// The registry `minecraft:worldgen/biome`.
    pub biomes: Vec<BiomeEntry>,
    /// The registry `minecraft:chat_type`.
    pub chat_types: Vec<ChatTypeEntry>,
}

/// What a [`Biome`] is in contracts.
pub struct BiomeView {
    pub name: IdentView,
    pub precipitation: BiomePrecipitation,
    pub sky_color: u32,
    pub water_fog_color: u32,
    pub fog_color: u32,
    pub water_color: u32,
    pub foliage_color: Option<u32>,
    pub grass_color: Option<u32>,
}

/// What a [`BiomeEntry`] is in contracts.
pub struct BiomeEntryView {
    pub id: i32,
    pub biome: BiomeView,
}

/// What a [`RegistryCodec`] is in contracts.
#[verifier::ext_equal]
pub struct RegistryCodecView {
    pub dimension_types: Seq<DimensionTypeEntry>,
    pub biomes: Seq<BiomeEntryView>,
    pub chat_types: Seq<ChatTypeEntry>,
}

impl View for Biome {
    type V = BiomeView;

    open spec fn view(&self) -> BiomeView {
        BiomeView {
            name: self.name@,
            precipitation: self.precipitation,
            sky_color: self.sky_color,
            water_fog_color: self.water_fog_color,
            fog_color: self.fog_color,
            water_color: self.water_color,
            foliage_color: self.foliage_color,
            grass_color: self.grass_color,
        }
    }
}

impl View for BiomeEntry {
    type V = BiomeEntryView;

    open spec fn view(&self) -> BiomeEntryView {
        BiomeEntryView { id: self.id, biome: self.biome@ }
    }
}

impl View for RegistryCodec {
    type V = RegistryCodecView;

    open spec fn view(&self) -> RegistryCodecView {
        RegistryCodecView {
            dimension_types: self.dimension_types@,
            biomes: views(self.biomes@),
            chat_types: self.chat_types@,
        }
    }
}

/// The number of configured dimensions that an identifier can name.
pub open spec fn dimension_count(shared: &SharedServer) -> int {
    if shared.dimensions@.len() <= 0x1_0000 {
        shared.dimensions@.len() as int
    } else {
        0x1_0000
    }
}

/// The number of configured biomes that get an entry.
pub open spec fn biome_count(shared: &SharedServer) -> int {
    if shared.biomes@.len() < i32::MAX {
        shared.biomes@.len() as int
    } else {
        i32::MAX as int
    }
}

/// The biome `minecraft:plains` that is added where the configuration has none.
pub open spec fn plains_view() -> BiomeView {
    BiomeView {
        name: IdentView { namespace: "minecraft"@, path: "plains"@ },
        precipitation: BiomePrecipitation::Rain,
        sky_color: 0x78a7ff,
        water_fog_color: 0x050533,
        fog_color: 0xc0d8ff,
        water_color: 0x3f76e4,
        foliage_color: None,
        grass_color: None,
    }
}

/// Whether one of the first `n` configured biomes is `minecraft:plains`.
pub open spec fn has_plains(shared: &SharedServer, n: int) -> bool {
    exists|i: int| 0 <= i < n && #[trigger] shared.biomes@[i].is_plains()
}

/// The entries of the configured dimensions: dimension `i` under the id `i`.
pub open spec fn dimension_entries(shared: &SharedServer) -> Seq<DimensionTypeEntry> {
    Seq::new(
        dimension_count(shared) as nat,
        |i: int|
            DimensionTypeEntry {
                name: DimensionTypeName(DimensionId(i as u16)),
                id: i as i32,
                element: shared.dimensions@[i],
            },
    )
}

/// The entries of the configured biomes, biome `i` under the id `i`, and
/// after them `minecraft:plains` where none of them is it.
pub open spec fn biome_entries(shared: &SharedServer) -> Seq<BiomeEntryView> {
    let n = biome_count(shared);
    let configured = Seq::new(
        n as nat,
        |i: int| BiomeEntryView { id: i as i32, biome: shared.biomes@[i]@ },
    );
    if has_plains(shared, n) {
        configured
    } else {
        configured.push(BiomeEntryView { id: n as i32, biome: plains_view() })
    }
}

/// The catalogue for the configuration `shared`.
pub open spec fn registry_codec_spec(shared: &SharedServer) -> RegistryCodecView {
    RegistryCodecView {
        dimension_types: dimension_entries(shared),
        biomes: biome_entries(shared),
        chat_types: seq![
            ChatTypeEntry {
                name: ChatTypeName::System,
                id: 0,
                narration_priority: NarrationPriority::System,
            },
        ],
    }
}

/// A copy of `b`.
fn copy_biome(b: &Biome) -> (r: Biome)
    ensures
        r@ == b@,
{
    Biome {
        name: Ident { namespace: b.name.namespace.clone(), path: b.name.path.clone() },
        precipitation: b.precipitation,
        sky_color: b.sky_color,
        water_fog_color: b.water_fog_color,
        fog_color: b.fog_color,
        water_color: b.water_color,
        foliage_color: b.foliage_color,
        grass_color: b.grass_color,
    }
}

/// Builds the catalogue of registries for the configuration `shared`: one
/// dimension type per configured dimension, one biome per configured biome
/// plus `minecraft:plains` where the configuration lacks it (clients refuse to
/// join without), and the one chat type for system messages.
pub fn make_registry_codec(shared: &SharedServer) -> (r: RegistryCodec)
    ensures
        r@ == registry_codec_spec(shared),
{
    let mut dims: Vec<DimensionTypeEntry> = Vec::new();
    let mut i: usize = 0;
    while i < shared.dimensions.len() && i < 0x1_0000
        invariant
            i <= dimension_count(shared),
            dims@ == Seq::new(
                i as nat,
                |j: int|
                    DimensionTypeEntry {
                        name: DimensionTypeName(DimensionId(j as u16)),
                        id: j as i32,
                        element: shared.dimensions@[j],
                    },
            ),
        decreases dimension_count(shared) - i,
    {
        dims.push(
            DimensionTypeEntry {
                name: DimensionTypeName(DimensionId(i as u16)),
                id: i as i32,
                element: shared.dimensions[i],
            },
        );
        i = i + 1;
    }
    let mut biomes: Vec<BiomeEntry> = Vec::new();
    let mut found: bool = false;
    let mut k: usize = 0;
    while k < shared.biomes.len() && k < i32::MAX as usize
        invariant
            k <= biome_count(shared),
            found == has_plains(shared, k as int),
            views(biomes@) == Seq::new(
                k as nat,
                |j: int| BiomeEntryView { id: j as i32, biome: shared.biomes@[j]@ },
            ),
        decreases biome_count(shared) - k,
    {
        let b: &Biome = &shared.biomes[k];
        let plains: bool = b.name.is("minecraft", "plains");
        proof {
            if plains {
                assert(shared.biomes@[k as int].is_plains());
            }
        }
        found = found || plains;
        let entry = BiomeEntry { id: k as i32, biome: copy_biome(b) };
        proof {
            lemma_views_push(biomes@, entry);
        }
        biomes.push(entry);
        k = k + 1;
    }
    if !found {
        let entry = BiomeEntry { id: k as i32, biome: Biome::plains() };
        proof {
            lemma_views_push(biomes@, entry);
        }
        biomes.push(entry);
    }
    let mut chat_types: Vec<ChatTypeEntry> = Vec::new();
    chat_types.push(
        ChatTypeEntry {
            name: ChatTypeName::System,
            id: 0,
            narration_priority: NarrationPriority::System,
        },
    );
    RegistryCodec { dimension_types: dims, biomes, chat_types }
}

} // verus!
