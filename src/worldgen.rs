use vstd::prelude::*;

use crate::noise::{
    hash, hash_value, is_above, is_below, noise_above, noise_below, noise_value, value_noise_2d,
};
use crate::render::{RenderData, RenderType, Rgb24};

verus! {

/// Side of the cells of the temperature and humidity channels.
pub const BIOME_CELL: i32 = 96;
/// Side of the cells of the fluid channel.
pub const FLUID_CELL: i32 = 48;
/// Side of the cells of the resource node channel.
pub const NODE_CELL: i32 = 32;
/// Side of the cells of the feature channel.
pub const FEATURE_CELL: i32 = 16;

pub const TEMPERATURE_SALT: u32 = 0xA1B2_C3D4;
pub const HUMIDITY_SALT: u32 = 0x1A2B_3C4D;
pub const FLUID_SALT: u32 = 0xF00D_1234;
pub const NODE_SALT: u32 = 0xC0FF_EE77;
/// Salt of the hash that picks a resource subtype.
pub const PICK_SALT: u32 = 0xBEEF_CAFE;
pub const FEATURE_SALT: u32 = 0xDEAD_BEEF;

/// Biome of a tile (layer 0); it sets the odds of the later layers.
#[derive(Clone, Copy, Debug, PartialEq, Eq, Structural)]
pub enum Biome {
    Forest,
    Desert,
    Tundra,
    Plains,
}

/// Background color of each biome.
pub open spec fn biome_color(b: Biome) -> Rgb24 {
    match b {
        Biome::Forest => 0x32a852,
        Biome::Desert => 0xdeecb6,
        Biome::Tundra => 0xd9e7f0,
        Biome::Plains => 0xd7ffe9,
    }
}

impl Biome {
    pub fn bg_color(self) -> (r: Rgb24)
        ensures
            r == biome_color(self),
    {
        match self {
            Biome::Forest => 0x32a852,
            Biome::Desert => 0xdeecb6,
            Biome::Tundra => 0xd9e7f0,
            Biome::Plains => 0xd7ffe9,
        }
    }
}

/// A fluid. Only water is generated; the others have a look and wait for rules of their own.
#[derive(Clone, Copy, Debug, PartialEq, Eq, Structural)]
pub enum FluidType {
    Water,
    Lava,
    Oil,
    Acid,
}

/// The glyph drawn for fluids: '≈'.
pub const FLUID_GLYPH: char = '\u{2248}';
/// The glyph drawn for resource nodes: '⛏'.
pub const NODE_GLYPH: char = '\u{26CF}';

/// The look of each fluid.
pub open spec fn fluid_look(f: FluidType) -> RenderData {
    match f {
        FluidType::Water => RenderType::Static { color: 0x2A5CAA, glyph: FLUID_GLYPH },
        FluidType::Lava => RenderType::Static { color: 0xec874c, glyph: FLUID_GLYPH },
        FluidType::Oil => RenderType::Static { color: 0x0e1f3a, glyph: FLUID_GLYPH },
        FluidType::Acid => RenderType::Static { color: 0x54fc2a, glyph: FLUID_GLYPH },
    }
}

impl FluidType {
    pub fn render_data(self) -> (r: RenderData)
        ensures
            r == fluid_look(self),
    {
        match self {
            FluidType::Water => RenderType::Static { color: 0x2A5CAA, glyph: FLUID_GLYPH },
            FluidType::Lava => RenderType::Static { color: 0xec874c, glyph: FLUID_GLYPH },
            FluidType::Oil => RenderType::Static { color: 0x0e1f3a, glyph: FLUID_GLYPH },
            FluidType::Acid => RenderType::Static { color: 0x54fc2a, glyph: FLUID_GLYPH },
        }
    }
}

/// A mineable resource. Crystal has a look, but no rule places it yet.
#[derive(Clone, Copy, Debug, PartialEq, Eq, Structural)]
pub enum ResourceType {
    Iron,
    Copper,
    Coal,
    Crystal,
}

/// The look of each resource.
pub open spec fn resource_look(n: ResourceType) -> RenderData {
    match n {
        ResourceType::Iron => RenderType::Static { color: 0xB0B0B0, glyph: NODE_GLYPH },
        ResourceType::Copper => RenderType::Static { color: 0xC07030, glyph: NODE_GLYPH },
        ResourceType::Coal => RenderType::Static { color: 0x303030, glyph: NODE_GLYPH },
        ResourceType::Crystal => RenderType::Static { color: 0xf3d5ef, glyph: NODE_GLYPH },
    }
}

impl ResourceType {
    pub fn render_data(self) -> (r: RenderData)
        ensures
            r == resource_look(self),
    {
        match self {
            ResourceType::Iron => RenderType::Static { color: 0xB0B0B0, glyph: NODE_GLYPH },
            ResourceType::Copper => RenderType::Static { color: 0xC07030, glyph: NODE_GLYPH },
            ResourceType::Coal => RenderType::Static { color: 0x303030, glyph: NODE_GLYPH },
            ResourceType::Crystal => RenderType::Static { color: 0xf3d5ef, glyph: NODE_GLYPH },
        }
    }
}

/// What occupies a tile after the biome (layer 1): a fluid, a resource node, or nothing.
#[derive(Clone, Copy, Debug, PartialEq, Eq, Structural)]
pub enum ResourceLayer {
    Empty,
    Fluid(FluidType),
    Resource(ResourceType),
}

/// The look of layer 1; `Empty` draws nothing.
pub open spec fn layer_look(l: ResourceLayer) -> Option<RenderData> {
    match l {
        ResourceLayer::Empty => Option::None,
        ResourceLayer::Fluid(f) => Option::Some(fluid_look(f)),
        ResourceLayer::Resource(n) => Option::Some(resource_look(n)),
    }
}

impl ResourceLayer {
    /// `None` means that layer 1 draws nothing.
    pub fn render_data(self) -> (r: Option<RenderData>)
        ensures
            r == layer_look(self),
    {
        match self {
            ResourceLayer::Empty => Option::None,
            ResourceLayer::Fluid(f) => Option::Some(f.render_data()),
            ResourceLayer::Resource(n) => Option::Some(n.render_data()),
        }
    }
}

/// Decoration of a tile (layer 2); never present on a tile with a layer 1 occupant.
#[derive(Clone, Copy, Debug, PartialEq, Eq, Structural)]
pub enum FeatureLayer {
    Empty,
    Tree,
    Rock,
}

/// The three layers of one tile.
#[derive(Clone, Copy, Debug, PartialEq, Eq, Structural)]
pub struct WorldgenTile {
    pub biome_layer: Biome,
    pub resource_layer: ResourceLayer,
    pub feature_layer: FeatureLayer,
}

/// A tile can be walked onto unless it holds a fluid.
pub open spec fn traversable(t: WorldgenTile) -> bool {
    !(t.resource_layer is Fluid)
}

impl WorldgenTile {
    pub fn is_traversable(self) -> (r: bool)
        ensures
            r == traversable(self),
    {
        !matches!(self.resource_layer, ResourceLayer::Fluid(_))
    }
}

/// The biome for a temperature `t` and humidity `h`, both noise values for `BIOME_CELL`.
pub open spec fn classify_biome(t: int, h: int) -> Biome {
    let c = BIOME_CELL as int;
    if noise_below(t, c, 30, 100) {
        Biome::Tundra
    } else if noise_above(t, c, 70, 100) && noise_below(h, c, 35, 100) {
        Biome::Desert
    } else if noise_above(h, c, 60, 100) {
        Biome::Forest
    } else {
        Biome::Plains
    }
}

pub open spec fn biome_of(seed: u32, x: i32, y: i32) -> Biome {
    classify_biome(
        noise_value(seed, x as int, y as int, BIOME_CELL as int, TEMPERATURE_SALT),
        noise_value(seed, x as int, y as int, BIOME_CELL as int, HUMIDITY_SALT),
    )
}

/// Fluid noise below this many thousandths makes water.
pub open spec fn water_limit(b: Biome) -> int {
    match b {
        Biome::Desert => 80,
        Biome::Tundra => 180,
        Biome::Plains => 220,
        Biome::Forest => 280,
    }
}

/// Node noise above this many thousandths makes a resource node.
pub open spec fn node_limit(b: Biome) -> int {
    match b {
        Biome::Desert => 865,
        Biome::Tundra => 955,
        Biome::Plains => 950,
        Biome::Forest => 955,
    }
}

/// The resource subtype for a pick in `[0, 100)`, by biome-specific bands.
pub open spec fn node_kind(b: Biome, pick: int) -> ResourceType {
    match b {
        Biome::Desert => if pick < 40 {
            ResourceType::Copper
        } else if pick < 80 {
            ResourceType::Coal
        } else {
            ResourceType::Iron
        },
        Biome::Tundra => if pick < 55 {
            ResourceType::Iron
        } else if pick < 80 {
            ResourceType::Coal
        } else {
            ResourceType::Copper
        },
        _ => if pick < 55 {
            ResourceType::Iron
        } else if pick < 80 {
            ResourceType::Copper
        } else {
            ResourceType::Coal
        },
    }
}

pub open spec fn resource_of(seed: u32, x: i32, y: i32, b: Biome) -> ResourceLayer {
    let fluid = noise_value(seed, x as int, y as int, FLUID_CELL as int, FLUID_SALT);
    let node = noise_value(seed, x as int, y as int, NODE_CELL as int, NODE_SALT);
    if noise_below(fluid, FLUID_CELL as int, water_limit(b), 1000) {
        ResourceLayer::Fluid(FluidType::Water)
    } else if noise_above(node, NODE_CELL as int, node_limit(b), 1000) {
        ResourceLayer::Resource(node_kind(b, hash_value(seed, x, y, PICK_SALT) as int % 100))
    } else {
        ResourceLayer::Empty
    }
}

/// The feature for a feature-noise value `n` (for `FEATURE_CELL`) in biome `b`.
pub open spec fn classify_feature(b: Biome, n: int) -> FeatureLayer {
    let c = FEATURE_CELL as int;
    match b {
        Biome::Forest => if noise_above(n, c, 620, 1000) {
            FeatureLayer::Tree
        } else if noise_below(n, c, 60, 1000) {
            FeatureLayer::Rock
        } else {
            FeatureLayer::Empty
        },
        Biome::Plains => if noise_above(n, c, 900, 1000) {
            FeatureLayer::Tree
        } else if noise_below(n, c, 50, 1000) {
            FeatureLayer::Rock
        } else {
            FeatureLayer::Empty
        },
        Biome::Desert => if noise_below(n, c, 90, 1000) {
            FeatureLayer::Rock
        } else {
            FeatureLayer::Empty
        },
        Biome::Tundra => if noise_above(n, c, 940, 1000) {
            FeatureLayer::Tree
        } else if noise_below(n, c, 80, 1000) {
            FeatureLayer::Rock
        } else {
            FeatureLayer::Empty
        },
    }
}

pub open spec fn feature_of(seed: u32, x: i32, y: i32, b: Biome, res: ResourceLayer) -> FeatureLayer {
    if !(res is Empty) {
        FeatureLayer::Empty
    } else {
        classify_feature(
            b,
            noise_value(seed, x as int, y as int, FEATURE_CELL as int, FEATURE_SALT),
        )
    }
}

pub open spec fn tile_of(seed: u32, x: i32, y: i32) -> WorldgenTile {
    let b = biome_of(seed, x, y);
    let res = resource_of(seed, x, y, b);
    WorldgenTile {
        biome_layer: b,
        resource_layer: res,
        feature_layer: feature_of(seed, x, y, b, res),
    }
}

/// All three layers of the tile at `(x, y)`.
pub fn tile_at(seed: u32, x: i32, y: i32) -> (r: WorldgenTile)
    ensures
        r == tile_of(seed, x, y),
{
    let biome = biome_at(seed, x, y);
    let resources = resource_at(seed, x, y, biome);
    let features = feature_at(seed, x, y, biome, resources);
    WorldgenTile { biome_layer: biome, resource_layer: resources, feature_layer: features }
}

/// Layer 0: the biome, from a temperature and a humidity channel.
pub fn biome_at(seed: u32, x: i32, y: i32) -> (r: Biome)
    ensures
        r == biome_of(seed, x, y),
{
    let temp = value_noise_2d(seed, x, y, BIOME_CELL, TEMPERATURE_SALT);
    let humidity = value_noise_2d(seed, x, y, BIOME_CELL, HUMIDITY_SALT);
    if is_below(temp, BIOME_CELL, 30, 100) {
        Biome::Tundra
    } else if is_above(temp, BIOME_CELL, 70, 100) && is_below(humidity, BIOME_CELL, 35, 100) {
        Biome::Desert
    } else if is_above(humidity, BIOME_CELL, 60, 100) {
        Biome::Forest
    } else {
        Biome::Plains
    }
}

fn water_threshold(b: Biome) -> (r: u128)
    ensures
        r == water_limit(b),
{
    match b {
        Biome::Desert => 80,
        Biome::Tundra => 180,
        Biome::Plains => 220,
        Biome::Forest => 280,
    }
}

fn node_threshold(b: Biome) -> (r: u128)
    ensures
        r == node_limit(b),
{
    match b {
        Biome::Desert => 865,
        Biome::Tundra => 955,
        Biome::Plains => 950,
        Biome::Forest => 955,
    }
}

/// Layer 1: water where the fluid channel is low, else a node where the node channel
/// peaks, else nothing. Fluids win over nodes.
pub fn resource_at(seed: u32, x: i32, y: i32, biome: Biome) -> (r: ResourceLayer)
    ensures
        r == resource_of(seed, x, y, biome),
{
    let fluid_noise = value_noise_2d(seed, x, y, FLUID_CELL, FLUID_SALT);
    let node_noise = value_noise_2d(seed, x, y, NODE_CELL, NODE_SALT);
    if is_below(fluid_noise, FLUID_CELL, water_threshold(biome), 1000) {
        return ResourceLayer::Fluid(FluidType::Water);
    }
    if is_above(node_noise, NODE_CELL, node_threshold(biome), 1000) {
        let pick = hash(seed, x, y, PICK_SALT) % 100;
        let node = match biome {
            Biome::Desert => {
                if pick < 40 {
                    ResourceType::Copper
                } else if pick < 80 {
                    ResourceType::Coal
                } else {
                    ResourceType::Iron
                }
            },
            Biome::Tundra => {
                if pick < 55 {
                    ResourceType::Iron
                } else if pick < 80 {
                    ResourceType::Coal
                } else {
                    ResourceType::Copper
                }
            },
            _ => {
                if pick < 55 {
                    ResourceType::Iron
                } else if pick < 80 {
                    ResourceType::Copper
                } else {
                    ResourceType::Coal
                }
            },
        };
        return ResourceLayer::Resource(node);
    }
    ResourceLayer::Empty
}

/// Layer 2: trees and rocks from a small-scale channel, never on an occupied tile.
pub fn feature_at(seed: u32, x: i32, y: i32, biome: Biome, resource: ResourceLayer) -> (r: FeatureLayer)
    ensures
        r == feature_of(seed, x, y, biome, resource),
{
    if !matches!(resource, ResourceLayer::Empty) {
        return FeatureLayer::Empty;
    }
    let feat = value_noise_2d(seed, x, y, FEATURE_CELL, FEATURE_SALT);
    match biome {
        Biome::Forest => {
            if is_above(feat, FEATURE_CELL, 620, 1000) {
                FeatureLayer::Tree
            } else if is_below(feat, FEATURE_CELL, 60, 1000) {
                FeatureLayer::Rock
            } else {
                FeatureLayer::Empty
            }
        },
        Biome::Plains => {
            if is_above(feat, FEATURE_CELL, 900, 1000) {
                FeatureLayer::Tree
            } else if is_below(feat, FEATURE_CELL, 50, 1000) {
                FeatureLayer::Rock
            } else {
                FeatureLayer::Empty
            }
        },
        Biome::Desert => {
            if is_below(feat, FEATURE_CELL, 90, 1000) {
                FeatureLayer::Rock
            } else {
                FeatureLayer::Empty
            }
        },
        Biome::Tundra => {
            if is_above(feat, FEATURE_CELL, 940, 1000) {
                FeatureLayer::Tree
            } else if is_below(feat, FEATURE_CELL, 80, 1000) {
                FeatureLayer::Rock
            } else {
                FeatureLayer::Empty
            }
        },
    }
}

/// A tile never holds both a layer 1 occupant and a feature: wherever a fluid or a
/// resource node stands, layer 2 is empty.
pub proof fn lemma_layers_exclusive(seed: u32, x: i32, y: i32)
    ensures
        !(tile_of(seed, x, y).resource_layer is Empty) ==> tile_of(seed, x, y).feature_layer is Empty,
{
}

/// Whether a tile can be walked onto depends on its layer 1 alone, whatever its biome
/// and feature: it can unless layer 1 is a fluid.
pub proof fn lemma_traversable_by_layer(a: WorldgenTile, b: WorldgenTile)
    ensures
        traversable(a) <==> !(a.resource_layer is Fluid),
        a.resource_layer == b.resource_layer ==> (traversable(a) <==> traversable(b)),
{
}

} // verus!
