use engine::noise::{div_floor, hash, noise_denominator, value_noise_2d};
use engine::render::RenderType;
use engine::worldgen::{
    biome_at, feature_at, resource_at, tile_at, Biome, FeatureLayer, FluidType, ResourceLayer,
    ResourceType, WorldgenTile,
};

#[test]
fn deterministic() {
    let seed = 12345;
    let a = hash(seed, 10, -7, 1);
    let b = hash(seed, 10, -7, 1);
    assert_eq!(a, b);
}

#[test]
fn different_coords_change_output() {
    let seed = 12345;
    let a = hash(seed, 10, -7, 1);
    let b = hash(seed, 10, -6, 1);
    assert_ne!(a, b);
}

#[test]
fn hash_exact_values() {
    assert_eq!(hash(12345, 10, -7, 1), 1334366152);
    assert_eq!(hash(12345, 10, -6, 1), 1693525165);
    assert_eq!(hash(0, 0, 0, 0), 0);
    assert_eq!(hash(12345, 0, 0, 0xDEAD_BEEF), 3407190621);
}

#[test]
fn hash_neighbours_in_y_differ_over_a_sample() {
    for seed in [0u32, 1, 12345, 0xFFFF_FFFF] {
        for x in -20..20 {
            for y in -20..20 {
                assert_ne!(hash(seed, x, y, 7), hash(seed, x, y + 1, 7));
            }
        }
    }
}

#[test]
fn floor_division_rounds_down() {
    assert_eq!(div_floor(7, 2), 3);
    assert_eq!(div_floor(-7, 2), -4);
    assert_eq!(div_floor(-1, 16), -1);
    assert_eq!(div_floor(-16, 16), -1);
    assert_eq!(div_floor(-17, 16), -2);
    assert_eq!(div_floor(0, 16), 0);
    assert_eq!(div_floor(i32::MIN, 96), -22369622);
}

#[test]
fn noise_at_lattice_point_is_corner_value() {
    let seed = 12345;
    let salt = 0xDEAD_BEEF;
    let d = 16u128 * 16 * 16;
    let n = value_noise_2d(seed, 0, 0, 16, salt);
    assert_eq!(n, ((hash(seed, 0, 0, salt) >> 8) as u128) * d * d);
    assert_eq!(noise_denominator(16), (1u128 << 24) * d * d);
}

#[test]
fn noise_is_deterministic_and_below_one() {
    for x in -40..40 {
        let a = value_noise_2d(99, x, 3 * x, 48, 5);
        assert_eq!(a, value_noise_2d(99, x, 3 * x, 48, 5));
        assert!(a < noise_denominator(48));
    }
}

#[test]
fn noise_has_no_seam_at_zero() {
    for salt in [1u32, 2, 0xF00D_1234, 0xDEAD_BEEF] {
        let a = value_noise_2d(12345, -1, 0, 16, salt) as i128;
        let b = value_noise_2d(12345, 0, 0, 16, salt) as i128;
        let scale = noise_denominator(16) as i128;
        // one step across the boundary moves the field by at most 3 / (2 * 16)
        assert!((a - b).abs() * 32 <= 3 * scale);
    }
}

#[test]
fn noise_steps_are_small_everywhere() {
    for cell in [16i32, 32, 48, 96] {
        let scale = noise_denominator(cell) as i128;
        for x in -200..200 {
            let a = value_noise_2d(7, x, 11, cell, 3) as i128;
            let b = value_noise_2d(7, x + 1, 11, cell, 3) as i128;
            assert!((a - b).abs() * 2 * (cell as i128) <= 3 * scale);
        }
    }
}

#[test]
fn tile_repeats_exactly() {
    let a = tile_at(12345, 10, -7);
    let b = tile_at(12345, 10, -7);
    assert_eq!(a, b);
    assert_eq!(a.biome_layer, b.biome_layer);
    assert_eq!(a.resource_layer, b.resource_layer);
    assert_eq!(a.feature_layer, b.feature_layer);
}

#[test]
fn tile_is_composed_of_its_layers() {
    for x in -30..30 {
        for y in -30..30 {
            let t = tile_at(12345, x, y);
            let b = biome_at(12345, x, y);
            let r = resource_at(12345, x, y, b);
            let f = feature_at(12345, x, y, b, r);
            assert_eq!(t, WorldgenTile { biome_layer: b, resource_layer: r, feature_layer: f });
        }
    }
}

#[test]
fn layers_never_both_occupied() {
    for x in -100..100 {
        for y in -100..100 {
            let t = tile_at(4242, x, y);
            if t.resource_layer != ResourceLayer::Empty {
                assert_eq!(t.feature_layer, FeatureLayer::Empty);
            }
        }
    }
}

#[test]
fn features_suppressed_by_occupant() {
    for x in -20..20 {
        for b in [Biome::Forest, Biome::Desert, Biome::Tundra, Biome::Plains] {
            let water = ResourceLayer::Fluid(FluidType::Water);
            let iron = ResourceLayer::Resource(ResourceType::Iron);
            assert_eq!(feature_at(1, x, x, b, water), FeatureLayer::Empty);
            assert_eq!(feature_at(1, x, x, b, iron), FeatureLayer::Empty);
        }
    }
}

#[test]
fn desert_grows_no_trees() {
    for x in -200..200 {
        for y in -50..50 {
            assert_ne!(feature_at(3, x, y, Biome::Desert, ResourceLayer::Empty), FeatureLayer::Tree);
        }
    }
}

#[test]
fn generated_layers_use_only_live_variants() {
    for x in -150..150 {
        for y in -150..150 {
            match tile_at(777, x, y).resource_layer {
                ResourceLayer::Fluid(f) => assert_eq!(f, FluidType::Water),
                ResourceLayer::Resource(n) => assert_ne!(n, ResourceType::Crystal),
                ResourceLayer::Empty => {}
            }
        }
    }
}

#[test]
fn traversable_iff_not_fluid() {
    for b in [Biome::Forest, Biome::Desert, Biome::Tundra, Biome::Plains] {
        for f in [FeatureLayer::Empty, FeatureLayer::Tree, FeatureLayer::Rock] {
            let wet = WorldgenTile { biome_layer: b, resource_layer: ResourceLayer::Fluid(FluidType::Lava), feature_layer: f };
            let ore = WorldgenTile { biome_layer: b, resource_layer: ResourceLayer::Resource(ResourceType::Coal), feature_layer: f };
            let bare = WorldgenTile { biome_layer: b, resource_layer: ResourceLayer::Empty, feature_layer: f };
            assert!(!wet.is_traversable());
            assert!(ore.is_traversable());
            assert!(bare.is_traversable());
        }
    }
}

#[test]
fn every_kind_appears_somewhere() {
    let mut biomes = [false; 4];
    let mut water = false;
    let mut node = false;
    let mut tree = false;
    let mut rock = false;
    for x in (-2000..2000).step_by(7) {
        for y in (-2000..2000).step_by(53) {
            let t = tile_at(12345, x, y);
            let i = match t.biome_layer {
                Biome::Forest => 0,
                Biome::Desert => 1,
                Biome::Tundra => 2,
                Biome::Plains => 3,
            };
            biomes[i] = true;
            match t.resource_layer {
                ResourceLayer::Fluid(_) => water = true,
                ResourceLayer::Resource(_) => node = true,
                ResourceLayer::Empty => {}
            }
            match t.feature_layer {
                FeatureLayer::Tree => tree = true,
                FeatureLayer::Rock => rock = true,
                FeatureLayer::Empty => {}
            }
        }
    }
    assert_eq!(biomes, [true; 4]);
    assert!(water && node && tree && rock);
}

#[test]
fn render_tables() {
    assert_eq!(Biome::Forest.bg_color(), 0x32a852);
    assert_eq!(Biome::Desert.bg_color(), 0xdeecb6);
    assert_eq!(Biome::Tundra.bg_color(), 0xd9e7f0);
    assert_eq!(Biome::Plains.bg_color(), 0xd7ffe9);
    assert_eq!(FluidType::Water.render_data(), RenderType::Static { glyph: '≈', color: 0x2A5CAA });
    assert_eq!(FluidType::Acid.render_data(), RenderType::Static { glyph: '≈', color: 0x54fc2a });
    assert_eq!(ResourceType::Copper.render_data(), RenderType::Static { glyph: '⛏', color: 0xC07030 });
    assert_eq!(ResourceType::Crystal.render_data(), RenderType::Static { glyph: '⛏', color: 0xf3d5ef });
    assert_eq!(ResourceLayer::Empty.render_data(), None);
    assert_eq!(
        ResourceLayer::Resource(ResourceType::Iron).render_data(),
        Some(RenderType::Static { glyph: '⛏', color: 0xB0B0B0 })
    );
    assert_eq!(
        ResourceLayer::Fluid(FluidType::Oil).render_data(),
        Some(RenderType::Static { glyph: '≈', color: 0x0e1f3a })
    );
}
