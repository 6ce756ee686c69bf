use std::collections::HashMap;

use engine::game::Game;
use engine::render::{get_sprite, RenderType, SpriteConfig};
use engine::worldgen::{tile_at, ResourceLayer};

fn expected_cell(seed: u32, wx: i32, wy: i32) -> (u32, u32, u32) {
    let t = tile_at(seed, wx, wy);
    let (fg, glyph) = match t.resource_layer.render_data() {
        Some(RenderType::Static { glyph, color }) => (color, glyph as u32),
        _ => (0, 0),
    };
    (t.biome_layer.bg_color(), fg, glyph)
}

fn assert_frame(g: &Game, seed: u32, w: u32, h: u32) {
    let len = (w * h) as usize;
    assert_eq!(g.buff_len(), len);
    assert_eq!(g.bg_rgb_buff().len(), len);
    assert_eq!(g.fg_rgb_buff().len(), len);
    assert_eq!(g.glyph_buff().len(), len);
    let cam_x = g.pos_x() - (w as i32) / 2;
    let cam_y = g.pos_y() - (h as i32) / 2;
    for row in 0..h {
        for col in 0..w {
            let i = (row * w + col) as usize;
            let (bg, fg, glyph) = expected_cell(seed, cam_x + col as i32, cam_y + row as i32);
            assert_eq!(g.bg_rgb_buff()[i], bg);
            if row == h / 2 && col == w / 2 {
                assert_eq!(g.glyph_buff()[i], '@' as u32);
                assert_eq!(g.fg_rgb_buff()[i], 0xFFFFFF);
            } else {
                assert_eq!(g.fg_rgb_buff()[i], fg);
                assert_eq!(g.glyph_buff()[i], glyph);
            }
        }
    }
}

#[test]
fn new_game_starts_at_origin_with_zeroed_buffers() {
    let g = Game::new(1, 4, 3);
    assert_eq!((g.pos_x(), g.pos_y()), (0, 0));
    assert_eq!(g.buff_len(), 12);
    assert!(g.bg_rgb_buff().iter().all(|&v| v == 0));
    assert!(g.fg_rgb_buff().iter().all(|&v| v == 0));
    assert!(g.glyph_buff().iter().all(|&v| v == 0));
}

#[test]
fn player_marker_at_center_of_five_by_five() {
    let mut g = Game::new(12345, 5, 5);
    g.prepare_render_buff();
    assert_eq!(g.glyph_buff()[2 * 5 + 2], '@' as u32);
    assert_eq!(g.fg_rgb_buff()[2 * 5 + 2], 0xFFFFFF);
    assert_eq!(g.bg_rgb_buff()[2 * 5 + 2], tile_at(12345, 0, 0).biome_layer.bg_color());
    assert_frame(&g, 12345, 5, 5);
}

#[test]
fn frames_match_the_world_for_several_shapes() {
    for (w, h) in [(1u32, 1u32), (4, 3), (7, 2), (16, 9)] {
        let mut g = Game::new(99, w, h);
        g.prepare_render_buff();
        assert_frame(&g, 99, w, h);
    }
}

#[test]
fn resize_keeps_lengths_and_next_frame_overwrites_all() {
    let mut g = Game::new(12345, 10, 10);
    assert_eq!(g.buff_len(), 100);
    g.prepare_render_buff();
    g.set_viewport(20, 5);
    assert_eq!(g.buff_len(), 100);
    assert_eq!(g.bg_rgb_buff().len(), 100);
    assert_eq!(g.fg_rgb_buff().len(), 100);
    assert_eq!(g.glyph_buff().len(), 100);
    g.prepare_render_buff();
    assert_frame(&g, 12345, 20, 5);
    g.set_viewport(3, 2);
    assert_eq!(g.glyph_buff().len(), 6);
    g.set_viewport(6, 6);
    assert_eq!(g.glyph_buff().len(), 36);
    assert!(g.glyph_buff()[6..].iter().all(|&v| v == 0));
}

#[test]
fn moves_onto_fluid_are_refused() {
    let seed = 12345;
    let target = (1..5000)
        .find(|&dx| matches!(tile_at(seed, dx, 0).resource_layer, ResourceLayer::Fluid(_)))
        .expect("a fluid tile on the row");
    let mut g = Game::new(seed, 5, 5);
    g.move_by(target, 0);
    assert_eq!((g.pos_x(), g.pos_y()), (0, 0));
}

#[test]
fn moves_onto_resources_and_features_succeed() {
    let seed = 12345;
    let node = (1..20000)
        .find(|&dx| matches!(tile_at(seed, dx, 0).resource_layer, ResourceLayer::Resource(_)))
        .expect("a resource tile on the row");
    let mut g = Game::new(seed, 5, 5);
    g.move_by(node, 0);
    assert_eq!((g.pos_x(), g.pos_y()), (node, 0));

    let feature = (1..5000)
        .find(|&dy| tile_at(seed, node, node + dy).feature_layer != engine::worldgen::FeatureLayer::Empty)
        .expect("a feature tile on the column");
    g.move_by(0, node + feature);
    assert_eq!((g.pos_x(), g.pos_y()), (node, node + feature));
}

#[test]
fn sprite_from_ascii_pads_and_colors() {
    let mut palette = HashMap::new();
    palette.insert('a', 1u32);
    let s = SpriteConfig::from_ascii("ab\nc\r\n", &palette, 9);
    assert_eq!((s.width, s.height), (2, 2));
    assert_eq!(s.glyphs, vec!['a', 'b', 'c', ' ']);
    assert_eq!(s.colors, vec![1, 9, 9, 9]);
    assert_eq!(s.glyph_at(0, 0), Some(('a', 1)));
    assert_eq!(s.glyph_at(1, 1), Some((' ', 9)));
    assert_eq!(s.glyph_at(2, 0), None);
    assert_eq!(s.glyph_at(0, 2), None);

    let empty = SpriteConfig::from_ascii("", &palette, 9);
    assert_eq!((empty.width, empty.height), (0, 0));
    assert!(empty.glyphs.is_empty());

    let rows = vec![vec!['x'], vec!['y', 'z', 'w']];
    let t = SpriteConfig::from_rows(&rows, &palette, 5);
    assert_eq!((t.width, t.height), (3, 2));
    assert_eq!(t.glyphs, vec!['x', ' ', ' ', 'y', 'z', 'w']);
}

#[test]
fn sprite_library_lookup() {
    let palette = HashMap::from([('X', 0xeeff88u32)]);
    let lib = vec![SpriteConfig::from_ascii("X.\n.X", &palette, 0xffffff)];
    let s = get_sprite(&lib, 0).expect("first sprite");
    assert_eq!(s.glyph_at(0, 0), Some(('X', 0xeeff88)));
    assert_eq!(s.glyph_at(1, 0), Some(('.', 0xffffff)));
    assert!(get_sprite(&lib, 1).is_none());
}
