use std::collections::HashMap;

use kirie::json::parse;
use kirie::material::{Blending, CullMode, DepthMode, Pass};
use kirie::runtime::{runtime_draw_order, RuntimeLayer, RuntimeLayers};
use kirie::scene::Scene;
use kirie::slots::{effective_blending, is_compose_layer, samples_scene_by_default, SamplerSlot};
use kirie::table::TextMap;
use kirie::transforms::{place_chain, LocalXf};
use kirie::value::{Scalar, Vec2};
use kirie::visibility::{ancestors_visible, collect_structural_props};

fn sampler(slot: u32, default_texture: Option<&str>) -> SamplerSlot {
    SamplerSlot {
        name: format!("g_Texture{slot}"),
        slot: Some(slot),
        texture_binding: 0,
        sampler_binding: 0,
        default_texture: default_texture.map(str::to_owned),
        combo: None,
    }
}

fn empty_pass() -> Pass {
    Pass {
        blending: Blending::Normal,
        cullmode: CullMode::NoCull,
        depthtest: DepthMode::Disabled,
        depthwrite: DepthMode::Disabled,
        shader: "genericimage3".to_owned(),
        textures: vec![],
        usertextures: vec![],
        combos: TextMap::new(),
        constantshadervalues: TextMap::new(),
    }
}

#[test]
fn a_bloom_toggle_counts_as_structural() {
    let document = parse(
        br#"{
            "camera": { "center": "0 0 0", "eye": "0 0 100", "up": "0 1 0" },
            "general": { "bloom": { "user": "bloom", "value": false } },
            "objects": []
        }"#,
    )
    .expect("a document");
    let Ok(scene) = Scene::from_value(&document) else {
        panic!("the scene should parse");
    };
    assert!(collect_structural_props(&scene).contains("bloom"));
}

#[test]
fn a_shader_that_defaults_to_the_frame_buffer_still_reads_the_scene() {
    let samplers = vec![sampler(0, None), sampler(4, Some("_rt_FullFrameBuffer"))];
    assert!(samples_scene_by_default(&empty_pass(), &samplers));
}

#[test]
fn a_bound_texture_wins_over_the_shaders_default() {
    let mut pass = empty_pass();
    pass.textures = vec![None, None, None, None, Some("materials/leaves".to_owned())];
    let samplers = vec![sampler(4, Some("_rt_FullFrameBuffer"))];
    assert!(!samples_scene_by_default(&pass, &samplers));
}

#[test]
fn an_ordinary_shader_leaves_the_snapshot_alone() {
    let samplers = vec![sampler(0, None), sampler(1, Some("materials/mask"))];
    assert!(!samples_scene_by_default(&empty_pass(), &samplers));
}

#[test]
fn only_the_compose_layer_samples_through_its_own_rect() {
    assert!(is_compose_layer("composelayer"));
    assert!(is_compose_layer("util/composelayer"));
    assert!(!is_compose_layer("genericimage2"));
    assert!(!is_compose_layer("effects/waterripple"));
}

fn local(origin: [f32; 2], parent: Option<i64>) -> LocalXf {
    let single = |v: f32| Scalar::Single(v.to_bits());
    LocalXf {
        origin: Vec2 { x: single(origin[0]), y: single(origin[1]) },
        scale: Vec2 { x: single(1.0), y: single(1.0) },
        angle_z: single(0.0),
        parent,
    }
}

fn number(s: &Scalar) -> f32 {
    match s {
        Scalar::Single(b) => f32::from_bits(*b),
        other => panic!("a single, not {other:?}"),
    }
}

fn world_xf(id: i64, locals: &HashMap<i64, LocalXf>) -> ([f32; 2], [f32; 2], f32) {
    let (mut ox, mut oy, mut sx, mut sy, mut ang) = (0.0f32, 0.0f32, 1.0f32, 1.0f32, 0.0f32);
    for l in place_chain(id, locals).iter().rev() {
        let (lx, ly) = (number(&l.origin.x) * sx, number(&l.origin.y) * sy);
        let (s, c) = ang.sin_cos();
        ox += lx * c - ly * s;
        oy += lx * s + ly * c;
        sx *= number(&l.scale.x);
        sy *= number(&l.scale.y);
        ang += number(&l.angle_z);
    }
    ([ox, oy], [sx, sy], ang)
}

#[test]
fn a_child_layer_is_placed_through_its_parents() {
    let locals: HashMap<i64, LocalXf> = [
        (1, local([1920.0, 1080.0], None)),
        (2, local([-3.0, 656.0], Some(1))),
    ]
    .into_iter()
    .collect();

    let (origin, scale, angle) = world_xf(2, &locals);
    assert!((origin[0] - 1917.0).abs() < 0.001, "{origin:?}");
    assert!((origin[1] - 1736.0).abs() < 0.001, "{origin:?}");
    assert_eq!(scale, [1.0, 1.0]);
    assert!(angle.abs() < f32::EPSILON);
}

#[test]
fn a_ring_of_parents_ends() {
    let locals: HashMap<i64, LocalXf> =
        [(1, local([1.0, 0.0], Some(2))), (2, local([1.0, 0.0], Some(1)))].into_iter().collect();
    assert_eq!(place_chain(1, &locals).len(), 64);
    assert!(place_chain(3, &locals).is_empty());
}

#[test]
fn reparent_moves_visibility_gating() {
    let mut parent_by_id: HashMap<i64, Option<i64>> =
        [(1, None), (2, None), (3, Some(1))].into_iter().collect();
    let visible_by_id: HashMap<i64, bool> = [(1, true), (2, false), (3, true)].into_iter().collect();
    let start = |p: &HashMap<i64, Option<i64>>| p.get(&3).copied().flatten();
    assert!(ancestors_visible(
        &parent_by_id,
        &visible_by_id,
        start(&parent_by_id)
    ));
    parent_by_id.insert(3, Some(2));
    assert!(!ancestors_visible(
        &parent_by_id,
        &visible_by_id,
        start(&parent_by_id)
    ));
}

#[test]
fn ancestors_beyond_the_limit_do_not_count() {
    let parents: HashMap<i64, Option<i64>> = (0..100).map(|i| (i, Some(i + 1))).collect();
    let visible: HashMap<i64, bool> = [(64, false)].into_iter().collect();
    assert!(ancestors_visible(&parents, &visible, Some(0)));
    assert!(!ancestors_visible(&parents, &visible, Some(1)));
    assert!(ancestors_visible(&parents, &visible, None));
}

fn layers(of: &[(i64, i64)]) -> RuntimeLayers {
    RuntimeLayers {
        layers: of
            .iter()
            .map(|&(order, id)| RuntimeLayer {
                id,
                order,
                ..RuntimeLayer::default()
            })
            .collect(),
        next: 0,
    }
}

#[test]
fn runtime_layers_draw_in_creation_order_by_default() {
    let layers = layers(&[(0, -1000), (1, -1001), (2, -1002)]);
    assert_eq!(runtime_draw_order(&layers), [-1000, -1001, -1002]);
}

#[test]
fn runtime_layers_draw_in_sorted_order_after_renumber() {
    let layers = layers(&[(5, -1000), (3, -1001), (4, -1002), (3, -1003)]);
    assert_eq!(runtime_draw_order(&layers), [-1001, -1003, -1002, -1000]);
}

#[test]
fn puppet_base_forces_translucent_blending() {
    for planned in [Blending::Normal, Blending::Translucent, Blending::Additive] {
        assert_eq!(effective_blending(true, planned), Blending::Translucent);
        assert_eq!(effective_blending(false, planned), planned);
    }
}
