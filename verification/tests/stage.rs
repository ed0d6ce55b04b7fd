use std::collections::HashMap;

use kirie::frame::{
    debug_particle_count, debug_pass_count, debug_text_count, displayed, draw_steps, layer_place,
    needs_depth, needs_snapshot, page_turn, redraw_hint, sort_items, video_users, DrawStep, Motion,
    RedrawHint, Tree, VideoState,
};
use kirie::items::{
    apply_aspect, apply_material_op, apply_script_updates, is_visible, item_id, Aspect, ImageItem,
    LivePass, ModelItem, ParticleItem, SceneItem, TextItem,
};
use kirie::material::{Material, Pass};
use kirie::object::ObjectKind;
use kirie::orders::{parse_index, particle_orders, video_orders, ParticleAct};
use kirie::property::{PropertyBag, PropertyValue};
use kirie::resolve::SceneModel;
use kirie::runtime::{
    drawn_layers, layer_batches, runtime_draw_order, vertex_buffer, Level, RuntimeLayers,
    RuntimeTemplate,
};
use kirie::scene::Scene;
use kirie::script::ScriptValue;
use kirie::script_setup::script_setup;
use kirie::scripting::{CameraOp, ParticleOp, PropTarget, PropUpdate, SceneOp, ScriptHost, TickOutput};
use kirie::setup::{parent_table, visibility_table};
use kirie::stage::{apply_scene_property, ParticleScalar, Stage};
use kirie::transforms::{is_affected, place_chain, LocalXf};
use kirie::value::{Scalar, Vec2, Vec3};
use kirie::visibility::{
    ancestors_visible, collect_effect_vis_bindings, collect_structural_props,
    collect_visibility_bindings, effects_diverge, property_impact, PropertyImpact,
};

const ONE: u32 = 0x3f80_0000;

fn number(s: &Scalar) -> f32 {
    match s {
        Scalar::Single(b) => f32::from_bits(*b),
        Scalar::Int(i) => *i as f32,
        Scalar::UInt(u) => *u as f32,
        Scalar::Real(b) => f64::from_bits(*b) as f32,
        Scalar::Lexeme(t) => t.parse().unwrap_or(0.0),
        Scalar::Wide(t) => t.parse::<f64>().unwrap_or(0.0) as f32,
        Scalar::Channel(i) => *i as f32 / 255.0,
        Scalar::Degrees(x) => number(x).to_degrees(),
        Scalar::Radians(x) => number(x).to_radians(),
    }
}

fn image(id: i64) -> ImageItem {
    ImageItem {
        id,
        parent: None,
        passes: vec![],
        alpha: Scalar::Single(ONE),
        brightness: Scalar::Single(ONE),
        color: Vec3::same(ONE),
        color_alpha: Scalar::Single(ONE),
        visible: true,
        reads_scene: false,
        offscreen_donor: false,
        parallax_depth: Vec2::same(0),
    }
}

fn particles(id: i64) -> SceneItem {
    SceneItem::Particle(ParticleItem { id, visible: true, rate: None })
}

fn text(id: i64) -> TextItem {
    TextItem {
        id,
        visible: true,
        blank: false,
        text: "old".to_owned(),
        origin: Vec2::same(0),
        scale: Vec2::same(ONE),
        tint: Vec3::same(ONE),
        alpha: Scalar::Single(ONE),
    }
}

fn solid(id: i64, reads_scene: bool) -> SceneItem {
    SceneItem::Model(ModelItem {
        id,
        visible: true,
        reads_scene,
        animated: false,
        origin: Vec3::same(0),
        scale: Vec3::same(ONE),
        angles: Vec3::same(0),
    })
}

fn update(object_id: i64, target: PropTarget, value: ScriptValue) -> PropUpdate {
    PropUpdate { object_id, target, value, in_degrees: false }
}

fn vec3(v: [f32; 3]) -> ScriptValue {
    ScriptValue::Vec3(v.map(f32::to_bits))
}

fn float(v: f64) -> ScriptValue {
    ScriptValue::Float(v.to_bits())
}

fn scene(objects: &str) -> SceneModel {
    let json = format!(
        r#"{{ "camera": {{ "eye": "0 0 1", "center": "0 0 0", "up": "0 1 0" }},
             "general": {{ "bloom": {{ "value": false, "user": "glow" }},
                           "orthogonalprojection": {{ "width": 64, "height": 64 }} }},
             "objects": [ {objects} ] }}"#
    );
    SceneModel::resolve(Scene::from_slice(json.as_bytes()).expect("a scene"), &PropertyBag::new())
}

const SCRIPTED: &str = r#"{ "id": 1, "image": "a.json",
    "alpha": { "value": 1.0, "script": "export function update(v){ return v; }" } }"#;

fn stage(model: SceneModel, items: Vec<SceneItem>) -> Stage {
    let scene = model.scene;
    Stage {
        items,
        runtime: RuntimeLayers::new(),
        templates: vec![],
        parents: parent_table(&scene),
        visible: visibility_table(&scene),
        locals: HashMap::new(),
        bindings: collect_visibility_bindings(&scene),
        effect_bindings: collect_effect_vis_bindings(&scene),
        structural: collect_structural_props(&scene),
        general: scene.general,
        camera: scene.camera,
        videos: vec![],
        video_users: vec![],
    }
}

fn host() -> ScriptHost {
    let setup = script_setup(&scene(SCRIPTED).scene, &PropertyBag::new(), true).expect("a script");
    let loaded = vec![true; setup.pending.len()];
    ScriptHost::start(setup, &loaded, &vec![]).expect("it loads")
}

fn run(host: &mut ScriptHost, ops: Vec<SceneOp>) {
    host.begin_tick();
    host.end_tick(Some(&TickOutput { property_results: vec![], ops }));
}

fn place(parent: Option<i64>) -> LocalXf {
    LocalXf {
        origin: Vec2::same(0),
        scale: Vec2::same(ONE),
        angle_z: Scalar::Single(0),
        parent,
    }
}

#[test]
fn items_are_drawn_in_order_and_readers_behind_a_copy() {
    let donor = ImageItem { offscreen_donor: true, visible: false, ..image(4) };
    let reader = ImageItem { reads_scene: true, ..image(2) };
    let hidden = ImageItem { visible: false, ..image(3) };
    let orphan = ImageItem { parent: Some(3), ..image(5) };
    let blank = TextItem { blank: true, ..text(6) };
    let items = vec![
        SceneItem::Image(image(1)),
        SceneItem::Image(reader),
        SceneItem::Image(hidden),
        SceneItem::Image(donor),
        SceneItem::Image(orphan),
        SceneItem::Text(blank),
        SceneItem::Text(text(7)),
        particles(8),
        solid(9, true),
    ];
    let parents: HashMap<i64, Option<i64>> = [(8, Some(3)), (7, None)].into_iter().collect();
    let visible: HashMap<i64, bool> = [(3, false)].into_iter().collect();
    let tree = Tree { parents: &parents, visible: &visible };
    assert_eq!(
        draw_steps(&items, &tree, true),
        [
            DrawStep::Image(3),
            DrawStep::Image(0),
            DrawStep::Snapshot,
            DrawStep::Image(1),
            DrawStep::Text(6),
            DrawStep::Snapshot,
            DrawStep::Model(8)
        ]
    );
    assert_eq!(
        draw_steps(&items, &tree, false),
        [
            DrawStep::Image(3),
            DrawStep::Image(0),
            DrawStep::Image(1),
            DrawStep::Text(6),
            DrawStep::Model(8)
        ]
    );
    assert!(needs_snapshot(&items, false) && needs_depth(&items));
    let plain = vec![SceneItem::Image(image(1))];
    assert!(!needs_snapshot(&plain, false) && needs_snapshot(&plain, true) && !needs_depth(&plain));
    assert_eq!(debug_particle_count(&items), 1);
    assert_eq!(debug_text_count(&items), 2);
    assert_eq!(debug_pass_count(&items), 0);
}

#[test]
fn a_scene_without_motion_is_static() {
    let still = Motion {
        scripts: false,
        audio: false,
        videos: false,
        atlases: false,
        runtime_layers: false,
        parallax: true,
        disable_parallax: true,
    };
    let plain = vec![SceneItem::Image(image(1))];
    assert_eq!(redraw_hint(&plain, &still), RedrawHint::Static);
    let follows = Motion { disable_parallax: false, ..still };
    assert_eq!(redraw_hint(&plain, &follows), RedrawHint::Unknown);
    let scripted = Motion { scripts: true, ..still };
    assert_eq!(redraw_hint(&plain, &scripted), RedrawHint::Unknown);
    assert_eq!(redraw_hint(&vec![particles(1)], &still), RedrawHint::Unknown);
}

fn pass(json: &str) -> Pass {
    let text = format!(r#"{{ "passes": [ {json} ] }}"#);
    let value = kirie::json::parse(text.as_bytes()).expect("a document");
    Material::from_value(&value).passes.remove(0)
}

fn live(effect_index: Option<usize>, json: &str) -> LivePass {
    LivePass {
        effect_index,
        material_pass: pass(json),
        params_vs: Default::default(),
        params_fs: std::sync::Arc::new(vec![kirie::params::Parameter {
            name: "g_A".to_owned(),
            material: "amount".to_owned(),
            ty: kirie::params::ParamType::Float,
            default: None,
        }]),
        vs_params: kirie::table::TextMap::new(),
        fs_params: kirie::table::TextMap::new(),
    }
}

#[test]
fn videos_play_only_while_they_are_displayed() {
    let mut shows = image(1);
    shows.passes = vec![live(None, r#"{ "shader": "s", "textures": [null, "clip"] }"#)];
    let items = vec![SceneItem::Image(image(2)), SceneItem::Image(shows)];
    assert_eq!(video_users(&items, "clip"), [1]);
    assert!(video_users(&items, "other").is_empty());
    assert!(displayed(&items, &vec![1]));
    assert!(displayed(&items, &vec![]));
    let mut v = VideoState { paused: false, script_paused: false };
    let t = v.turn(false);
    assert_eq!((t.set_pause, t.takes_frame, v.paused), (Some(true), false, true));
    let t = v.turn(false);
    assert_eq!((t.set_pause, t.takes_frame), (None, false));
    let t = v.turn(true);
    assert_eq!((t.set_pause, t.takes_frame), (Some(false), true));

    let mut videos = vec![v, v];
    let users = vec![vec![1], vec![]];
    let ops = vec![
        (1, "pause".to_owned(), 0),
        (1, "rate".to_owned(), 2.0f64.to_bits()),
        (9, "pause".to_owned(), 0),
        (1, "jump".to_owned(), 0),
    ];
    let speeds = video_orders(&mut videos, &users, &items, &ops);
    assert_eq!(speeds, [(0, 2.0f64.to_bits())]);
    assert!(videos[0].script_paused && !videos[1].script_paused);
    assert!(!videos[0].turn(true).takes_frame);
}

#[test]
fn pages_are_uploaded_where_they_fit() {
    let pages = vec![(8, 8), (8, 8), (4, 4)];
    assert_eq!(page_turn(1, 0, &pages, (8, 8)), (true, 1));
    assert_eq!(page_turn(0, 0, &pages, (8, 8)), (false, 0));
    assert_eq!(page_turn(2, 0, &pages, (8, 8)), (false, 0));
    assert_eq!(page_turn(3, 1, &pages, (8, 8)), (false, 1));
}

#[test]
fn items_are_sorted_by_the_order_of_the_layers() {
    let mut items: Vec<SceneItem> = vec![
        SceneItem::Image(image(1)),
        particles(9),
        SceneItem::Text(text(2)),
        particles(1),
    ];
    let order = vec![2, 1];
    assert_eq!(layer_place(&order, 1), 1);
    assert_eq!(layer_place(&order, 7), i64::MAX);
    sort_items(&mut items, &order);
    assert_eq!(items.iter().map(item_id).collect::<Vec<_>>(), [2, 1, 1, 9]);
    assert!(matches!(items[1], SceneItem::Image(_)));
}

#[test]
fn updates_touch_their_object_alone() {
    let mut items = vec![SceneItem::Image(image(1)), SceneItem::Text(text(2)), particles(3), solid(4, false)];
    let updates = vec![
        update(1, PropTarget::Alpha, float(0.5)),
        update(1, PropTarget::Color, vec3([0.25, 0.5, 0.75])),
        update(2, PropTarget::Visible, ScriptValue::Bool(false)),
        update(2, PropTarget::Text, ScriptValue::Str("new".to_owned())),
        update(2, PropTarget::Origin, vec3([7.0, 8.0, 9.0])),
        update(4, PropTarget::Origin, vec3([1.0, 2.0, 3.0])),
        update(3, PropTarget::Visible, float(0.0)),
    ];
    apply_script_updates(&mut items, &updates);
    match (&items[0], &items[1], &items[3]) {
        (SceneItem::Image(i), SceneItem::Text(t), SceneItem::Model(m)) => {
            assert_eq!(number(&i.alpha), 0.5);
            assert_eq!(number(&i.color.y), 0.5);
            assert!(!t.visible);
            assert_eq!(t.text, "old");
            assert_eq!(number(&t.origin.x), 0.0);
            assert_eq!(number(&m.origin.z), 3.0);
        }
        _ => unreachable!(),
    }
    assert!(is_visible(&items[2]));
    apply_aspect(&mut items, &updates, Aspect::Place);
    apply_aspect(&mut items, &updates, Aspect::Words);
    match &items[1] {
        SceneItem::Text(t) => {
            assert_eq!(number(&t.origin.y), 8.0);
            assert_eq!(t.text, "new");
        }
        _ => unreachable!(),
    }
}

#[test]
fn constants_are_set_on_the_passes_of_their_effect() {
    let mut layer = image(1);
    layer.passes = vec![live(None, r#"{ "shader": "s" }"#), live(Some(0), r#"{ "shader": "s" }"#)];
    let mut items = vec![SceneItem::Image(layer), SceneItem::Image(image(2))];
    apply_material_op(&mut items, 1, 0, "amount", &float(0.25));
    match &items[0] {
        SceneItem::Image(o) => {
            assert!(o.passes[0].fs_params.get("g_A").is_none());
            let v = o.passes[1].fs_params.get("g_A").expect("a value");
            assert_eq!(v.values.iter().map(number).collect::<Vec<_>>(), [0.25]);
        }
        _ => unreachable!(),
    }
    apply_material_op(&mut items, 1, 0, "amount", &ScriptValue::Null);
    match &items[0] {
        SceneItem::Image(o) => {
            assert_eq!(number(&o.passes[1].fs_params.get("g_A").expect("a value").values[0]), 0.25)
        }
        _ => unreachable!(),
    }
}

#[test]
fn orders_reach_the_particles_of_their_object() {
    let items = vec![particles(3), SceneItem::Image(image(3)), particles(3), particles(4)];
    let ops = vec![
        ParticleOp::Command { id: 3, cmd: "stop".to_owned() },
        ParticleOp::Command { id: 3, cmd: "fly".to_owned() },
        ParticleOp::Emit { id: 4, count: 5 },
        ParticleOp::Instance { id: 4, name: "controlpoint+2".to_owned(), value: vec3([1.0, 2.0, 3.0]) },
        ParticleOp::Instance { id: 4, name: "controlpointx".to_owned(), value: vec3([1.0, 2.0, 3.0]) },
        ParticleOp::Instance { id: 4, name: "colorn".to_owned(), value: vec3([0.5, 0.5, 0.5]) },
        ParticleOp::Instance { id: 4, name: "rate".to_owned(), value: float(2.0) },
        ParticleOp::Instance { id: 4, name: "rate".to_owned(), value: ScriptValue::Null },
    ];
    let calls = particle_orders(&items, &ops);
    assert_eq!(calls.iter().map(|c| c.item).collect::<Vec<_>>(), [0, 2, 3, 3, 3, 3]);
    assert!(matches!(calls[0].act, ParticleAct::Stop));
    assert!(matches!(calls[2].act, ParticleAct::Emit(5)));
    assert!(matches!(&calls[3].act, ParticleAct::ControlPoint { index: 2, at } if number(&at.y) == 2.0));
    assert!(matches!(&calls[4].act, ParticleAct::Color(c) if number(&c.x) == 0.5));
    assert!(matches!(&calls[5].act, ParticleAct::Scalar { name, value } if name == "rate" && number(value) == 2.0));
}

#[test]
fn indices_are_read_as_whole_numbers() {
    let read = |s: &str| parse_index(&s.chars().collect::<Vec<char>>());
    assert_eq!(read("0"), Some(0));
    assert_eq!(read("+12"), Some(12));
    assert_eq!(read("18446744073709551615"), Some(usize::MAX));
    assert_eq!(read("18446744073709551616"), None);
    assert_eq!(read(""), None);
    assert_eq!(read("+"), None);
    assert_eq!(read("-1"), None);
    assert_eq!(read("1 "), None);
}

fn template(path: &str, texture: Option<&str>) -> RuntimeTemplate {
    RuntimeTemplate {
        path: path.to_owned(),
        texture: texture.map(str::to_owned),
        tint: Vec3::same(0),
        alpha: Scalar::Single(0.5f32.to_bits()),
    }
}

#[test]
fn runtime_layers_are_drawn_in_order_and_in_runs() {
    let mut layers = RuntimeLayers::new();
    let templates = vec![template("a.json", Some("a")), template("b.json", None)];
    let created: Vec<(i64, String)> = [(100, "a.json"), (101, "a.json"), (102, "b.json"), (103, "none"), (100, "b.json")]
        .iter()
        .map(|(i, p)| (*i, p.to_string()))
        .collect();
    layers.create_all(&created, &templates);
    assert_eq!(layers.layers.len(), 4);
    assert_eq!(layers.next, 5);
    assert_eq!(layers.layers[0].texture.as_deref(), Some("a"));
    assert_eq!(number(&layers.layers[0].tint_alpha), 0.5);
    assert_eq!(number(&layers.layers[3].tint_alpha), 1.0);
    assert_eq!(runtime_draw_order(&layers), [100, 101, 102, 103]);
    let (parents, visible) = (HashMap::new(), HashMap::new());
    let tree = Tree { parents: &parents, visible: &visible };
    let drawn = drawn_layers(&layers, &tree);
    let runs: Vec<(Option<String>, u32, u32)> = layer_batches(&layers, &drawn)
        .into_iter()
        .map(|b| (b.texture, b.first, b.count))
        .collect();
    assert_eq!(runs, [(Some("a".to_owned()), 0, 12), (None, 12, 12)]);

    layers.sort(&vec![103, 101, 100, 102]);
    assert_eq!(runtime_draw_order(&layers), [103, 101, 100, 102]);
    layers.apply_runtime_updates(&vec![
        update(101, PropTarget::Alpha, ScriptValue::Int(0)),
        update(102, PropTarget::Visible, ScriptValue::Bool(false)),
        update(100, PropTarget::Origin, vec3([4.0, 5.0, 6.0])),
    ]);
    let left: Vec<i64> =
        drawn_layers(&layers, &tree).into_iter().map(|i| layers.layers[i].id).collect();
    assert_eq!(left, [103, 100]);
    assert!(layers.remove(103) && !layers.remove(103));
    assert!(!layers.is_empty());
    assert!(!Level::Real((-1.0f64).to_bits()).is_above_zero() && Level::Int(1).is_above_zero());
}

#[test]
fn vertex_buffers_grow_with_the_layers() {
    assert_eq!(vertex_buffer(1, None), (4096, true));
    assert_eq!(vertex_buffer(1, Some(4096)), (4096, false));
    let (bytes, grown) = vertex_buffer(100, Some(4096));
    assert!(grown && bytes >= 100 * 6 * 32);
}

#[test]
fn moving_a_parent_moves_what_hangs_from_it() {
    let mut locals = HashMap::new();
    locals.insert(1, place(None));
    locals.insert(2, place(Some(1)));
    locals.insert(3, place(None));
    assert!(is_affected(&locals, &vec![1], 2));
    assert!(!is_affected(&locals, &vec![1], 3));
    assert_eq!(place_chain(2, &locals).len(), 2);
    assert_eq!(place_chain(9, &locals).len(), 0);
    let items = vec![SceneItem::Image(image(2)), SceneItem::Image(image(3)), SceneItem::Image(image(1))];
    let mut s = stage(scene(SCRIPTED), items);
    s.locals = locals;
    let moved = s.apply_updates(&vec![update(1, PropTarget::Origin, vec3([3.0, 4.0, 0.0]))], true);
    assert_eq!(moved, [0, 2]);
    assert_eq!(number(&s.locals[&1].origin.y), 4.0);
}

#[test]
fn scripts_change_the_scene() {
    let mut s = stage(scene(SCRIPTED), vec![SceneItem::Image(image(1)), particles(5)]);
    s.templates = vec![template("a.json", Some("a"))];
    let mut h = host();
    run(
        &mut h,
        vec![
            SceneOp::CreateLayer { layer_id: 900, path: "a.json".to_owned(), text: None },
            SceneOp::CreateLayer { layer_id: 901, path: "x.json".to_owned(), text: None },
            SceneOp::DestroyLayer { layer_id: 901 },
            SceneOp::DestroyLayer { layer_id: 5 },
            SceneOp::SetParent { layer_id: 1, parent: Some(900) },
            SceneOp::SetCameraTransforms {
                op: CameraOp {
                    eye: Some([0, 0, 2.0f32.to_bits()]),
                    center: None,
                    up: None,
                    fov: None,
                    zoom: Some(1.5f32.to_bits()),
                },
            },
            SceneOp::SetSceneProperty { name: "bloom".to_owned(), value: ScriptValue::Bool(true) },
            SceneOp::SetSceneProperty { name: "bloomstrength".to_owned(), value: float(3.0) },
            SceneOp::EmitParticles { layer_id: 5, count: 2 },
        ],
    );
    let errands = s.apply_script_scene_ops(&mut h);
    assert!(s.runtime.layers.iter().any(|l| l.id == 900));
    assert!(s.runtime.layers.iter().all(|l| l.id != 901));
    assert!(!is_visible(&s.items[1]));
    assert_eq!(s.visible.get(&5), Some(&false));
    assert_eq!(s.parents.get(&1), Some(&Some(900)));
    assert_eq!(errands.zoom, Some(1.5f32.to_bits()));
    assert!(errands.tune_bloom);
    assert!(s.general.bloom.value);
    assert_eq!(number(&s.general.bloomstrength.value), 3.0);
    assert!(matches!(errands.particles[..], [_] if matches!(errands.particles[0].act, ParticleAct::Emit(2))));
    let again = s.apply_script_scene_ops(&mut h);
    assert!(again.zoom.is_none() && !again.tune_bloom && again.particles.is_empty());
}

#[test]
fn scene_settings_take_fitting_values_only() {
    let mut g = scene(SCRIPTED).scene.general;
    assert!(!apply_scene_property(&mut g, "clearcolor", &vec3([0.1, 0.2, 0.3])));
    assert_eq!(number(&g.clearcolor.value.g), 0.2);
    assert_eq!(number(&g.clearcolor.value.a), 1.0);
    assert!(!apply_scene_property(&mut g, "clearcolor", &ScriptValue::Null));
    assert_eq!(number(&g.clearcolor.value.b), 0.3);
    assert!(apply_scene_property(&mut g, "bloomthreshold", &ScriptValue::Null));
    assert!(!apply_scene_property(&mut g, "nothing", &float(1.0)));
}

#[test]
fn animations_reach_constants_particles_and_widths() {
    let mut layer = image(1);
    layer.passes = vec![live(Some(2), r#"{ "shader": "s" }"#)];
    let mut s = stage(scene(SCRIPTED), vec![SceneItem::Image(layer), particles(5), SceneItem::Text(text(6))]);
    let (calls, widths) = s.apply_animation_side_effects(
        &vec![(1, 2, "amount".to_owned(), float(0.75))],
        &vec![ParticleScalar { id: 5, name: "rate".to_owned(), value: ONE }],
        &vec![(6, 9.0f32.to_bits()), (5, ONE)],
    );
    assert_eq!(calls.len(), 1);
    assert_eq!(calls[0].item, 1);
    assert_eq!(widths, [(2, 9.0f32.to_bits())]);
    match &s.items[0] {
        SceneItem::Image(o) => {
            assert_eq!(number(&o.passes[0].fs_params.get("g_A").expect("a value").values[0]), 0.75)
        }
        _ => unreachable!(),
    }
    let changed = s.apply_words(&vec![
        update(6, PropTarget::Text, ScriptValue::Str("new".to_owned())),
        update(1, PropTarget::Text, ScriptValue::Str("new".to_owned())),
    ]);
    assert_eq!(changed, [2]);
}

const BOUND: &str = r#"{ "id": 1, "image": "a.json",
    "visible": { "value": true, "user": "show" },
    "effects": [ { "file": "e.json", "visible": { "value": true, "user": "blur" } } ] },
  { "id": 2, "parent": 1, "particle": "p.json", "visible": { "value": true, "user": "sparks" } }"#;

fn flag(name: &str, on: bool) -> PropertyBag {
    let mut bag = PropertyBag::new();
    bag.insert(name, PropertyValue::Bool(on));
    bag
}

#[test]
fn changed_properties_show_and_hide_layers() {
    let mut s = stage(scene(BOUND), vec![SceneItem::Image(image(1)), particles(2)]);
    assert!(ancestors_visible(&s.parents, &s.visible, Some(1)));
    let bag = flag("show", false);
    s.take_properties(&bag);
    assert!(!is_visible(&s.items[0]));
    assert_eq!(s.visible.get(&1), Some(&false));
    assert!(!ancestors_visible(&s.parents, &s.visible, Some(1)));
    let (impact, errands, moved) = s.finish_property(None, &vec![], "show", &bag);
    assert_eq!(impact, PropertyImpact::Live);
    assert!(errands.is_none() && moved.is_empty());
    s.take_properties(&flag("show", true));
    assert!(is_visible(&s.items[0]));
}

#[test]
fn structural_properties_ask_for_a_new_scene() {
    let model = scene(BOUND);
    let names = collect_structural_props(&model.scene);
    assert_eq!(property_impact(&names, "glow", false), PropertyImpact::NeedsRebuild);
    assert_eq!(property_impact(&names, "other", false), PropertyImpact::Live);
    assert_eq!(property_impact(&names, "other", true), PropertyImpact::NeedsRebuild);
    let mut effects = collect_effect_vis_bindings(&model.scene);
    assert_eq!(effects.len(), 1);
    assert!(effects_diverge(&mut effects, &flag("blur", false)));
    assert!(!effects_diverge(&mut effects, &flag("blur", true)));
    let mut s = stage(scene(BOUND), vec![]);
    let (impact, _, _) = s.finish_property(None, &vec![], "blur", &flag("blur", false));
    assert_eq!(impact, PropertyImpact::NeedsRebuild);
}

#[test]
fn chains_of_parents_end() {
    let parents: HashMap<i64, Option<i64>> = [(1, Some(2)), (2, Some(1))].into_iter().collect();
    let visible = HashMap::new();
    assert!(ancestors_visible(&parents, &visible, Some(1)));
    assert!(ancestors_visible(&parents, &visible, None));
    assert!(matches!(scene(BOUND).scene.objects[1].kind, ObjectKind::Particle(_)));
}
