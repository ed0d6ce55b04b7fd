use std::collections::HashMap;
use std::sync::Arc;

use kirie::assets::{read_asset, AssetSource};
use kirie::draw::{
    draw_target, effect_mvp_of, mvp_inverse_of, mvp_of, takes_atlas_frame, DrawTarget, InverseMatrix,
    PassMatrix,
};
use kirie::encoder::{set_unbatched_passes, FrameEncoder, LoadOp, PassBatching, ScenePass};
use kirie::fonts::{BundledFonts, FontLookup};
use kirie::json::parse;
use kirie::loading::{
    apply_property_override, entry_candidate, package_candidate, scene_entry, scene_package,
    user_properties, without_renderer, SceneLoadError,
};
use kirie::material::{Blending, Material, Pass};
use kirie::media::{hex_rgb, media_frame, parse_utc_offset, MediaChanges, MediaEvent};
use kirie::models::{mesh_pass, model_texture_sizes, shader_files, TextureSize};
use kirie::object::ObjectKind;
use kirie::order::draw_positions;
use kirie::params::{resolve_params, ParamType, Parameter};
use kirie::plan::{Geometry, PassOutput};
use kirie::property::{PropertyBag, PropertyValue, TextReading};
use kirie::raster::{ceil_clamp, retexts, sets_text, Block, TextRaster, MAX_EDGE};
use kirie::resolve::SceneModel;
use kirie::scene::{Projection, Scene};
use kirie::setup::{
    auto_projection, builds_particles, donor_positions, is_donor, parent_table, particle_material,
    particle_seed, projection_size, remaining_images, shown_objects, visibility_table,
    wanted_animation, SceneError,
};
use kirie::sharing::intern_params;
use kirie::slots::{model_slot_texture, slot_texture, SamplerSlot, Target, TargetNames, Texture};
use kirie::textures::{TextureCache, TextureLookup, Variant};
use kirie::templates::{collect_runtime_templates, remap, wanted_templates};
use kirie::value::{
    coerce_bool, coerce_i64, parse_color, parse_vec2, parse_vec3, Color, ColorError, DynamicValue,
    Scalar, Vec3, VecError,
};
use kirie::wiring::{survivor as survivor_of, wire_layer, InputSource, LayerContext, Survivor};

fn number(s: &Scalar) -> f32 {
    match s {
        Scalar::Single(b) => f32::from_bits(*b),
        Scalar::Int(i) => *i as f32,
        Scalar::UInt(u) => *u as f32,
        Scalar::Real(b) => f64::from_bits(*b) as f32,
        Scalar::Lexeme(t) => t.parse().unwrap_or(0.0),
        Scalar::Wide(t) => t.parse::<f64>().unwrap_or(0.0) as f32,
        Scalar::Channel(i) => *i as f32 / 255.0,
        Scalar::Degrees(x) => number(x).to_degrees(),
        Scalar::Radians(x) => number(x).to_radians(),
    }
}

fn vector(v: &Vec3) -> [f32; 3] {
    [number(&v.x), number(&v.y), number(&v.z)]
}

fn rgba(c: &Color) -> [f32; 4] {
    [number(&c.r), number(&c.g), number(&c.b), number(&c.a)]
}

struct Files(HashMap<&'static str, &'static str>);

impl AssetSource for Files {
    fn load(&self, path: &str) -> Option<Vec<u8>> {
        self.0.get(path).map(|s| s.as_bytes().to_vec())
    }
}

fn files(of: &[(&'static str, &'static str)]) -> Files {
    Files(of.iter().copied().collect())
}

fn scene(objects: &str) -> Scene {
    let json = format!(
        r#"{{ "camera": {{ "eye": "0 0 1", "center": "0 0 0", "up": "0 1 0" }},
             "general": {{}}, "objects": [ {objects} ] }}"#
    );
    Scene::from_slice(json.as_bytes()).expect("a scene")
}

fn pass(json: &str) -> Pass {
    let text = format!(r#"{{ "passes": [ {json} ] }}"#);
    let value = parse(text.as_bytes()).expect("a document");
    Material::from_value(&value).passes.remove(0)
}

#[test]
fn files_are_loaded_and_faults_noted() {
    let source = files(&[
        ("models/a.json", r#"{ "material": "materials/a.json" }"#),
        ("materials/a.json", r#"{ "passes": [ { "shader": "genericimage2" } ] }"#),
        ("effects/e.json", r#"{ "passes": [ { "material": "materials/e.json" }, { "material": "gone.json" } ] }"#),
        ("materials/e.json", r#"{ "passes": [ { "shader": "blur" } ] }"#),
        ("models/b.json", r#"{ "nothing": 1 }"#),
        ("models/c.json", "{"),
    ]);
    let objects = r#"
        { "id": 1, "image": "models/a.json", "effects": [ { "file": "effects/e.json" } ] },
        { "id": 2, "image": "models/b.json" },
        { "id": 3, "image": "models/c.json" },
        { "id": 4, "particle": "particles/gone.json" }"#;
    let bag = PropertyBag::new();
    let mut model = SceneModel::resolve(scene(objects), &bag);
    let problems = model.load_assets(&source, &bag);
    let paths: Vec<&str> = problems.iter().map(|p| p.path.as_str()).collect();
    assert_eq!(paths, ["gone.json", "models/b.json", "models/c.json", "particles/gone.json"]);
    assert_eq!(problems[0].reason, "asset not found");
    assert_eq!(problems[1].reason, "model file: required key `material` missing");
    assert!(problems[2].reason.starts_with("invalid JSON: "));
    let ObjectKind::Image(i) = &model.scene.objects[0].kind else {
        panic!("an image");
    };
    assert_eq!(i.material.as_ref().expect("a material").passes[0].shader, "genericimage2");
    let effect = i.effects[0].resolved.as_ref().expect("an effect file");
    assert_eq!(effect.passes[0].resolved.as_ref().expect("a material").passes[0].shader, "blur");
    assert!(effect.passes[1].resolved.is_none());

    let mut noted = vec![];
    assert!(read_asset("x", Some(b"{}".to_vec()), &mut noted).is_some());
    assert!(noted.is_empty());
    assert!(read_asset("x", None, &mut noted).is_none());
    assert_eq!(noted.len(), 1);
}

#[test]
fn layers_of_scripts_look_like_their_models() {
    let objects = r#"{ "id": 1, "image": "a.json", "alpha": { "value": 1,
        "script": "let a = thisScene.createLayer('models/bar.json'); thisScene.createLayer(\"models/own.json\"); createLayer('')" } }"#;
    let s = scene(objects);
    let wanted = wanted_templates(&s);
    assert_eq!(wanted.iter().map(|w| w.path.as_str()).collect::<Vec<_>>(), ["models/bar.json", "models/own.json"]);
    let source = files(&[
        ("models/bar.json", r#"{ "material": "materials/bar.json" }"#),
        ("materials/bar.json", r#"{ "passes": [ { "textures": ["white"],
            "constantshadervalues": { "Color": "1 0.5 0.25", "alpha": 0.5 } } ] }"#),
    ]);
    let made = collect_runtime_templates(&s, &source, &vec![]);
    assert_eq!(made.len(), 1);
    assert_eq!(made[0].path, "models/bar.json");
    assert_eq!(made[0].texture.as_deref(), Some("white"));
    assert_eq!(vector(&made[0].tint), [1.0, 0.5, 0.25]);
    assert_eq!(number(&made[0].alpha), 0.5);
    assert_eq!(remap("models/a.json", &Some("7".to_owned())).as_deref(), Some("models/workshop/7/a.json"));
    assert_eq!(remap("a.json", &Some("7".to_owned())), None);
    assert_eq!(remap("models/a.json", &None), None);
}

#[test]
fn scenes_take_a_size() {
    assert_eq!(auto_projection((10, 20), (1, 2)), (10, 20));
    assert_eq!(auto_projection((10, 0), (1, 2)), (1, 2));
    assert_eq!(auto_projection((0, 0), (0, 2)), (1920, 1080));
    let own = Projection::Orthogonal { width: 640, height: 480 };
    assert_eq!(projection_size(&own, (1, 1), (1, 1)), Ok((640, 480)));
    let wide = Projection::Orthogonal { width: 0x1_0000_0000, height: 5 };
    assert_eq!(
        projection_size(&wide, (1, 1), (1, 1)),
        Err(SceneError::BadProjection { width: 0, height: 5 })
    );
}

const FAMILY: &str = r#"
    { "id": 1, "image": "a.json" },
    { "id": 2, "parent": 1, "image": "b.json", "visible": false },
    { "id": 3, "particle": "p.json" },
    { "id": 4, "image": "c.json", "dependencies": [2] }"#;

#[test]
fn objects_are_chosen_for_building() {
    let s = scene(FAMILY);
    let parents = parent_table(&s);
    assert_eq!(parents.get(&2), Some(&Some(1)));
    assert_eq!(parents.get(&1), Some(&None));
    assert_eq!(visibility_table(&s).get(&2), Some(&false));
    assert!(is_donor(&s, 2) && !is_donor(&s, 1));
    let order = vec![3, 2, 1, 0];
    let donors = donor_positions(&s, &order);
    assert_eq!(donors, [1]);
    assert_eq!(remaining_images(&s, &order, &donors), [3, 0]);
    assert_eq!(shown_objects(&order, &vec![true, false, true, false]), Ok(vec![2, 0]));
    assert_eq!(shown_objects(&order, &vec![false; 4]), Err(SceneError::NoRenderableObjects));
    let ObjectKind::Particle(p) = &s.objects[2].kind else {
        panic!("particles");
    };
    assert!(builds_particles(&s.objects[2], p));
    assert_eq!(particle_seed(0), 0x00C0_FFEE);
    assert_eq!(particle_seed(-1), u64::MAX ^ 0x00C0_FFEE);
    let (texture, blending) = particle_material(&p.system);
    assert!(texture.is_none());
    assert_eq!(blending, Blending::Additive);
    assert_eq!(wanted_animation(&vec![]), None);
}

#[test]
fn draws_share_a_pass_and_unchanged_scenes_are_not_copied() {
    let mut batching = PassBatching { unbatched: false };
    let mut e = FrameEncoder::new(&batching);
    assert_eq!(e.scene(), ScenePass::New(LoadOp::Clear));
    assert_eq!(e.scene(), ScenePass::Open);
    assert_eq!(e.refresh_snapshot(), (false, true));
    assert_eq!(e.refresh_snapshot(), (false, false));
    assert_eq!(e.scene(), ScenePass::New(LoadOp::Load));
    e.offscreen();
    assert_eq!(e.scene(), ScenePass::New(LoadOp::Load));
    e.with_depth();
    assert_eq!(e.refresh_snapshot(), (false, true));
    e.raw();
    assert!(!e.ensure_cleared());
    assert_eq!(e.passes, 5);
    set_unbatched_passes(&mut batching, true);
    let mut e = FrameEncoder::new(&batching);
    assert!(e.ensure_cleared());
    assert_eq!(e.scene(), ScenePass::New(LoadOp::Load));
    assert_eq!(e.refresh_snapshot(), (false, true));
    assert_eq!(e.refresh_snapshot(), (false, true));
}

#[test]
fn faults_of_loading_are_told() {
    assert_eq!(SceneLoadError::Pkg("x".to_owned()).message(), "cannot open scene.pkg: x");
    assert_eq!(
        SceneLoadError::SceneJson("x".to_owned()).message(),
        "cannot read scene.json from scene.pkg: x"
    );
    assert_eq!(SceneLoadError::Parse("x".to_owned()).message(), "cannot parse scene.json: x");
    let bad = SceneError::BadProjection { width: 0, height: 12 };
    assert_eq!(
        SceneLoadError::Build(bad).message(),
        "cannot build scene renderer: scene projection size is degenerate (0x12)"
    );
    assert_eq!(SceneError::NoRenderableObjects.message(), "scene has no renderable objects");
    assert_eq!(without_renderer(SceneError::NoRenderableObjects), Ok(()));
    assert_eq!(without_renderer(bad), Err(SceneLoadError::Build(bad)));
}

#[test]
fn projects_name_their_scene() {
    let named = br#"{ "file": "other.json" }"#;
    assert_eq!(entry_candidate(Some(named)).as_deref(), Some("other.json"));
    assert_eq!(entry_candidate(Some(br#"{ "file": "other.pkg" }"#)), None);
    assert_eq!(entry_candidate(Some(b"{")), None);
    assert_eq!(entry_candidate(None), None);
    assert_eq!(scene_entry(Some("other.json".to_owned()), true), "other.json");
    assert_eq!(scene_entry(Some("other.json".to_owned()), false), "scene.json");
    assert_eq!(scene_entry(None, true), "scene.json");
    assert_eq!(package_candidate(Some(br#"{ "file": "a/gifscene.json" }"#)).as_deref(), Some("gifscene.pkg"));
    assert_eq!(scene_package(Some("gifscene.pkg".to_owned()), true), "gifscene.pkg");
    assert_eq!(scene_package(Some("gifscene.pkg".to_owned()), false), "scene.pkg");
    assert_eq!(scene_package(None, false), "scene.pkg");
}

#[test]
fn overrides_change_known_properties_only() {
    let mut bag = PropertyBag::new();
    bag.insert("on", PropertyValue::Bool(false));
    bag.insert("b", PropertyValue::Bool(true));
    let nothing = TextReading {
        number: None,
        channels: vec![],
        color_shown: String::new(),
        single: 0,
        trimmed_single: 0,
    };
    assert!(apply_property_override(&mut bag, "on", "1", &nothing));
    assert!(!apply_property_override(&mut bag, "off", "1", &nothing));
    let names = vec!["b".to_owned(), "gone".to_owned(), "on".to_owned()];
    let seen: Vec<String> = user_properties(&names, &bag).into_iter().map(|(n, _)| n).collect();
    assert_eq!(seen, ["b", "on"]);
    assert!(matches!(bag.get("on"), Some(PropertyValue::Bool(true))));
}

fn sampler(slot: Option<u32>, default_texture: Option<&str>) -> SamplerSlot {
    SamplerSlot {
        name: "g_Texture".to_owned(),
        slot,
        texture_binding: 1,
        sampler_binding: 2,
        default_texture: default_texture.map(str::to_owned),
        combo: None,
    }
}

#[test]
fn models_take_their_pass_and_sizes() {
    assert_eq!(shader_files("generic4"), ("shaders/generic4.vert".to_owned(), "shaders/generic4.frag".to_owned()));
    assert_eq!(mesh_pass(Some(br#"{ "passes": [ { "shader": "a" }, { "shader": "b" } ] }"#)).expect("a pass").shader, "a");
    assert!(mesh_pass(Some(br#"{ "passes": [] }"#)).is_none());
    assert!(mesh_pass(Some(b"{")).is_none());
    assert!(mesh_pass(None).is_none());
    let p = pass(r#"{ "shader": "s", "textures": ["base", "normal", "_rt_FullFrameBuffer"] }"#);
    let sizes = model_texture_sizes(
        &vec![sampler(Some(0), None), sampler(Some(1), None), sampler(Some(2), None), sampler(Some(3), Some("util/noise"))],
        &p,
    );
    assert!(matches!(sizes[0], TextureSize::Input));
    assert!(matches!(&sizes[1], TextureSize::Texture(n) if n == "normal"));
    assert!(matches!(sizes[2], TextureSize::Scene));
    assert!(matches!(&sizes[3], TextureSize::Texture(n) if n == "util/noise"));
}

fn parameter(name: &str, material: &str, ty: ParamType, default: Option<Vec<f32>>) -> Parameter {
    Parameter {
        name: name.to_owned(),
        material: material.to_owned(),
        ty,
        default: default.map(|d| d.into_iter().map(|v| Scalar::Single(v.to_bits())).collect()),
    }
}

#[test]
fn parameters_come_from_the_pass_or_the_shader() {
    let p = pass(r#"{ "shader": "s", "constantshadervalues": { "amount": 0.5, "tint": "1 2 3" } }"#);
    let got = resolve_params(
        &vec![
            parameter("g_A", "amount", ParamType::Float, Some(vec![9.0])),
            parameter("g_T", "tint", ParamType::Vec3, None),
            parameter("g_B", "other", ParamType::Vec2, Some(vec![4.0, 5.0])),
        ],
        &p,
    );
    let read = |n: &str| got.get(n).map(|v| v.values.iter().map(number).collect::<Vec<_>>());
    assert_eq!(read("g_A"), Some(vec![0.5]));
    assert_eq!(read("g_T"), Some(vec![1.0, 2.0, 3.0]));
    assert_eq!(read("g_B"), Some(vec![4.0, 5.0]));
}

#[test]
fn equal_parameters_are_shared() {
    let mut cache = vec![];
    let list = || vec![parameter("g_A", "amount", ParamType::Float, None)];
    let (a, _) = intern_params(&mut cache, "s", list(), vec![]);
    let (b, _) = intern_params(&mut cache, "s", list(), vec![]);
    assert!(Arc::ptr_eq(&a, &b));
    assert_eq!(cache.len(), 1);
    intern_params(&mut cache, "t", list(), vec![]);
    intern_params(&mut cache, "s", vec![], vec![]);
    assert_eq!(cache.len(), 3);
}

#[test]
fn passes_take_their_matrices_and_targets() {
    assert_eq!(mvp_of(Geometry::Scene), PassMatrix::Screen);
    assert_eq!(effect_mvp_of(Geometry::Pass), PassMatrix::LayerInScreen);
    assert_eq!(mvp_inverse_of(Geometry::Scene), InverseMatrix::Screen);
    assert_eq!(mvp_inverse_of(Geometry::Copy), InverseMatrix::Texture);
    assert_eq!(mvp_inverse_of(Geometry::Pass), InverseMatrix::Absent);
    assert!(takes_atlas_frame(0, true) && !takes_atlas_frame(1, true) && !takes_atlas_frame(0, false));
    let names = vec!["half".to_owned()];
    assert_eq!(draw_target(&PassOutput::Scene, (true, true), &names), (DrawTarget::Scene, false));
    assert_eq!(draw_target(&PassOutput::Fbo(1), (true, true), &names), (DrawTarget::Composite(1), true));
    assert_eq!(
        draw_target(&PassOutput::Named("half".to_owned()), (true, true), &names),
        (DrawTarget::Named(0), true)
    );
}

fn survivor() -> Survivor {
    Survivor {
        pass: pass(r#"{ "shader": "s" }"#),
        target: None,
        binds: vec![],
        is_puppet_base: false,
        effect_index: None,
        vs_samplers: vec![],
        fs_samplers: vec![],
    }
}

#[test]
fn passes_of_a_layer_feed_each_other() {
    let ctx = LayerContext {
        names: TargetNames { cross: vec![], id: 1, fbos: vec![] },
        fullscreen: false,
        offscreen_donor: false,
        layer_reads_scene: false,
    };
    let one = wire_layer(&ctx, &vec![survivor()]);
    assert!(!one.needs_targets && one.final_front.is_none());
    assert!(matches!(one.passes[0].output, PassOutput::Scene));
    assert!(matches!(one.passes[0].input, InputSource::Layer));
    let three = wire_layer(&ctx, &vec![survivor(), survivor(), survivor()]);
    assert!(three.needs_targets && !three.reads_scene);
    assert!(matches!(three.passes[0].input, InputSource::Layer));
    for i in 1..3 {
        let wrote = match three.passes[i - 1].output {
            PassOutput::Fbo(n) => n,
            _ => unreachable!(),
        };
        assert!(matches!(three.passes[i].input, InputSource::Front(n) if n == wrote));
    }
    assert!(matches!(three.passes[2].output, PassOutput::Scene));
}

#[test]
fn survivors_keep_the_constants_that_their_shader_takes() {
    let plan = kirie::plan::PlanPass {
        shader: "s".to_owned(),
        blending: Blending::Normal,
        cull: kirie::material::CullMode::NoCull,
        depthtest: kirie::material::DepthMode::Disabled,
        depthwrite: kirie::material::DepthMode::Disabled,
        pass: pass(r#"{ "shader": "s", "constantshadervalues": { "amount": 1, "Tint": 2, "other": 3 } }"#),
        input: kirie::plan::PassInput::Layer,
        output: PassOutput::Scene,
        geometry: Geometry::Scene,
        effect_index: Some(4),
        target: None,
        binds: vec![],
    };
    let vs = vec![parameter("g_A", "amount", ParamType::Float, None)];
    let fs = vec![parameter("g_T", "tint", ParamType::Float, None)];
    let s = survivor_of(&plan, 0, true, (&vs, &fs), (vec![], vec![]));
    assert!(s.is_puppet_base);
    assert_eq!(s.effect_index, Some(4));
    assert!(s.pass.constantshadervalues.get("amount").is_some());
    assert!(s.pass.constantshadervalues.get("Tint").is_none());
    assert!(s.pass.constantshadervalues.get("other").is_none());
    assert!(!survivor_of(&plan, 1, true, (&vs, &fs), (vec![], vec![])).is_puppet_base);
}

#[test]
fn layers_are_ordered_by_their_keys() {
    assert_eq!(draw_positions(&vec![3, 1, 2, 1], true), [1, 3, 2, 0]);
    assert_eq!(draw_positions(&vec![3, 1, 2, 1], false), [0, 1, 2, 3]);
}

fn song() -> MediaEvent {
    MediaEvent {
        available: true,
        state: 1,
        title: "t".to_owned(),
        artist: "a".to_owned(),
        album: "l".to_owned(),
        position: 0,
        duration: 0,
        art_key: 0,
        has_thumbnail: false,
        primary_color: Some("#ff0080".to_owned()),
        secondary_color: Some("#000000".to_owned()),
        text_color: Some("#ffffff".to_owned()),
        high_contrast_color: Some("#ffffff".to_owned()),
    }
}

#[test]
fn scripts_are_told_of_music_when_it_changes() {
    let mut prev = None;
    let first = media_frame(&song(), &mut prev, false).expect("news");
    assert_eq!(
        first.changes,
        MediaChanges { status: true, playback: true, properties: true, thumbnail: true, timeline: true }
    );
    assert_eq!(vector(&first.colors.expect("colours").primary), [1.0, 0.0, 128.0 / 255.0]);
    assert!(media_frame(&song(), &mut prev, false).is_none());
    let next = media_frame(&MediaEvent { title: "u".to_owned(), text_color: None, ..song() }, &mut prev, false)
        .expect("news");
    assert!(next.changes.properties && !next.changes.status && next.colors.is_none());
    assert!(media_frame(&song(), &mut prev, true).expect("news").changes.timeline);
    assert!(hex_rgb("#12345").is_none() && hex_rgb("1234567").is_none() && hex_rgb("#gg0000").is_none());
}

#[test]
fn offsets_are_read_in_seconds() {
    assert_eq!(parse_utc_offset("+0130"), Some(5400));
    assert_eq!(parse_utc_offset("-0800"), Some(-28800));
    assert_eq!(parse_utc_offset("+02"), Some(7200));
    assert_eq!(parse_utc_offset("0200"), None);
    assert_eq!(parse_utc_offset("+2"), None);
    assert_eq!(parse_utc_offset("+02:00"), None);
}

#[test]
fn vectors_and_colours_are_read() {
    assert_eq!(vector(&parse_vec3("1 2.5 -3").expect("three")), [1.0, 2.5, -3.0]);
    assert!(matches!(parse_vec3("1 2"), Err(VecError::ComponentCount { expected: 3, found: 2 })));
    assert!(matches!(parse_vec2("1 2 3"), Err(VecError::ComponentCount { expected: 2, found: 3 })));
    let one = || Scalar::Single(1.0f32.to_bits());
    assert_eq!(rgba(&parse_color("1 0.5 0", one(), false).expect("a colour")), [1.0, 0.5, 0.0, 1.0]);
    assert_eq!(rgba(&parse_color("#ff0000", one(), false).expect("a colour")), [1.0, 0.0, 0.0, 1.0]);
    assert!(matches!(parse_color("#ff00000", one(), false), Err(ColorError::HexLength { .. })));
    assert!(matches!(parse_color("#gg0000", one(), false), Err(ColorError::HexDigits { .. })));
    assert!(matches!(parse_color("1 2", one(), false), Err(ColorError::ComponentCount { count: 2 })));
}

#[test]
fn values_are_coerced() {
    let v = |s: &str| parse(s.as_bytes()).expect("a document");
    assert_eq!(coerce_bool(&v("true")), Some(true));
    assert_eq!(coerce_bool(&v("0")), Some(false));
    assert_eq!(coerce_i64(&v("\"12\"")), Some(12));
    assert!(matches!(DynamicValue::decode(&v("\"1 2\""), false), DynamicValue::Vec(c) if c.len() == 2));
    assert!(matches!(DynamicValue::decode(&v("null"), false), DynamicValue::Null));
}

#[test]
fn painting_adds_coverage() {
    let mut r = TextRaster::empty(4, 2, 1);
    assert!(!r.any_coverage);
    r.paint(Block { x: 1, y: 0, width: 2, height: 1, coverage: 128 });
    assert!(r.any_coverage);
    let alpha: Vec<u8> = r.pixels.chunks(4).map(|p| p[3]).collect();
    assert_eq!(alpha, [0, 128, 128, 0, 0, 0, 0, 0]);
    r.paint(Block { x: -5, y: -5, width: 2, height: 2, coverage: 255 });
    assert_eq!(r.pixels.chunks(4).map(|p| p[3]).collect::<Vec<_>>(), alpha);
    assert_eq!((TextRaster::blank().width, TextRaster::blank().pixels.len()), (1, 4));
    assert_eq!(sets_text("<b>hi</b>").as_deref(), Some("hi"));
    assert_eq!(sets_text(""), None);
    assert!(retexts("a", "b") && !retexts("a", "a"));
}

#[test]
fn oversize_is_clamped() {
    let clamp = |v: f32| ceil_clamp(v.to_bits());
    assert_eq!(clamp(f32::INFINITY), 1);
    assert_eq!(clamp(-5.0), 1);
    assert_eq!(clamp(1_000_000.0), MAX_EDGE);
    assert_eq!(clamp(63.2), 64);
}

#[test]
fn sides_are_rounded_up() {
    for v in [0.0f32, -0.0, 1e-45, 1e-20, 0.5, 1.0, 1.0000001, 2.0, 4095.5, 4096.0, 4096.5, 9e9, f32::NAN] {
        let want = if !v.is_finite() || v <= 0.0 { 1 } else { (v.ceil() as u32).clamp(1, MAX_EDGE) };
        assert_eq!(ceil_clamp(v.to_bits()), want, "{v}");
    }
}

fn baked_source() -> Files {
    files(&[
        ("models/test.json", r#"{ "material": "materials/test.json" }"#),
        (
            "materials/test.json",
            r#"{ "passes": [ { "shader": "genericimage2", "blending": "translucent" } ] }"#,
        ),
    ])
}

fn build_direct(bag: &PropertyBag) -> SceneModel {
    let json = br#"{
        "camera": { "eye": "0 0 1", "center": "0 0 0", "up": "0 1 0" },
        "general": { "clearcolor": "0.1 0.2 0.3" },
        "objects": [
            {
                "image": "models/test.json",
                "origin": "1 2 3",
                "visible": { "value": true, "user": "show" }
            }
        ]
    }"#;
    let scene = Scene::from_slice(json).expect("synthetic scene parses");
    let mut model = SceneModel::resolve(scene, bag);
    let problems = model.load_assets(&baked_source(), bag);
    assert!(problems.is_empty(), "synthetic assets all resolve: {problems:?}");
    model
}

#[test]
fn defaults_bake_plus_reresolve_equals_direct() {
    let mut defaults = PropertyBag::new();
    defaults.insert("show", PropertyValue::Bool(true));
    let baked_model = build_direct(&defaults);
    assert!(baked_model.scene.objects[0].base.visible.value, "default visible");

    let mut overridden = PropertyBag::new();
    overridden.insert("show", PropertyValue::Bool(false));
    let mut from_bundle = build_direct(&defaults);
    from_bundle.reresolve(&overridden);

    let direct = build_direct(&overridden);
    assert_eq!(
        format!("{from_bundle:?}"),
        format!("{direct:?}"),
        "defaults-bake + reresolve == direct resolve"
    );
    assert!(!from_bundle.scene.objects[0].base.visible.value, "override applied");

    let mut back = from_bundle;
    back.reresolve(&defaults);
    assert_eq!(format!("{back:?}"), format!("{baked_model:?}"), "reresolve to defaults round-trips");
}

#[test]
fn fonts_of_a_scene_are_read_once() {
    let mut fonts = BundledFonts::new();
    assert!(matches!(fonts.lookup("systemfont_arial"), FontLookup::System));
    assert!(matches!(fonts.lookup(" fonts/a.ttf "), FontLookup::Missing(f) if f == "fonts/a.ttf"));
    fonts.record("fonts/a.ttf".to_owned(), Some("A".to_owned()));
    assert!(matches!(fonts.lookup("fonts/a.ttf"), FontLookup::Known(Some(n)) if n == "A"));
}

#[test]
fn textures_are_loaded_once() {
    let mut cache = TextureCache::new();
    assert_eq!(cache.lookup(Variant::Wrapping, "a"), TextureLookup::Load(Variant::Wrapping));
    cache.record(Variant::Wrapping, "a", None);
    assert_eq!(cache.lookup(Variant::Wrapping, "a"), TextureLookup::Load(Variant::Plain));
    cache.record(Variant::Plain, "a", Some(3));
    assert_eq!(cache.lookup(Variant::Wrapping, "a"), TextureLookup::Kept(3));
    cache.record(Variant::Plain, "a", None);
    assert_eq!(cache.lookup(Variant::Plain, "a"), TextureLookup::Kept(3));
    assert_eq!(cache.lookup(Variant::FirstFrame, "a"), TextureLookup::Load(Variant::FirstFrame));
    cache.record(Variant::FirstFrame, "a", Some(4));
    assert_eq!(cache.lookup(Variant::FirstFrame, "a"), TextureLookup::Kept(4));
    cache.record(Variant::Plain, "b", None);
    assert_eq!(cache.lookup(Variant::Plain, "b"), TextureLookup::White);
}

#[test]
fn models_read_the_scene_and_files() {
    let textures = |name: &str| vec![Some(name.to_owned())];
    let read = |name: &str| model_slot_texture(&sampler(Some(0), None), &textures(name));
    assert!(matches!(read("_rt_FullFrameBuffer"), Texture::Scene));
    assert!(matches!(read("_rt_FullFrameBuffer_x"), Texture::Scene));
    assert!(matches!(read("_rt_MipMappedFrameBuffer_2_b"), Texture::Scene));
    assert!(matches!(read("_rt_FullFrameBufferx"), Texture::White(Some(n)) if n == "_rt_FullFrameBufferx"));
    assert!(matches!(read("previous"), Texture::File(n) if n == "previous"));
    assert!(matches!(model_slot_texture(&sampler(Some(0), None), &vec![]), Texture::Input));
    assert!(matches!(model_slot_texture(&sampler(Some(1), None), &vec![]), Texture::White(None)));
    assert!(matches!(model_slot_texture(&sampler(Some(1), Some("n")), &vec![]), Texture::File(n) if n == "n"));
}

#[test]
fn layers_read_their_targets() {
    let names = TargetNames { cross: vec![], id: 7, fbos: vec!["_rt_half".to_owned()] };
    let read = |slot: u32, name: &str| {
        let mut textures = vec![None; slot as usize];
        textures.push(Some(name.to_owned()));
        slot_texture(&sampler(Some(slot), None), &textures, &names)
    };
    assert!(matches!(read(1, "previous"), Texture::Target(Target::Front)));
    assert!(matches!(read(1, "_rt_half_x"), Texture::Target(Target::Named(n)) if n == "_rt_half"));
    assert!(matches!(read(0, "base"), Texture::Input));
    assert!(matches!(read(1, "base"), Texture::File(n) if n == "base"));
    assert!(matches!(read(1, "_rt_FullFrameBuffer_x"), Texture::White(Some(_))));
    assert!(matches!(read(0, "_rt_FullFrameBuffer"), Texture::Scene));
}
