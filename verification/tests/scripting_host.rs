use kirie::property::{PropertyBag, PropertyValue};
use kirie::resolve::SceneModel;
use kirie::scene::Scene;
use kirie::script::{as_f32, as_vec3, ScriptValue};
use kirie::script_setup::{extract_workshop_id, script_setup, Initial, ScriptSetup};
use kirie::scripting::{
    CameraOp, ParticleOp, PropTarget, PropUpdate, SceneOp, ScriptHost, TickOutput,
};
use kirie::table::TextMap;
use kirie::value::{Scalar, Vec3};

fn single(s: &Scalar) -> f32 {
    match s {
        Scalar::Single(b) => f32::from_bits(*b),
        Scalar::Int(i) => *i as f32,
        Scalar::UInt(u) => *u as f32,
        Scalar::Real(b) => f64::from_bits(*b) as f32,
        Scalar::Lexeme(t) => t.parse().unwrap_or(0.0),
        Scalar::Wide(t) => t.parse::<f64>().unwrap_or(0.0) as f32,
        Scalar::Channel(i) => *i as f32 / 255.0,
        Scalar::Degrees(x) => single(x).to_degrees(),
        Scalar::Radians(x) => single(x).to_radians(),
    }
}

fn vector(v: &Vec3) -> [f32; 3] {
    [single(&v.x), single(&v.y), single(&v.z)]
}

fn model(json: &str) -> SceneModel {
    let scene = Scene::from_slice(json.as_bytes()).expect("parse scene.json");
    SceneModel::resolve(scene, &PropertyBag::new())
}

fn setup(model: &SceneModel) -> Option<ScriptSetup> {
    script_setup(&model.scene, &PropertyBag::new(), true)
}

fn start(setup: ScriptSetup, props: &Vec<(String, PropertyValue)>) -> ScriptHost {
    let loaded = vec![true; setup.pending.len()];
    ScriptHost::start(setup, &loaded, props).expect("a script loads")
}

fn tick(
    host: &mut ScriptHost,
    property_results: Vec<(String, ScriptValue)>,
    ops: Vec<SceneOp>,
) -> Vec<PropUpdate> {
    host.begin_tick();
    host.end_tick(Some(&TickOutput { property_results, ops }))
}

fn float(v: f64) -> ScriptValue {
    ScriptValue::Float(v.to_bits())
}

fn vec3(v: [f32; 3]) -> ScriptValue {
    ScriptValue::Vec3(v.map(f32::to_bits))
}

fn combo(text: &str) -> PropertyValue {
    PropertyValue::Combo { text: text.to_owned(), single: 0 }
}

fn scripted(id: i64, script: &str) -> String {
    format!(
        r#"{{
        "camera": {{ "eye": "0 0 100", "center": "0 0 0", "up": "0 1 0" }},
        "general": {{ "orthogonalprojection": {{ "width": 128, "height": 128 }} }},
        "objects": [
            {{
                "id": {id},
                "name": "layer",
                "image": "models/x.json",
                "alpha": {{
                    "value": 1.0,
                    "script": "{script}"
                }}
            }}
        ]
    }}"#
    )
}

#[test]
fn scripted_alpha_changes_over_ticks() {
    let model = model(&scripted(7, "export function update(v) { return engine.runtime; }"));
    let setup = setup(&model).expect("scene has a driveable script");
    let key = setup.pending[0].prop.key.clone();
    assert!(matches!(&setup.pending[0].initial, Initial::Float(s) if single(s) == 1.0));
    let mut host = start(setup, &vec![]);

    let mut last = -1.0_f32;
    let mut saw_update = false;
    for i in 1..=4 {
        let updates = tick(&mut host, vec![(key.clone(), float(0.5 * f64::from(i)))], vec![]);
        for u in updates {
            if u.object_id == 7 && u.target == PropTarget::Alpha {
                let v = single(&as_f32(&u.value).expect("alpha is a scalar"));
                assert!(v > last, "scripted alpha must increase each tick: {v} !> {last}");
                last = v;
                saw_update = true;
            }
        }
    }
    assert!(saw_update, "the alpha script produced no property update");
    assert!(
        last > 0.5,
        "runtime-driven alpha advanced past the first frame: {last}"
    );
}

#[test]
fn retained_frame_refreshes_user_props() {
    let model = model(&scripted(
        5,
        "export function update(v) { return engine.userProperties.mode == 'on' ? 0.9 : 0.1; }",
    ));
    let setup = setup(&model).expect("scene has a driveable script");
    let key = setup.pending[0].prop.key.clone();
    let mut host = start(setup, &vec![("mode".to_owned(), combo("off"))]);

    let mut mode = String::new();
    let mut alpha = |host: &mut ScriptHost| {
        if let Some(props) = host.begin_tick().user_props {
            let Some(ScriptValue::Str(m)) = props.get("mode") else {
                panic!("the mode is a text");
            };
            mode = m.clone();
        }
        let result = if mode == "on" { 0.9 } else { 0.1 };
        let output = TickOutput { property_results: vec![(key.clone(), float(result))], ops: vec![] };
        let updates = host.end_tick(Some(&output));
        let u = updates
            .iter()
            .find(|u| u.object_id == 5 && u.target == PropTarget::Alpha)
            .expect("alpha update present");
        single(&as_f32(&u.value).expect("alpha is a scalar"))
    };

    assert!((alpha(&mut host) - 0.1).abs() < 1e-6);
    host.note_user_property("mode", &combo("on"));
    assert!((alpha(&mut host) - 0.9).abs() < 1e-6);
    assert!((alpha(&mut host) - 0.9).abs() < 1e-6);
}

#[test]
fn text_writes_and_created_layer_writes_reach_updates() {
    let json = r#"{
        "camera": { "eye": "0 0 100", "center": "0 0 0", "up": "0 1 0" },
        "general": { "orthogonalprojection": { "width": 128, "height": 128 } },
        "objects": [
            {
                "id": 9,
                "name": "label",
                "text": "hi",
                "alpha": {
                    "value": 1.0,
                    "script": "var made = null; export function update(v) { return v; }"
                }
            }
        ]
    }"#;
    let model = model(json);
    let mut host = start(setup(&model).expect("host"), &vec![]);
    for t in 0..3 {
        let runtime = 0.5 * f64::from(t + 1);
        let mut ops = vec![SceneOp::SetProperty {
            layer_id: 9,
            name: "text".to_owned(),
            value: ScriptValue::Str(format!("tick {runtime}")),
        }];
        if t == 0 {
            ops.push(SceneOp::CreateLayer {
                layer_id: -1000,
                path: "models/glow.json".to_owned(),
                text: None,
            });
        }
        ops.push(SceneOp::SetProperty {
            layer_id: -1000,
            name: "alpha".to_owned(),
            value: float(runtime),
        });
        let updates = tick(&mut host, vec![], ops);
        assert!(
            updates.iter().any(|u| u.object_id == 9
                && u.target == PropTarget::Text
                && matches!(&u.value, ScriptValue::Str(s) if s.starts_with("tick "))),
            "tick {t}: no Text update for the thisLayer.text write"
        );
        assert!(
            updates
                .iter()
                .any(|u| u.object_id <= -1000 && u.target == PropTarget::Alpha),
            "tick {t}: created-layer alpha write was dropped"
        );
    }
}

#[test]
fn destroy_layer_drains_and_forgets_the_record() {
    let model = model(&scripted(7, "var made = null, t = 0; export function update(v) { return v; }"));
    let mut host = start(setup(&model).expect("host"), &vec![]);

    tick(
        &mut host,
        vec![],
        vec![SceneOp::CreateLayer {
            layer_id: -1000,
            path: "models/glow.json".to_owned(),
            text: None,
        }],
    );
    let created = host.take_created();
    assert_eq!(created.len(), 1, "created: {created:?}");
    let id = created[0].0;
    assert!(host.take_destroyed().is_empty());

    tick(&mut host, vec![], vec![SceneOp::DestroyLayer { layer_id: id }]);
    assert_eq!(host.take_destroyed(), vec![id]);

    let frame = host.begin_tick();
    assert!(
        frame.layers.iter().all(|l| l.id != id),
        "scripts no longer see a destroyed layer"
    );
    let updates = host.end_tick(Some(&TickOutput { property_results: vec![], ops: vec![] }));
    assert!(
        updates.iter().all(|u| u.object_id != id),
        "write to a destroyed layer must no-op: {updates:?}"
    );
}

#[test]
fn parallax_depth_write_reaches_updates() {
    let model = model(&scripted(
        7,
        "export function update(v) { thisLayer.parallaxDepth = new Vec2(2, 3); return v; }",
    ));
    let mut host = start(setup(&model).expect("host"), &vec![]);
    let updates = tick(
        &mut host,
        vec![],
        vec![SceneOp::SetProperty {
            layer_id: 7,
            name: "parallaxDepth".to_owned(),
            value: ScriptValue::Vec2([2.0f32.to_bits(), 3.0f32.to_bits()]),
        }],
    );
    assert!(
        updates.iter().any(|u| u.object_id == 7
            && u.target == PropTarget::ParallaxDepth
            && as_vec3(&u.value).is_some_and(|v| vector(&v)[0] == 2.0 && vector(&v)[1] == 3.0)),
        "no ParallaxDepth update: {updates:?}"
    );
}

#[test]
fn base_origin_leaf_script_is_collected() {
    let json = r#"{
        "camera": { "eye": "0 0 100", "center": "0 0 0", "up": "0 1 0" },
        "general": { "orthogonalprojection": { "width": 128, "height": 128 } },
        "objects": [
            {
                "id": 5,
                "name": "chaser",
                "image": "models/x.json",
                "origin": {
                    "value": "10 20 0",
                    "script": "export function update(v) { return new Vec3(input.cursorWorldPosition.x, input.cursorWorldPosition.y, 0); }"
                }
            }
        ]
    }"#;
    let model = model(json);
    let setup = setup(&model).expect("origin script spawns the host");
    let key = setup.pending[0].prop.key.clone();
    let mut host = start(setup, &vec![]);
    let updates = tick(&mut host, vec![(key, vec3([64.0, 48.0, 0.0]))], vec![]);
    assert!(
        updates.iter().any(|u| u.object_id == 5
            && u.target == PropTarget::Origin
            && as_vec3(&u.value).is_some_and(|v| vector(&v)[0] == 64.0 && vector(&v)[1] == 48.0)),
        "no Origin update from the base-leaf script: {updates:?}"
    );
}

#[test]
fn particle_ops_drain_with_payloads() {
    let json = r#"{
        "camera": { "eye": "0 0 100", "center": "0 0 0", "up": "0 1 0" },
        "general": { "orthogonalprojection": { "width": 128, "height": 128 } },
        "objects": [
            {
                "id": 3,
                "name": "sys",
                "particle": "particles/x.json",
                "instanceoverride": {
                    "rate": {
                        "value": 1.0,
                        "script": "export function update(v) { thisLayer.pause(); return v; }"
                    }
                }
            }
        ]
    }"#;
    let model = model(json);
    let mut host = start(setup(&model).expect("host"), &vec![]);
    tick(
        &mut host,
        vec![],
        vec![
            SceneOp::ParticleCommand { layer_id: 3, cmd: "pause".to_owned() },
            SceneOp::EmitParticles { layer_id: 3, count: 5 },
            SceneOp::SetInstance { layer_id: 3, name: "size".to_owned(), value: float(2.5) },
            SceneOp::SetInstance {
                layer_id: 3,
                name: "controlpoint1".to_owned(),
                value: vec3([10.0, 20.0, 0.0]),
            },
        ],
    );
    let ops = host.take_particle_ops();
    assert!(
        ops.iter()
            .any(|o| matches!(o, ParticleOp::Command { id: 3, cmd } if cmd == "pause")),
        "pause missing"
    );
    assert!(
        ops.iter()
            .any(|o| matches!(o, ParticleOp::Emit { id: 3, count: 5 })),
        "emit missing"
    );
    assert!(
        ops.iter().any(
            |o| matches!(o, ParticleOp::Instance { id: 3, name, value } if name == "size"
            && as_f32(value).is_some_and(|v| single(&v) == 2.5))
        ),
        "size missing"
    );
    assert!(
        ops.iter().any(
            |o| matches!(o, ParticleOp::Instance { id: 3, name, value } if name == "controlpoint1"
            && as_vec3(value).is_some_and(|v| vector(&v)[0] == 10.0 && vector(&v)[1] == 20.0))
        ),
        "controlpoint1 missing"
    );
}

#[test]
fn effect_material_writes_drain_as_ops() {
    let json = r#"{
        "camera": { "eye": "0 0 100", "center": "0 0 0", "up": "0 1 0" },
        "general": { "orthogonalprojection": { "width": 128, "height": 128 } },
        "objects": [
            {
                "id": 6,
                "name": "layer",
                "image": "models/x.json",
                "effects": [
                    { "file": "effects/glow.json", "name": "Glow" }
                ],
                "alpha": {
                    "value": 1.0,
                    "script": "export function update(v) { return v; }"
                }
            }
        ]
    }"#;
    let model = model(json);
    let setup = setup(&model).expect("host");
    let effects = setup.layers[0].effects.as_ref().expect("an image has effects");
    assert_eq!(effects.len(), 1);
    assert_eq!(effects[0].name, "Glow");
    let mut host = start(setup, &vec![]);
    tick(
        &mut host,
        vec![],
        vec![
            SceneOp::SetMaterialProperty {
                layer_id: 6,
                effect: 0,
                name: "g_Strength".to_owned(),
                value: float(0.75),
            },
            SceneOp::SetMaterialProperty {
                layer_id: 6,
                effect: 0,
                name: "g_Tint".to_owned(),
                value: vec3([1.0, 0.0, 0.0]),
            },
        ],
    );
    let ops = host.take_material_ops();
    assert!(
        ops.iter().any(|(id, eff, name, v)| *id == 6
            && *eff == 0
            && name == "g_Strength"
            && as_f32(v).is_some_and(|v| single(&v) == 0.75)),
        "scalar write missing: {ops:?}"
    );
    assert!(
        ops.iter().any(|(id, eff, name, v)| *id == 6
            && *eff == 0
            && name == "g_Tint"
            && as_vec3(v).is_some_and(|c| vector(&c) == [1.0, 0.0, 0.0])),
        "vec write missing: {ops:?}"
    );
}

#[test]
fn video_control_calls_drain_as_ops() {
    let model = model(&scripted(8, "export function update(v) { return v; }"));
    let mut host = start(setup(&model).expect("host"), &vec![]);
    tick(
        &mut host,
        vec![],
        vec![
            SceneOp::VideoCommand { layer_id: 8, cmd: "pause".to_owned(), amount: 0 },
            SceneOp::VideoCommand { layer_id: 8, cmd: "rate".to_owned(), amount: 0.5f64.to_bits() },
        ],
    );
    let ops = host.take_video_ops();
    assert!(
        ops.iter().any(|(id, cmd, _)| *id == 8 && cmd == "pause"),
        "pause missing: {ops:?}"
    );
    assert!(
        ops.iter()
            .any(|(id, cmd, v)| *id == 8 && cmd == "rate" && (f64::from_bits(*v) - 0.5).abs() < 1e-9),
        "rate missing: {ops:?}"
    );
}

#[test]
fn camera_echo_carries_the_synced_fov() {
    let json = r#"{
        "camera": { "eye": "0 0 100", "center": "0 0 0", "up": "0 1 0", "fov": 50.0 },
        "general": { "orthogonalprojection": { "width": 128, "height": 128 } },
        "objects": [
            {
                "id": 35,
                "name": "cam",
                "image": "models/x.json",
                "visible": {
                    "value": true,
                    "script": "export function update(v) { thisScene.setCameraTransforms(thisScene.getCameraTransforms()); return v; }"
                }
            }
        ]
    }"#;
    let model = model(json);
    let mut host = start(setup(&model).expect("host"), &vec![]);
    let mut known = 0.0;
    let mut echo = |host: &mut ScriptHost| {
        if let Some(scene) = host.begin_tick().scene {
            known = single(&scene.camera.fov);
        }
        let op = CameraOp { eye: None, center: None, up: None, fov: Some(known.to_bits()), zoom: None };
        let output = TickOutput { property_results: vec![], ops: vec![SceneOp::SetCameraTransforms { op }] };
        host.end_tick(Some(&output));
        host.take_camera().and_then(|c| c.fov).map(f32::from_bits)
    };
    assert_eq!(echo(&mut host), Some(50.0));
    host.set_scene_fov(Scalar::Single(36.9f32.to_bits()), true);
    assert_eq!(echo(&mut host), Some(36.9));
}

#[test]
fn effect_constant_script_routes_to_material_ops() {
    let json = r#"{
        "camera": { "eye": "0 0 100", "center": "0 0 0", "up": "0 1 0" },
        "general": { "orthogonalprojection": { "width": 128, "height": 128 } },
        "objects": [
            {
                "id": 45,
                "name": "Effects/Coloring",
                "image": "models/x.json",
                "effects": [
                    {
                        "file": "effects/coloring.json",
                        "passes": [
                            {
                                "constantshadervalues": {
                                    "color": {
                                        "value": "1 0 0",
                                        "script": "export function update(v) { return new Vec3(0, engine.runtime > 0 ? 1 : 0, 0); }"
                                    }
                                }
                            }
                        ]
                    }
                ]
            }
        ]
    }"#;
    let model = model(json);
    let setup = setup(&model).expect("effect constant script spawns host");
    let key = setup.pending[0].prop.key.clone();
    let mut host = start(setup, &vec![]);
    tick(&mut host, vec![(key, vec3([0.0, 1.0, 0.0]))], vec![]);
    let ops = host.take_material_ops();
    assert!(
        ops.iter().any(|(id, ei, name, v)| *id == 45
            && *ei == 0
            && name == "color"
            && as_vec3(v).is_some_and(|c| vector(&c) == [0.0, 1.0, 0.0])),
        "constant result not routed: {ops:?}"
    );
}

#[test]
fn scene_without_scripts_spawns_no_host() {
    let json = r#"{
        "camera": { "eye": "0 0 100", "center": "0 0 0", "up": "0 1 0" },
        "general": { "orthogonalprojection": { "width": 64, "height": 64 } },
        "objects": [
            { "id": 1, "name": "plain", "image": "models/x.json", "alpha": { "value": 0.5 } }
        ]
    }"#;
    let model = model(json);
    assert!(setup(&model).is_none(), "no script binding, no engine");
}

#[test]
fn throwing_script_does_not_panic_and_leaves_value_alone() {
    let model = model(&scripted(3, "export function update(v) { throw new Error('boom'); }"));
    let mut host = start(
        setup(&model).expect("script loads even if it throws at tick"),
        &vec![],
    );
    for _ in 0..3 {
        let updates = tick(&mut host, vec![], vec![]);
        assert!(
            updates.iter().all(|u| u.object_id != 3),
            "a throwing update must not apply a value"
        );
    }
}

#[test]
fn angles_cross_the_script_boundary_in_degrees() {
    let json = r#"{
        "camera": { "eye": "0 0 100", "center": "0 0 0", "up": "0 1 0" },
        "general": { "orthogonalprojection": { "width": 128, "height": 128 } },
        "objects": [
            {
                "id": 3,
                "name": "dial",
                "image": "models/x.json",
                "angles": {
                    "value": "0 0 -5.68977",
                    "script": "export function update(v) { return new Vec3(0, 0, Math.round(v.z) + 90); }"
                }
            },
            {
                "id": 4,
                "name": "hand",
                "image": "models/x.json",
                "alpha": {
                    "value": 1.0,
                    "script": "export function update(v) { var d = thisScene.getLayer('dial'); if (Math.round(d.angles.z) == -326) thisLayer.angles = new Vec3(0, 0, 180); return v; }"
                }
            }
        ]
    }"#;
    let model = model(json);
    let setup = setup(&model).expect("scene has a driveable script");
    let pending = &setup.pending[0];
    let key = pending.prop.key.clone();
    assert_eq!(pending.prop.object_id, 3);
    let Initial::Vec(v) = &pending.initial else {
        panic!("angles are a vector");
    };
    let turned = single(&v[2]).round() + 90.0;
    let mut host = start(setup, &vec![]);
    let frame = host.begin_tick();
    let dial = frame.layers.iter().find(|l| l.name == "dial").expect("the dial");
    let seen = single(&dial.angles.as_ref().expect("angles").z);
    assert_eq!(seen.round(), -326.0);
    let output = TickOutput {
        property_results: vec![(key, vec3([0.0, 0.0, turned]))],
        ops: vec![SceneOp::SetProperty {
            layer_id: 4,
            name: "angles".to_owned(),
            value: vec3([0.0, 0.0, 180.0]),
        }],
    };
    let updates = host.end_tick(Some(&output));
    let angle = |id: i64| {
        let v = updates
            .iter()
            .find(|u| u.object_id == id && u.target == PropTarget::Angles)
            .and_then(|u| u.vector())
            .unwrap_or_else(|| panic!("angles update for {id}"));
        vector(&v)[2]
    };
    assert!(
        (angle(3) - (-236.0_f32).to_radians()).abs() < 1e-3,
        "dial: {}",
        angle(3)
    );
    assert!(
        (angle(4) - std::f32::consts::PI).abs() < 1e-5,
        "hand: {}",
        angle(4)
    );
}

#[test]
fn a_failed_run_hands_everything_over_again() {
    let model = model(&scripted(7, "export function update(v) { return v; }"));
    let mut host = start(setup(&model).expect("host"), &vec![("a".to_owned(), combo("x"))]);
    assert!(host.begin_tick().user_props.is_some());
    assert!(host.end_tick(None).is_empty());
    let again = host.begin_tick();
    assert!(again.user_props.is_some() && again.scene.is_some());
    host.end_tick(Some(&TickOutput { property_results: vec![], ops: vec![] }));
    let later = host.begin_tick();
    assert!(later.user_props.is_none() && later.scene.is_none());
}

#[test]
fn scripts_name_their_workshop_item() {
    let found = |s: &str| extract_workshop_id(s);
    assert_eq!(found("let __workshopId = '12345';").as_deref(), Some("12345"));
    assert_eq!(found("__workshopId=\"9\"").as_deref(), Some("9"));
    assert_eq!(found("__workshopId = 'x1'"), None);
    assert_eq!(found("__workshopId = ''"), None);
    assert_eq!(found("nothing '5'"), None);
}

fn only_object(object: &str) -> SceneModel {
    model(&format!(
        r#"{{
        "camera": {{ "eye": "0 0 100", "center": "0 0 0", "up": "0 1 0" }},
        "general": {{ "orthogonalprojection": {{ "width": 128, "height": 128 }} }},
        "objects": [ {object} ]
    }}"#
    ))
}

#[test]
fn the_volume_of_a_sound_may_be_scripted() {
    let m = only_object(
        r#"{ "id": 4, "sound": ["a.mp3"],
             "volume": { "value": 0.25, "script": "export function update(v){ return v; }" } }"#,
    );
    let s = setup(&m).expect("a script");
    assert_eq!(s.pending.len(), 1);
    assert_eq!(s.pending[0].prop.key, "volume_4");
    assert_eq!(s.pending[0].prop.target, PropTarget::Volume);
    assert!(matches!(&s.pending[0].initial, Initial::Float(v) if single(v) == 0.25));
    assert_eq!(start(s, &vec![]).props.len(), 1);
    assert!(setup(&only_object(r#"{ "id": 4, "sound": ["a.mp3"], "volume": 0.25 }"#)).is_none());
}

#[test]
fn a_scripted_volume_follows_its_property() {
    let m = only_object(
        r#"{ "id": 4, "sound": ["a.mp3"],
             "volume": { "value": 0.25, "user": "loud", "script": "export function update(v){ return v; }" } }"#,
    );
    let mut bag = PropertyBag::new();
    bag.insert(
        "loud",
        PropertyValue::Number {
            bits: 0.75f64.to_bits(),
            single: 0.75f32.to_bits(),
            shown: "0.75".to_owned(),
        },
    );
    let s = script_setup(&m.scene, &bag, true).expect("a script");
    assert!(matches!(&s.pending[0].initial, Initial::Float(v) if single(v) == 0.75));
}

#[test]
fn the_effects_of_a_text_may_be_scripted() {
    let m = only_object(
        r#"{ "id": 6, "text": "x", "effects": [
              { "name": "no file" },
              { "file": "e.json", "passes": [ { "constantshadervalues": {
                  "zeta": { "value": 2.0, "script": "let z;" },
                  "plain": 1.0,
                  "Alpha": { "value": 3.0, "script": "let a;" } } } ] } ] }"#,
    );
    let s = setup(&m).expect("a script");
    let keys: Vec<&str> = s.pending.iter().map(|p| p.prop.key.as_str()).collect();
    assert_eq!(keys, ["fx0Alpha_6", "fx0zeta_6"]);
    let c = s.pending[1].prop.effect_constant.as_ref().expect("a constant");
    assert_eq!((c.effect, c.name.as_str()), (0, "zeta"));
    assert!(matches!(&s.pending[1].initial, Initial::Float(v) if single(v) == 2.0));
}

#[test]
fn constants_are_walked_by_name() {
    let mut table: TextMap<bool> = TextMap::new();
    for name in ["b", "a", "ab", "", "B", "\u{e9}"] {
        table.insert(name.to_owned(), true);
    }
    assert_eq!(table.names(), ["", "B", "a", "ab", "b", "\u{e9}"]);
}
