use kirie::material::{
    Blending, CullMode, DepthMode, EffectFile, EffectPass, Fbo, Material, ModelFile, Pass, PassCommand,
};
use kirie::object::{Effect, ImageObject, PassOverride};
use kirie::plan::{plan_image, Geometry, PassInput, PassOutput, COPY_COMMAND_SHADER};
use kirie::table::TextMap;
use kirie::user::UserSetting;
use kirie::value::{Color, Scalar, Vec2, Vec3};

fn single(v: f32) -> Scalar {
    Scalar::Single(v.to_bits())
}

fn vec2(v: f32) -> Vec2 {
    Vec2 { x: single(v), y: single(v) }
}

fn vec3(v: f32) -> Vec3 {
    Vec3 { x: single(v), y: single(v), z: single(v) }
}

fn white() -> Color {
    Color { r: single(1.0), g: single(1.0), b: single(1.0), a: single(1.0) }
}

fn mark(v: i64) -> TextMap<i64> {
    let mut combos = TextMap::new();
    combos.insert("MARK".to_owned(), v);
    combos
}

fn pass(shader: &str, blending: Blending) -> Pass {
    Pass {
        blending,
        cullmode: CullMode::NoCull,
        depthtest: DepthMode::Disabled,
        depthwrite: DepthMode::Disabled,
        shader: shader.to_string(),
        textures: vec![],
        usertextures: vec![],
        combos: TextMap::new(),
        constantshadervalues: TextMap::new(),
    }
}

fn image(passes: Vec<Pass>) -> ImageObject {
    ImageObject {
        image: "img.json".into(),
        model: None,
        material: Some(Material { passes }),
        scale: UserSetting::literal(vec3(1.0)),
        angles: UserSetting::literal(vec3(0.0)),
        visible: UserSetting::literal(true),
        alpha: UserSetting::literal(single(1.0)),
        color: UserSetting::literal(white()),
        alignment: "center".into(),
        size: vec2(0.0),
        parallax_depth: UserSetting::literal(vec2(0.0)),
        color_blend_mode: UserSetting::literal(0),
        brightness: UserSetting::literal(single(1.0)),
        effects: vec![],
        animationlayers: vec![],
        instance: None,
    }
}

fn passthrough_model() -> ModelFile {
    ModelFile {
        material: "materials/util/fullscreenlayer.json".into(),
        solidlayer: false,
        fullscreen: true,
        passthrough: true,
        autosize: false,
        nopadding: false,
        width: None,
        height: None,
        puppet: None,
    }
}

#[test]
fn hidden_image_plans_nothing() {
    let img = image(vec![pass("effect", Blending::Normal)]);
    assert!(plan_image(&img, false, false, None).passes.is_empty());
}

#[test]
fn passthrough_layer_without_visible_effects_is_skipped() {
    let mut img = image(vec![pass("passthrough", Blending::Translucent)]);
    img.model = Some(passthrough_model());
    assert!(plan_image(&img, true, false, None).passes.is_empty());
}

#[test]
fn passthrough_layer_with_visible_effect_renders() {
    let mut img = image(vec![pass("passthrough", Blending::Translucent)]);
    img.model = Some(passthrough_model());
    img.effects = vec![Effect {
        file: "effects/tint/effect.json".into(),
        id: -1,
        name: "tint".into(),
        visible: UserSetting::literal(true),
        passes: vec![],
        resolved: Some(EffectFile {
            name: String::new(),
            description: String::new(),
            group: String::new(),
            preview: String::new(),
            dependencies: vec![],
            fbos: vec![],
            passes: vec![EffectPass {
                material: Some("materials/effects/tint.json".into()),
                resolved: Some(Material {
                    passes: vec![pass("effects/tint", Blending::Normal)],
                }),
                bind: vec![],
                command: None,
                source: None,
                target: None,
            }],
        }),
    }];
    assert_eq!(plan_image(&img, true, false, None).passes.len(), 2);
}

#[test]
fn image_without_material_plans_nothing() {
    let mut img = image(vec![]);
    img.material = None;
    assert!(plan_image(&img, true, false, None).passes.is_empty());
}

#[test]
fn single_pass_composites_into_scene_from_layer() {
    let img = image(vec![pass("passthrough", Blending::Translucent)]);
    let plan = plan_image(&img, true, false, None);
    assert_eq!(plan.passes.len(), 1);
    let p = &plan.passes[0];
    assert_eq!(p.input, PassInput::Layer);
    assert_eq!(p.output, PassOutput::Scene);
    assert_eq!(p.geometry, Geometry::Scene);
    assert_eq!(p.blending, Blending::Translucent);
}

#[test]
fn multi_pass_ping_pongs_and_ends_at_scene() {
    let img = image(vec![
        pass("a", Blending::Additive),
        pass("b", Blending::Normal),
        pass("c", Blending::Normal),
    ]);
    let plan = plan_image(&img, true, false, None);
    assert_eq!(plan.passes.len(), 3);

    assert_eq!(plan.passes[0].input, PassInput::Layer);
    assert_eq!(plan.passes[0].output, PassOutput::Fbo(0));
    assert_eq!(plan.passes[0].geometry, Geometry::Copy);

    assert_eq!(plan.passes[1].input, PassInput::Fbo(0));
    assert_eq!(plan.passes[1].output, PassOutput::Fbo(1));
    assert_eq!(plan.passes[1].geometry, Geometry::Pass);

    assert_eq!(plan.passes[2].input, PassInput::Fbo(1));
    assert_eq!(plan.passes[2].output, PassOutput::Scene);
    assert_eq!(plan.passes[2].geometry, Geometry::Scene);
}

fn effect_of(epasses: Vec<EffectPass>) -> Effect {
    Effect {
        file: "effects/test/effect.json".into(),
        id: 1,
        name: "test".into(),
        visible: UserSetting::literal(true),
        passes: vec![],
        resolved: Some(EffectFile {
            name: String::new(),
            description: String::new(),
            group: String::new(),
            preview: String::new(),
            dependencies: vec![],
            fbos: vec![],
            passes: epasses,
        }),
    }
}

fn material_epass(shader: &str, target: Option<&str>) -> EffectPass {
    EffectPass {
        material: Some(format!("materials/effects/{shader}.json")),
        resolved: Some(Material {
            passes: vec![pass(shader, Blending::Normal)],
        }),
        bind: vec![],
        command: None,
        source: None,
        target: target.map(str::to_owned),
    }
}

fn command_epass(
    command: PassCommand,
    source: &str,
    target: &str,
) -> EffectPass {
    EffectPass {
        material: None,
        resolved: None,
        bind: vec![],
        command: Some(command),
        source: Some(source.to_owned()),
        target: Some(target.to_owned()),
    }
}

#[test]
fn copy_command_plans_the_virtual_blit_pass() {
    let mut img = image(vec![pass("base", Blending::Translucent)]);
    img.effects = vec![effect_of(vec![
        material_epass("motionblur_accumulation", Some("_rt_FullCompoBuffer2")),
        command_epass(PassCommand::Copy, "_rt_FullCompoBuffer2", "_rt_FullCompoBuffer1"),
        material_epass("motionblur_combine", None),
    ])];
    let plan = plan_image(&img, true, false, None);
    assert_eq!(plan.passes.len(), 4, "base + accumulate + copy + combine");
    let copy = &plan.passes[2];
    assert_eq!(copy.shader, COPY_COMMAND_SHADER);
    assert_eq!(
        copy.pass.textures,
        vec![Some("_rt_FullCompoBuffer2".to_owned())],
        "slot 0 must be the copy source"
    );
    assert_eq!(copy.target.as_deref(), Some("_rt_FullCompoBuffer1"));
    assert_eq!(copy.blending, Blending::Normal);
    assert!(copy.binds.is_empty());
}

#[test]
fn swap_command_pass_is_rejected_like_the_reference() {
    let mut img = image(vec![pass("base", Blending::Normal)]);
    img.effects = vec![effect_of(vec![command_epass(
        PassCommand::Swap,
        "_rt_SmokeDye1",
        "_rt_SmokeDye2",
    )])];
    let plan = plan_image(&img, true, false, None);
    assert_eq!(plan.passes.len(), 1, "swap contributes no pass");
}

#[test]
fn command_passes_do_not_consume_pass_overrides() {
    let mut img = image(vec![pass("base", Blending::Normal)]);
    let mut effect = effect_of(vec![
        material_epass("accumulate", Some("_rt_FullCompoBuffer2")),
        command_epass(PassCommand::Copy, "_rt_FullCompoBuffer2", "_rt_FullCompoBuffer1"),
        material_epass("combine", None),
    ]);
    let ov = |v: i64| PassOverride {
        id: -1,
        combos: mark(v),
        constantshadervalues: TextMap::new(),
        textures: vec![],
        usertextures: vec![],
    };
    effect.passes = vec![ov(1), ov(2)];
    img.effects = vec![effect];
    let plan = plan_image(&img, true, false, None);
    assert_eq!(plan.passes.len(), 4);
    assert_eq!(plan.passes[1].pass.combos.get("MARK"), Some(&1));
    assert_eq!(
        plan.passes[3].pass.combos.get("MARK"),
        Some(&2),
        "the combine pass takes the second override even though the copy \
         command sits between the material passes"
    );
    assert!(plan.passes[2].pass.combos.is_empty(), "copy takes no override");
}

fn effectpassthrough() -> Material {
    Material {
        passes: vec![pass("genericimage3", Blending::Normal)],
    }
}

#[test]
fn color_blend_mode_appends_the_passthrough_pass() {
    let mut img = image(vec![pass("base", Blending::Additive)]);
    img.color_blend_mode = UserSetting::literal(9);
    let plan = plan_image(&img, true, false, Some(&effectpassthrough()));
    assert_eq!(plan.passes.len(), 2, "base copy + colorBlendMode pass");
    let last = &plan.passes[1];
    assert_eq!(last.shader, "genericimage3");
    assert_eq!(last.pass.combos.get("BLENDMODE"), Some(&9));
    assert_eq!(last.target, None, "renders into the composite chain");
    assert!(last.binds.is_empty());
    assert_eq!(last.output, PassOutput::Scene);
    assert_eq!(plan.passes[0].blending, Blending::Normal);
    assert_eq!(last.blending, Blending::Additive);
}

#[test]
fn color_blend_mode_pass_follows_effect_passes() {
    let mut img = image(vec![pass("base", Blending::Normal)]);
    img.color_blend_mode = UserSetting::literal(2);
    img.effects = vec![effect_of(vec![material_epass("tint", None)])];
    let plan = plan_image(&img, true, false, Some(&effectpassthrough()));
    assert_eq!(plan.passes.len(), 3);
    assert_eq!(plan.passes[1].shader, "tint");
    assert_eq!(plan.passes[2].shader, "genericimage3");
    assert_eq!(plan.passes[2].pass.combos.get("BLENDMODE"), Some(&2));
}

#[test]
fn default_color_blend_mode_appends_nothing() {
    let img = image(vec![pass("base", Blending::Normal)]);
    let plan = plan_image(&img, true, false, Some(&effectpassthrough()));
    assert_eq!(plan.passes.len(), 1);
}

#[test]
fn color_blend_mode_without_builtin_material_degrades() {
    let mut img = image(vec![pass("base", Blending::Normal)]);
    img.color_blend_mode = UserSetting::literal(4);
    let plan = plan_image(&img, true, false, None);
    assert_eq!(plan.passes.len(), 1);
}

#[test]
fn blend_relocation_moves_first_to_last() {
    let img = image(vec![
        pass("a", Blending::Additive),
        pass("b", Blending::Translucent),
    ]);
    let plan = plan_image(&img, true, false, None);
    assert_eq!(plan.passes[0].blending, Blending::Normal, "first forced Normal");
    assert_eq!(
        plan.passes[1].blending,
        Blending::Additive,
        "first's blend relocated to last"
    );
}

#[test]
fn blend_relocation_is_unconditional_for_puppet_images() {
    let mut img = image(vec![
        pass("base", Blending::Translucent),
        pass("effect", Blending::Normal),
    ]);
    img.model = Some(ModelFile {
        material: "materials/女.json".into(),
        solidlayer: false,
        fullscreen: false,
        passthrough: false,
        autosize: true,
        nopadding: false,
        width: None,
        height: None,
        puppet: Some("models/女_puppet.mdl".into()),
    });
    let plan = plan_image(&img, true, false, None);
    assert_eq!(plan.passes[0].blending, Blending::Normal, "no puppet exception");
    assert_eq!(
        plan.passes[1].blending,
        Blending::Translucent,
        "relocated to last"
    );
}

#[test]
fn donor_blend_is_not_installed_on_last_pass() {
    let img = image(vec![
        pass("base", Blending::Translucent),
        pass("scroll", Blending::Normal),
        pass("transform", Blending::Normal),
    ]);
    let plan = plan_image(&img, true, true, None);
    assert_eq!(plan.passes[0].blending, Blending::Normal, "copy is replace");
    assert_eq!(
        plan.passes[2].blending,
        Blending::Normal,
        "layer blending suppressed: the composite stays straight-alpha"
    );
}

#[test]
fn single_pass_donor_copy_is_replace() {
    let img = image(vec![pass("base", Blending::Translucent)]);
    let plan = plan_image(&img, true, true, None);
    assert_eq!(plan.passes[0].blending, Blending::Normal);
}

#[test]
fn the_first_target_of_a_name_counts() {
    let fbo = |name: &str, format: &str| Fbo {
        name: name.to_owned(),
        format: format.to_owned(),
        scale: single(1.0),
        unique: false,
    };
    let mut img = image(vec![pass("base", Blending::Normal)]);
    let mut a = effect_of(vec![material_epass("a", None)]);
    let mut b = effect_of(vec![material_epass("b", None)]);
    a.resolved.as_mut().unwrap().fbos = vec![fbo("_rt_x", "first"), fbo("_rt_y", "y")];
    b.resolved.as_mut().unwrap().fbos = vec![fbo("_rt_x", "second"), fbo("_rt_z", "z")];
    img.effects = vec![a, b];
    let plan = plan_image(&img, true, false, None);
    let named: Vec<(&str, &str)> = plan
        .named_fbos
        .iter()
        .map(|f| (f.name.as_str(), f.format.as_str()))
        .collect();
    assert_eq!(named, [("_rt_x", "first"), ("_rt_y", "y"), ("_rt_z", "z")]);
    assert_eq!(plan.passes[2].effect_index, Some(1));
}
