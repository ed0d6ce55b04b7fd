use kirie::glsl::{
    has_array_varying, is_const_return_function, pin_varying_locations, sanitize_glsl,
    strip_dead_fs_varyings, text_lines, varying_decl_name, Stage,
};
use kirie::material::{Blending, CullMode, DepthMode, Pass};
use kirie::modules::{
    check_interface, globals_layout, io_shapes, module_bindings, stages_disagree, IoDir,
    PassBuildError, Shapes,
};
use kirie::passes::{
    merge_combos, model_attributes, quad_attributes, samples_scene, shader_inputs, Attribute,
};
use kirie::slots::{BindKind, SamplerSlot};
use kirie::table::TextMap;
use kirie::translation::{realign, Round, Translation};
use kirie::uniforms::GlType;

fn parse(stage: naga::ShaderStage, src: &str) -> naga::Module {
    let mut front = naga::front::glsl::Frontend::default();
    front
        .parse(&naga::front::glsl::Options::from(stage), src)
        .expect("the test shader parses")
}

const VERTEX_WITH_VEC2: &str = "#version 450\nlayout(location = 0) out vec2 v_TexCoord;\nvoid main() { v_TexCoord = vec2(0.0); gl_Position = vec4(0.0); }\n";

#[test]
fn a_narrower_varying_than_the_fragment_wants_is_a_disagreement() {
    let vs = parse(naga::ShaderStage::Vertex, VERTEX_WITH_VEC2);
    let fs = parse(
        naga::ShaderStage::Fragment,
        "#version 450\nlayout(location = 0) in vec4 v_TexCoord;\nlayout(location = 0) out vec4 o;\nvoid main() { o = v_TexCoord; }\n",
    );
    assert!(stages_disagree(&vs, &fs));
}

#[test]
fn matching_varyings_agree() {
    let vs = parse(naga::ShaderStage::Vertex, VERTEX_WITH_VEC2);
    let fs = parse(
        naga::ShaderStage::Fragment,
        "#version 450\nlayout(location = 0) in vec2 v_TexCoord;\nlayout(location = 0) out vec4 o;\nvoid main() { o = vec4(v_TexCoord, 0.0, 1.0); }\n",
    );
    assert!(!stages_disagree(&vs, &fs));
}

#[test]
fn a_varying_the_vertex_never_writes_is_a_disagreement() {
    let vs = parse(naga::ShaderStage::Vertex, VERTEX_WITH_VEC2);
    let fs = parse(
        naga::ShaderStage::Fragment,
        "#version 450\nlayout(location = 3) in vec2 v_Other;\nlayout(location = 0) out vec4 o;\nvoid main() { o = vec4(v_Other, 0.0, 1.0); }\n",
    );
    assert!(stages_disagree(&vs, &fs));
}

#[test]
fn a_module_shows_its_ports_bindings_and_block() {
    let vs = parse(naga::ShaderStage::Vertex, VERTEX_WITH_VEC2);
    assert_eq!(io_shapes(&vs, IoDir::Output).get(0), Some(2));
    assert_eq!(io_shapes(&vs, IoDir::Output).get(1), None);
    let fs = parse(
        naga::ShaderStage::Fragment,
        "#version 450\nlayout(location = 2) in float v_A;\nlayout(location = 0) in vec3 v_B;\nlayout(set = 0, binding = 7) uniform U { float g_Time; vec4 g_Color4; };\nlayout(set = 0, binding = 5) uniform texture2D t;\nlayout(set = 0, binding = 3) uniform sampler s;\nlayout(location = 0) out vec4 o;\nvoid main() { o = texture(sampler2D(t, s), v_B.xy) * g_Color4 * v_A * g_Time; }\n",
    );
    assert_eq!(io_shapes(&fs, IoDir::Input).entries, [(0, 3), (2, 1)]);
    let bound: Vec<(u32, BindKind)> =
        module_bindings(&fs).iter().map(|b| (b.binding, b.kind)).collect();
    assert_eq!(bound, [(3, BindKind::Sampler), (5, BindKind::Texture), (7, BindKind::Ubo)]);
    let layout = globals_layout(&fs, &vec![], &TextMap::new());
    assert_eq!(layout.members.len(), 2);
    assert_eq!(layout.members[0].name, "g_Time");
    assert_eq!((layout.members[1].ty, layout.members[1].offset), (GlType::Vec4, 16));
    assert_eq!(layout.size, 32);
    let own = globals_layout(&vs, &vec!["g_Color".to_owned()], &TextMap::new());
    assert_eq!((own.members.len(), own.size), (1, 16));
}

fn shapes(of: &[(u32, u8)]) -> Shapes {
    let mut s = Shapes::new();
    for &(l, w) in of {
        s.insert(l, w);
    }
    s
}

#[test]
fn stages_must_fit_each_other_and_the_device() {
    let given = shapes(&[(3, 4), (0, 2), (1, 1), (0, 3)]);
    assert_eq!(given.entries, [(0, 3), (1, 1), (3, 4)]);
    assert_eq!(check_interface(&given, &shapes(&[(1, 1)]), 4), Ok(()));
    assert_eq!(
        check_interface(&given, &shapes(&[(1, 2), (0, 4)]), 4),
        Err(PassBuildError::InterfaceMismatch(0))
    );
    assert_eq!(
        check_interface(&given, &shapes(&[(2, 1)]), 4),
        Err(PassBuildError::InterfaceMismatch(2))
    );
    assert_eq!(
        check_interface(&given, &shapes(&[]), 3),
        Err(PassBuildError::TooManyVaryings(3, 3))
    );
    assert_eq!(check_interface(&shapes(&[]), &shapes(&[]), 0), Ok(()));
    assert_eq!(
        PassBuildError::InterfaceMismatch(2).message(),
        "VS/FS interface mismatch: fragment reads location 2 the vertex stage does not write"
    );
    assert_eq!(
        PassBuildError::TooManyVaryings(16, 15).message(),
        "inter-stage location 16 exceeds the device limit (15)"
    );
}

#[test]
fn varyings_are_found_by_their_declarations() {
    assert_eq!(varying_decl_name("varying vec2 v_TexCoord;").as_deref(), Some("v_TexCoord"));
    assert_eq!(varying_decl_name("  varying vec4 v_A ;").as_deref(), Some("v_A"));
    assert_eq!(varying_decl_name("varying vec4 v_A[3];"), None);
    assert_eq!(varying_decl_name("varying vec4 v-A;"), None);
    assert_eq!(varying_decl_name("varying vec4;"), None);
    assert_eq!(varying_decl_name("// varying vec4 v_A;"), None);
    assert!(has_array_varying("x\n varying vec4 v_A[2];"));
    assert!(!has_array_varying("vec4 v_A[2];"));
}

#[test]
fn both_stages_know_a_varying_by_one_location() {
    let vs = "varying vec2 v_B;\nvarying vec2 v_A;\nvoid main() {}";
    let fs = "  varying vec2 v_C;\r\nvarying vec2 v_A;\n";
    let (v, f) = pin_varying_locations(vs, fs);
    assert_eq!(
        v,
        "layout(location = 1) varying vec2 v_B;\nlayout(location = 0) varying vec2 v_A;\nvoid main() {}"
    );
    assert_eq!(
        f,
        "  layout(location = 2) varying vec2 v_C;\nlayout(location = 0) varying vec2 v_A;"
    );
}

#[test]
fn dead_varyings_are_stripped() {
    let vs = "varying vec2 v_A;";
    let fs = "varying vec2 v_A;\nvarying vec2 v_Dead;\nvarying vec2 v_Used;\nv_Used;\n";
    assert_eq!(
        strip_dead_fs_varyings(vs, fs),
        "varying vec2 v_A;\nvarying vec2 v_Used;\nv_Used;"
    );
    let alive = "varying vec2 v_A;\r\nv_A;\r\n";
    assert_eq!(strip_dead_fs_varyings(vs, alive), alive);
}

#[test]
fn sources_are_made_fit_to_translate() {
    let src = "  const vec3 f(float x) {\nconst float k = f(1);\ngl_Position gl_Position";
    assert_eq!(
        sanitize_glsl(src, Stage::Fragment),
        "  vec3 f(float x) {\nconst float k = f(1);\ngl_FragCoord gl_FragCoord"
    );
    assert_eq!(
        sanitize_glsl(src, Stage::Vertex),
        "  vec3 f(float x) {\nconst float k = f(1);\ngl_Position gl_Position"
    );
    assert!(is_const_return_function("vec3 f("));
    assert!(!is_const_return_function("float x = f("));
    assert!(!is_const_return_function("float x"));
    for text in ["", "\n", "a", "a\n", "a\r\nb\r", "\n\n", "a\n\nb"] {
        let expected: Vec<&str> = text.lines().collect();
        assert_eq!(text_lines(text), expected);
    }
}

fn attributes(of: &[(&str, u32)]) -> Vec<Attribute> {
    of.iter()
        .map(|&(name, location)| Attribute { name: name.to_owned(), location })
        .collect()
}

#[test]
fn vertices_have_only_what_they_have() {
    let quad = quad_attributes(&attributes(&[("a_TexCoord", 1), ("a_Position", 3)])).unwrap();
    assert_eq!((quad.pos_location, quad.uv_location), (3, Some(1)));
    let plain = quad_attributes(&vec![]).unwrap();
    assert_eq!((plain.pos_location, plain.uv_location), (0, None));
    assert_eq!(
        quad_attributes(&attributes(&[("a_Normal", 1), ("a_Other", 2)])).unwrap_err().message(),
        "unsupported vertex attribute a_Normal"
    );
    let parts =
        model_attributes(&attributes(&[("a_TexCoord", 3), ("a_Normal", 1), ("a_Position", 0)])).unwrap();
    let seen: Vec<(u32, u32, u64)> =
        parts.iter().map(|p| (p.location, p.components, p.offset)).collect();
    assert_eq!(seen, [(0, 3, 0), (1, 3, 12), (3, 2, 40)]);
    assert_eq!(
        model_attributes(&attributes(&[("a_Tangent4", 0), ("a_Blend", 1)])).unwrap_err(),
        PassBuildError::Translate("unsupported model vertex attribute a_Blend".to_owned())
    );
}

fn pass() -> Pass {
    Pass {
        blending: Blending::Normal,
        cullmode: CullMode::NoCull,
        depthtest: DepthMode::Disabled,
        depthwrite: DepthMode::Disabled,
        shader: "x".to_owned(),
        textures: vec![],
        usertextures: vec![],
        combos: TextMap::new(),
        constantshadervalues: TextMap::new(),
    }
}

#[test]
fn shaders_get_switches_and_slots() {
    let mut p = pass();
    p.textures = vec![None, Some("a".to_owned()), None, Some("b".to_owned())];
    p.combos.insert("A".to_owned(), 5);
    p.combos.insert("B".to_owned(), 0x1_ffff_ffff);
    p.combos.insert("C".to_owned(), -7);
    let inputs = shader_inputs(&p);
    assert_eq!(inputs.populated_texture_slots, [0, 1, 3]);
    assert_eq!(inputs.combos.get("A"), Some(&5));
    assert_eq!(inputs.combos.get("B"), Some(&-1));
    assert_eq!(inputs.combos.get("C"), Some(&-7));
    assert!(inputs.override_combos.is_empty());
    assert_eq!(shader_inputs(&pass()).populated_texture_slots, [0]);
}

#[test]
fn switches_of_two_stages_are_merged() {
    let table = |of: &[(&str, i32)]| {
        let mut t = TextMap::new();
        for &(k, v) in of {
            t.insert(k.to_owned(), v);
        }
        t
    };
    let both = merge_combos(&table(&[("A", 1), ("B", 2), ("C", 0)]), &table(&[("A", 0), ("B", 3), ("D", 0)]));
    assert_eq!(both.get("A"), Some(&1));
    assert_eq!(both.get("B"), Some(&3));
    assert_eq!(both.get("C"), Some(&0));
    assert_eq!(both.get("D"), Some(&0));
    assert_eq!(both.len(), 4);
}

#[test]
fn a_model_may_sample_the_scene() {
    let sampler = |default: Option<&str>| SamplerSlot {
        name: "g_Texture0".to_owned(),
        slot: Some(0),
        texture_binding: 0,
        sampler_binding: 0,
        default_texture: default.map(str::to_owned),
        combo: None,
    };
    assert!(samples_scene(&vec![sampler(None), sampler(Some("_rt_MipMappedFrameBuffer"))], &pass()));
    assert!(!samples_scene(&vec![sampler(Some("util/white"))], &pass()));
    let mut p = pass();
    p.textures = vec![None, Some("_rt_FullFrameBuffer".to_owned())];
    assert!(samples_scene(&vec![], &p));
}

#[test]
fn stages_that_disagree_are_translated_twice_more() {
    let (vs, fs) = ("varying vec2 v_A;\nvoid main() {}", "varying vec2 v_A;\nvarying vec2 v_Dead;\nvoid main() { v_A; }");
    let mut on = TextMap::new();
    on.insert("LIGHT".to_owned(), 1);
    let off = TextMap::new();
    let mut t = Translation::of_layer(&pass(), vs, fs);
    assert!(!t.advance(false, &on, &off));
    assert_eq!(t.round, Round::First);
    assert!(t.advance(true, &on, &off));
    assert_eq!(t.fs, "layout(location = 0) varying vec2 v_A;\nvoid main() { v_A; }");
    assert!(t.inputs.override_combos.is_empty());
    assert!(t.advance(false, &on, &off));
    assert_eq!(t.inputs.override_combos.get("LIGHT"), Some(&1));
    assert!(!t.advance(true, &on, &off));
    let mut m = Translation::of_model(&pass(), vs, fs);
    assert_eq!(m.round, Round::Aligned);
    assert_eq!(m.vs, "layout(location = 0) varying vec2 v_A;\nvoid main() {}");
    assert!(m.advance(false, &off, &on));
    assert!(!m.advance(true, &off, &on));
    let arrays = "varying vec2 v_B[2];";
    assert_eq!(realign(arrays, fs).0, arrays);
}
