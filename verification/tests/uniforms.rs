use kirie::packing::{pack_globals, Bits};
use kirie::params::{ParamType, Parameter};
use kirie::table::TextMap;
use kirie::uniforms::{builtin_type, param_types, Builtins, GlType, GlobalsLayout};

fn names(v: &[&str]) -> Vec<String> {
    v.iter().map(|s| s.to_string()).collect()
}

fn identity() -> [u32; 16] {
    let one = 1.0f32.to_bits();
    let mut m = [0; 16];
    for i in 0..4 {
        m[i * 5] = one;
    }
    m
}

fn builtins() -> Builtins {
    let one = 1.0f32.to_bits();
    let half = 0.5f32.to_bits();
    Builtins {
        time: 0,
        daytime: 0,
        brightness: one,
        alpha: one,
        color: [one; 4],
        ambient: [0; 3],
        skylight: [0; 3],
        pointer: [half; 2],
        pointer_last: [half; 2],
        texel_size: [0; 2],
        texel_half: [0; 2],
        screen: [0; 3],
        mvp: identity(),
        effect_mvp: identity(),
        mvp_inverse: identity(),
        model: identity(),
        model_inverse: identity(),
        view_projection: identity(),
        eye: [0, 0, 1000.0f32.to_bits()],
        texture0_translation: [0; 2],
        texture0_rotation: [0; 4],
        texture_resolution: [[0; 4]; 8],
        audio16: [0; 16],
        audio32: [0; 32],
        audio64: [0; 64],
    }
}

fn single(bytes: &[u8], at: usize) -> f32 {
    f32::from_le_bytes(bytes[at..at + 4].try_into().unwrap())
}

#[test]
fn builtin_types_resolve() {
    assert_eq!(builtin_type("g_Time"), Some(GlType::Float));
    assert_eq!(builtin_type("g_TexelSize"), Some(GlType::Vec2));
    assert_eq!(builtin_type("g_Color"), Some(GlType::Vec3));
    assert_eq!(builtin_type("g_ModelViewProjectionMatrix"), Some(GlType::Mat4));
    assert_eq!(builtin_type("g_NormalModelMatrix"), Some(GlType::Mat3));
    assert_eq!(builtin_type("g_Texture3Resolution"), Some(GlType::Vec4));
    assert_eq!(builtin_type("g_Texture0Translation"), Some(GlType::Vec2));
    assert_eq!(
        builtin_type("g_AudioSpectrum64Left"),
        Some(GlType::FloatArray(64))
    );
    assert_eq!(builtin_type("g_EyePosition"), Some(GlType::Vec3));
    assert_eq!(builtin_type("g_OrientationForward"), Some(GlType::Vec3));
    assert_eq!(builtin_type("g_ViewRight"), Some(GlType::Vec3));
    assert_eq!(builtin_type("g_RenderVar0"), Some(GlType::Vec4));
    assert_eq!(builtin_type("g_RefractAmount"), Some(GlType::Float));
    assert_eq!(builtin_type("SomeMaterialParam"), None);
}

#[test]
fn std140_offsets_pack_scalar_then_vec2() {
    let layout = GlobalsLayout::build(&names(&["g_Time", "g_TexelSize", "g_Color4"]), &TextMap::new());
    assert_eq!(layout.members[0].offset, 0);
    assert_eq!(layout.members[1].offset, 8);
    assert_eq!(layout.members[2].offset, 16);
    assert_eq!(layout.size, 32);
}

#[test]
fn mat4_after_float_aligns_to_16() {
    let layout = GlobalsLayout::build(
        &names(&["g_Time", "g_ModelViewProjectionMatrix"]),
        &TextMap::new(),
    );
    assert_eq!(layout.members[0].offset, 0);
    assert_eq!(layout.members[1].offset, 16, "mat4 aligns to 16 after a float");
    assert_eq!(layout.size, 16 + 64);
}

#[test]
fn vec3_consumes_12_but_aligns_16() {
    let layout = GlobalsLayout::build(&names(&["g_Color", "g_Time"]), &TextMap::new());
    assert_eq!(layout.members[0].offset, 0);
    assert_eq!(layout.members[1].offset, 12, "float fills the vec3 tail padding");
    assert_eq!(layout.size, 16);
}

#[test]
fn float_array_uses_stride_16() {
    let layout = GlobalsLayout::build(&names(&["g_AudioSpectrum16Left"]), &TextMap::new());
    assert_eq!(layout.members[0].ty, GlType::FloatArray(16));
    assert_eq!(layout.size, 16 * 16);
}

#[test]
fn material_param_type_comes_from_reflection() {
    let mut params = TextMap::new();
    params.insert("g_Strength".to_string(), GlType::Vec3);
    let layout = GlobalsLayout::build(&names(&["g_Strength", "g_Time"]), &params);
    assert_eq!(layout.members[0].ty, GlType::Vec3);
    assert_eq!(layout.members[1].offset, 12);
}

#[test]
fn pack_writes_time_and_mvp_column_major() {
    let layout = GlobalsLayout::build(
        &names(&["g_Time", "g_ModelViewProjectionMatrix"]),
        &TextMap::new(),
    );
    let mut b = builtins();
    b.time = 2.5f32.to_bits();
    b.mvp[12] = 7.0f32.to_bits();
    b.mvp[13] = 8.0f32.to_bits();
    b.mvp[14] = 9.0f32.to_bits();
    let bytes = pack_globals(&layout, &b, &TextMap::new());
    assert_eq!(bytes.len(), 80);
    assert_eq!(single(&bytes, 0), 2.5);
    let elem = |i: usize| single(&bytes, 16 + i * 4);
    assert_eq!(elem(12), 7.0);
    assert_eq!(elem(13), 8.0);
    assert_eq!(elem(14), 9.0);
    assert_eq!(elem(15), 1.0);
}

#[test]
fn audio_spectrum_packs_live_bands_left_and_right() {
    let layout = GlobalsLayout::build(
        &names(&["g_AudioSpectrum16Left", "g_AudioSpectrum16Right"]),
        &TextMap::new(),
    );
    let mut b = builtins();
    b.audio16[0] = 0.5f32.to_bits();
    b.audio16[15] = 0.25f32.to_bits();
    let bytes = pack_globals(&layout, &b, &TextMap::new());
    let right_off = layout.members[1].offset;
    let elem = |off: usize| single(&bytes, off);
    assert_eq!(elem(0), 0.5, "Left band 0");
    assert_eq!(elem(15 * 16), 0.25, "Left band 15 at stride 16");
    assert_eq!(elem(right_off), 0.5, "Right band 0 mirrors Left");
    assert_eq!(elem(right_off + 15 * 16), 0.25, "Right band 15 mirrors Left");
}

#[test]
fn silent_builtins_pack_zero_audio() {
    let layout = GlobalsLayout::build(&names(&["g_AudioSpectrum64Left"]), &TextMap::new());
    let bytes = pack_globals(&layout, &builtins(), &TextMap::new());
    assert!(bytes.iter().all(|&x| x == 0), "silent spectrum is all-zero (V9)");
}

#[test]
fn pack_writes_mat3_with_column_padding() {
    let layout = GlobalsLayout::build(&names(&["g_NormalModelMatrix"]), &TextMap::new());
    let bytes = pack_globals(&layout, &builtins(), &TextMap::new());
    assert_eq!(bytes.len(), 48);
    let elem = |off: usize| single(&bytes, off);
    assert_eq!(elem(0), 1.0);
    assert_eq!(elem(16 + 4), 1.0);
    assert_eq!(elem(32 + 8), 1.0);
}

#[test]
fn every_type_has_its_size_and_alignment() {
    let table = [
        (GlType::Float, 4, 4),
        (GlType::Vec2, 8, 8),
        (GlType::Vec3, 16, 12),
        (GlType::Vec4, 16, 16),
        (GlType::Mat3, 16, 48),
        (GlType::Mat4, 16, 64),
        (GlType::FloatArray(3), 16, 48),
    ];
    for (ty, align, size) in table {
        assert_eq!(ty.align(), align);
        assert_eq!(ty.size(), size);
    }
    assert_eq!(GlType::from_param(ParamType::Int), GlType::Float);
    assert_eq!(GlType::from_param(ParamType::Vec4), GlType::Vec4);
    assert!(GlobalsLayout::build(&vec![], &TextMap::new()).is_empty());
}

#[test]
fn names_of_textures_are_told_apart() {
    assert_eq!(builtin_type("g_TextureResolution"), Some(GlType::Vec4));
    assert_eq!(builtin_type("g_Texture12Resolution"), Some(GlType::Vec4));
    assert_eq!(builtin_type("g_TextureXResolution"), None);
    assert_eq!(builtin_type("g_Texture0Rotation"), Some(GlType::Vec4));
    assert_eq!(builtin_type("g_Texture1Rotation"), None);
    let mut b = builtins();
    b.texture_resolution[2] = [1, 2, 3, 4];
    assert_eq!(b.components_into("g_Texture2Resolution"), Some(vec![1, 2, 3, 4]));
    assert_eq!(b.components_into("g_Texture9Resolution"), Some(vec![0; 4]));
    assert_eq!(b.components_into("g_TextureResolution"), None);
    assert_eq!(b.components_into("g_RefractAmount"), Some(vec![0.05f32.to_bits()]));
    assert_eq!(b.components_into("g_Nothing"), None);
}

#[test]
fn packed_values_read_back_from_their_places() {
    let param = Parameter {
        name: "g_Own".to_owned(),
        material: "own".to_owned(),
        ty: ParamType::Vec3,
        default: None,
    };
    let types = param_types(&vec![param]);
    let layout = GlobalsLayout::build(&names(&["g_Time", "g_Own", "g_Other", "g_Daytime"]), &types);
    assert_eq!(layout.members[1].ty, GlType::Vec3);
    assert_eq!(layout.members[2].ty, GlType::Float);
    let mut params = TextMap::new();
    params.insert(
        "g_Own".to_owned(),
        Bits { values: vec![0x0102_0304, 0xffff_ffff, 7] },
    );
    let mut b = builtins();
    b.time = 11;
    b.daytime = 13;
    let bytes = pack_globals(&layout, &b, &params);
    let word = |at: usize| u32::from_le_bytes(bytes[at..at + 4].try_into().unwrap());
    assert_eq!(word(0), 11);
    assert_eq!(word(16), 0x0102_0304);
    assert_eq!(word(20), 0xffff_ffff);
    assert_eq!(word(24), 7);
    assert_eq!(word(28), 0, "a value that nobody gives is zero");
    assert_eq!(word(32), 13);
}
