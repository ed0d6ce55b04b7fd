use kirie::blend::{
    blend_state, cull_mode, depth_stencil_state, BlendComponent, BlendFactor, BlendOperation,
    DepthTest, Face,
};
use kirie::material::{Blending, CullMode, DepthMode};

fn comp(src: BlendFactor, dst: BlendFactor) -> BlendComponent {
    BlendComponent {
        src_factor: src,
        dst_factor: dst,
        operation: BlendOperation::Add,
    }
}

#[test]
fn normal_is_replace() {
    let b = blend_state(Blending::Normal);
    assert_eq!(b.color, comp(BlendFactor::One, BlendFactor::Zero));
    assert_eq!(b.alpha, comp(BlendFactor::One, BlendFactor::Zero));
}

#[test]
fn translucent_uses_srcalpha_oneminus() {
    let b = blend_state(Blending::Translucent);
    assert_eq!(b.color, comp(BlendFactor::SrcAlpha, BlendFactor::OneMinusSrcAlpha));
    assert_eq!(b.alpha, comp(BlendFactor::One, BlendFactor::OneMinusSrcAlpha));
}

#[test]
fn additive_uses_srcalpha_one() {
    let b = blend_state(Blending::Additive);
    let expect = comp(BlendFactor::SrcAlpha, BlendFactor::One);
    assert_eq!(b.color, expect);
    assert_eq!(b.alpha, expect);
}

#[test]
fn every_mode_maps_to_add_operation() {
    for mode in [Blending::Normal, Blending::Translucent, Blending::Additive] {
        let b = blend_state(mode);
        assert_eq!(b.color.operation, BlendOperation::Add);
        assert_eq!(b.alpha.operation, BlendOperation::Add);
    }
}

#[test]
fn cull_mapping() {
    assert_eq!(cull_mode(CullMode::NoCull), None);
    assert_eq!(cull_mode(CullMode::Normal), Some(Face::Back));
}

#[test]
fn depth_disabled_has_no_state() {
    assert!(depth_stencil_state(DepthMode::Disabled, DepthMode::Disabled).is_none());
    assert!(depth_stencil_state(DepthMode::Disabled, DepthMode::Enabled).is_none());
}

#[test]
fn depth_enabled_is_lequal_with_write_flag() {
    let on = depth_stencil_state(DepthMode::Enabled, DepthMode::Enabled).unwrap();
    assert_eq!(on.test, DepthTest::LessEqual);
    assert!(on.depth_write_enabled);

    let off = depth_stencil_state(DepthMode::Enabled, DepthMode::Disabled).unwrap();
    assert_eq!(off.test, DepthTest::LessEqual);
    assert!(!off.depth_write_enabled);
}
