//! How what a pass draws is mixed with what is there.
use vstd::prelude::*;

use crate::material::{Blending, CullMode, DepthMode};

verus! {

#[derive(Clone, Copy, Debug, PartialEq, Eq, Structural)]
pub enum BlendFactor {
    Zero,
    One,
    SrcAlpha,
    OneMinusSrcAlpha,
}

#[derive(Clone, Copy, Debug, PartialEq, Eq, Structural)]
pub enum BlendOperation {
    Add,
}

#[derive(Clone, Copy, Debug, PartialEq, Eq, Structural)]
pub struct BlendComponent {
    pub src_factor: BlendFactor,
    pub dst_factor: BlendFactor,
    pub operation: BlendOperation,
}

#[derive(Clone, Copy, Debug, PartialEq, Eq, Structural)]
pub struct BlendState {
    pub color: BlendComponent,
    pub alpha: BlendComponent,
}

/// What is drawn times one factor, added to what is there times another.
pub open spec fn sum_of(src: BlendFactor, dst: BlendFactor) -> BlendComponent {
    BlendComponent { src_factor: src, dst_factor: dst, operation: BlendOperation::Add }
}

/// How a mode mixes: it replaces, lies over what is there by its own alpha,
/// or adds to it. What lies over adds all of its alpha.
pub open spec fn blend_of(mode: Blending) -> BlendState {
    match mode {
        Blending::Normal => BlendState {
            color: sum_of(BlendFactor::One, BlendFactor::Zero),
            alpha: sum_of(BlendFactor::One, BlendFactor::Zero),
        },
        Blending::Translucent => BlendState {
            color: sum_of(BlendFactor::SrcAlpha, BlendFactor::OneMinusSrcAlpha),
            alpha: sum_of(BlendFactor::One, BlendFactor::OneMinusSrcAlpha),
        },
        Blending::Additive => BlendState {
            color: sum_of(BlendFactor::SrcAlpha, BlendFactor::One),
            alpha: sum_of(BlendFactor::SrcAlpha, BlendFactor::One),
        },
    }
}

fn component(src: BlendFactor, dst: BlendFactor) -> (r: BlendComponent)
    ensures
        r == sum_of(src, dst),
{
    BlendComponent { src_factor: src, dst_factor: dst, operation: BlendOperation::Add }
}

pub fn blend_state(mode: Blending) -> (r: BlendState)
    ensures
        r == blend_of(mode),
{
    let (src, dst) = match mode {
        Blending::Normal => (BlendFactor::One, BlendFactor::Zero),
        Blending::Translucent => (BlendFactor::SrcAlpha, BlendFactor::OneMinusSrcAlpha),
        Blending::Additive => (BlendFactor::SrcAlpha, BlendFactor::One),
    };
    let alpha = match mode {
        Blending::Translucent => component(BlendFactor::One, BlendFactor::OneMinusSrcAlpha),
        _ => component(src, dst),
    };
    BlendState { color: component(src, dst), alpha }
}

#[derive(Clone, Copy, Debug, PartialEq, Eq, Structural)]
pub enum Face {
    Back,
}

/// The side of a triangle that is not drawn.
pub fn cull_mode(mode: CullMode) -> (r: Option<Face>)
    ensures
        r == (match mode {
            CullMode::Normal => Some(Face::Back),
            CullMode::NoCull => None,
        }),
{
    match mode {
        CullMode::Normal => Some(Face::Back),
        CullMode::NoCull => None,
    }
}

#[derive(Clone, Copy, Debug, PartialEq, Eq, Structural)]
pub enum DepthTest {
    LessEqual,
}

#[derive(Clone, Copy, Debug, PartialEq, Eq, Structural)]
pub struct DepthState {
    pub depth_write_enabled: bool,
    pub test: DepthTest,
}

/// What depth does to a pass; none where it is not tested.
pub fn depth_stencil_state(depthtest: DepthMode, depthwrite: DepthMode) -> (r: Option<DepthState>)
    ensures
        r == (match depthtest {
            DepthMode::Disabled => None,
            DepthMode::Enabled => Some(
                DepthState {
                    depth_write_enabled: depthwrite == DepthMode::Enabled,
                    test: DepthTest::LessEqual,
                },
            ),
        }),
{
    match depthtest {
        DepthMode::Disabled => None,
        DepthMode::Enabled => Some(
            DepthState {
                depth_write_enabled: match depthwrite {
                    DepthMode::Enabled => true,
                    DepthMode::Disabled => false,
                },
                test: DepthTest::LessEqual,
            },
        ),
    }
}

} // verus!
