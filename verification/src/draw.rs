//! How the passes of a layer are drawn.
use vstd::prelude::*;

use crate::plan::{Geometry, Output, PassOutput};
use crate::strings::{same_text, views};

verus! {

/// A matrix that a pass is drawn with.
#[derive(Clone, Copy, Debug, PartialEq, Eq, Structural)]
pub enum PassMatrix {
    Identity,
    /// The scene's, moved by the layer's parallax.
    Screen,
    /// The pass's own.
    Model,
    /// The scene's, on top of the layer's place in it.
    LayerInScreen,
}

/// A matrix that takes a pass back from where it is drawn.
#[derive(Clone, Copy, Debug, PartialEq, Eq, Structural)]
pub enum InverseMatrix {
    Absent,
    /// The inverse of the scene's, with the layer's turn.
    Screen,
    /// The one from clip space to the pixels of its first texture, where that
    /// has a size.
    Texture,
}

/// The matrix that the geometry of a pass is placed by.
pub open spec fn geometry_matrix(g: Geometry) -> PassMatrix {
    match g {
        Geometry::Scene | Geometry::Puppet | Geometry::SceneCopy => PassMatrix::Screen,
        Geometry::PuppetCopy => PassMatrix::Model,
        Geometry::Copy | Geometry::Pass => PassMatrix::Identity,
    }
}

pub fn mvp_of(g: Geometry) -> (r: PassMatrix)
    ensures
        r == geometry_matrix(g),
{
    match g {
        Geometry::Scene | Geometry::Puppet | Geometry::SceneCopy => PassMatrix::Screen,
        Geometry::PuppetCopy => PassMatrix::Model,
        Geometry::Copy | Geometry::Pass => PassMatrix::Identity,
    }
}

/// The matrix by which an effect knows where the layer stands: that of the
/// geometry where it is drawn there, or else that of the layer.
pub fn effect_mvp_of(g: Geometry) -> (r: PassMatrix)
    ensures
        r == (match g {
            Geometry::Copy | Geometry::Pass => PassMatrix::LayerInScreen,
            _ => geometry_matrix(g),
        }),
{
    match g {
        Geometry::Copy | Geometry::Pass => PassMatrix::LayerInScreen,
        _ => mvp_of(g),
    }
}

pub fn mvp_inverse_of(g: Geometry) -> (r: InverseMatrix)
    ensures
        r == (match g {
            Geometry::Scene | Geometry::Puppet | Geometry::SceneCopy => InverseMatrix::Screen,
            Geometry::Copy => InverseMatrix::Texture,
            Geometry::Pass | Geometry::PuppetCopy => InverseMatrix::Absent,
        }),
{
    match g {
        Geometry::Scene | Geometry::Puppet | Geometry::SceneCopy => InverseMatrix::Screen,
        Geometry::Copy => InverseMatrix::Texture,
        Geometry::Pass | Geometry::PuppetCopy => InverseMatrix::Absent,
    }
}

/// What a pass is drawn into.
#[derive(Clone, Copy, Debug, PartialEq, Eq, Structural)]
pub enum DrawTarget {
    Scene,
    /// One of the two composites of the layer.
    Composite(usize),
    /// One of the named targets of the layer, by its position.
    Named(usize),
}

/// The position of a name in a list, at or after `from`.
pub open spec fn name_at(names: Seq<Seq<char>>, name: Seq<char>, from: int) -> Option<int>
    decreases names.len() - from,
{
    if from < 0 || from >= names.len() {
        None
    } else if names[from] == name {
        Some(from)
    } else {
        name_at(names, name, from + 1)
    }
}

/// What a pass is drawn into: its output, or the scene where the layer does
/// not have it.
pub open spec fn target_of(output: Output, composites: (bool, bool), names: Seq<Seq<char>>) -> DrawTarget {
    match output {
        Output::Scene => DrawTarget::Scene,
        Output::Fbo(i) => if (i == 0 && composites.0) || (i == 1 && composites.1) {
            DrawTarget::Composite(i)
        } else {
            DrawTarget::Scene
        },
        Output::Named(n) => match name_at(names, n, 0) {
            Some(i) => DrawTarget::Named(i as usize),
            None => DrawTarget::Scene,
        },
    }
}

/// What a pass is drawn into, and whether that is cleared first. `composites`
/// says which of its two the layer has.
pub fn draw_target(output: &PassOutput, composites: (bool, bool), names: &Vec<String>) -> (r: (
    DrawTarget,
    bool,
))
    requires
        output@ matches Output::Fbo(i) ==> i < 2,
    ensures
        r.0 == target_of(output@, composites, views(names@)),
        r.1 == !(output@ is Scene),
{
    match output {
        PassOutput::Scene => (DrawTarget::Scene, false),
        PassOutput::Fbo(i) => if (*i == 0 && composites.0) || (*i == 1 && composites.1) {
            (DrawTarget::Composite(*i), true)
        } else {
            (DrawTarget::Scene, true)
        },
        PassOutput::Named(n) => {
            let ghost all = views(names@);
            let mut i: usize = 0;
            while i < names.len()
                invariant
                    i <= names@.len(),
                    all == views(names@),
                    output@ == Output::Named(n@),
                    name_at(all, n@, 0) == name_at(all, n@, i as int),
                decreases names@.len() - i,
            {
                assert(all[i as int] == names@[i as int]@);
                if same_text(names[i].as_str(), n.as_str()) {
                    return (DrawTarget::Named(i), true);
                }
                i += 1;
            }
            (DrawTarget::Scene, true)
        },
    }
}

/// Whether a pass takes the frame of an animated texture: only the first does.
pub fn takes_atlas_frame(pass_index: usize, animated: bool) -> (r: bool)
    ensures
        r == (pass_index == 0 && animated),
{
    pass_index == 0 && animated
}

} // verus!
