//! What a scene is built from, before anything of it is drawn.
use std::collections::HashMap;

use vstd::prelude::*;

use crate::items::lists;
use crate::material::Blending;
use crate::object::{
    AnimationLayer, AnimationLayerModel, ImageObject, KindModel, Object, ObjectKind, ObjectModel, ParticleObject,
};
use crate::particle::{ParticleSystem, ParticleSystemModel};
use crate::scene::{Projection, Scene};
use crate::slots::{is_file_name, names_file};
use crate::strings::{opt_view, views};

verus! {

broadcast use vstd::std_specs::hash::group_hash_axioms;

/// Why a scene cannot be shown.
#[derive(Clone, Copy, Debug, PartialEq, Eq, Structural)]
pub enum SceneError {
    BadProjection { width: u32, height: u32 },
    NoRenderableObjects,
}

/// The size of a scene that names none: that of what it shows, or else that
/// of the output, or else a common one.
pub open spec fn fallback_size(extent: (u32, u32), output: (u32, u32)) -> (u32, u32) {
    if extent.0 > 0 && extent.1 > 0 {
        extent
    } else if output.0 > 0 && output.1 > 0 {
        output
    } else {
        (1920, 1080)
    }
}

/// The size of a scene. Of a size that does not fit 32 bits only the low ones count.
pub open spec fn scene_size(p: Projection, extent: (u32, u32), output: (u32, u32)) -> (u32, u32) {
    match p {
        Projection::Orthogonal { width, height } => if width > 0 && height > 0 {
            ((width % 0x1_0000_0000) as u32, (height % 0x1_0000_0000) as u32)
        } else {
            fallback_size(extent, output)
        },
        _ => fallback_size(extent, output),
    }
}

pub fn auto_projection(extent: (u32, u32), output: (u32, u32)) -> (r: (u32, u32))
    ensures
        r == fallback_size(extent, output),
{
    if extent.0 > 0 && extent.1 > 0 {
        extent
    } else if output.0 > 0 && output.1 > 0 {
        output
    } else {
        (1920, 1080)
    }
}

/// The size of a scene. `extent` is the size of what its layers cover.
pub fn projection_size(p: &Projection, extent: (u32, u32), output: (u32, u32)) -> (r: Result<
    (u32, u32),
    SceneError,
>)
    ensures
        r == (if scene_size(*p, extent, output).0 == 0 || scene_size(*p, extent, output).1 == 0 {
            Err(
                SceneError::BadProjection {
                    width: scene_size(*p, extent, output).0,
                    height: scene_size(*p, extent, output).1,
                },
            )
        } else {
            Ok(scene_size(*p, extent, output))
        }),
{
    let (width, height) = match p {
        Projection::Orthogonal { width, height } => if *width > 0 && *height > 0 {
            ((*width % 0x1_0000_0000) as u32, (*height % 0x1_0000_0000) as u32)
        } else {
            auto_projection(extent, output)
        },
        _ => auto_projection(extent, output),
    };
    if width == 0 || height == 0 {
        Err(SceneError::BadProjection { width, height })
    } else {
        Ok((width, height))
    }
}

/// The parents of the first `k` objects. Of two with one id the later counts.
pub open spec fn parents_upto(objects: Seq<ObjectModel>, k: int) -> Map<i64, Option<i64>>
    decreases k,
{
    if k <= 0 {
        Map::empty()
    } else {
        parents_upto(objects, k - 1).insert(objects[k - 1].base.id, objects[k - 1].base.parent)
    }
}

pub fn parent_table(scene: &Scene) -> (r: HashMap<i64, Option<i64>>)
    ensures
        r@ == parents_upto(scene@.objects, scene@.objects.len() as int),
{
    let ghost all = scene@.objects;
    let mut out: HashMap<i64, Option<i64>> = HashMap::new();
    let mut i: usize = 0;
    while i < scene.objects.len()
        invariant
            i <= scene.objects@.len(),
            all == views(scene.objects@),
            out@ == parents_upto(all, i as int),
        decreases scene.objects@.len() - i,
    {
        let o = &scene.objects[i];
        assert(all[i as int] == o@);
        out.insert(o.base.id, o.base.parent);
        i += 1;
    }
    out
}

/// Whether the first `k` objects are visible by themselves.
pub open spec fn base_visible_upto(objects: Seq<ObjectModel>, k: int) -> Map<i64, bool>
    decreases k,
{
    if k <= 0 {
        Map::empty()
    } else {
        base_visible_upto(objects, k - 1).insert(
            objects[k - 1].base.id,
            objects[k - 1].base.visible.value,
        )
    }
}

/// Whether the objects are visible, once the first `k` have been looked at for
/// images that hide themselves.
pub open spec fn visible_upto(objects: Seq<ObjectModel>, k: int) -> Map<i64, bool>
    decreases k,
{
    if k <= 0 {
        base_visible_upto(objects, objects.len() as int)
    } else {
        let before = visible_upto(objects, k - 1);
        match objects[k - 1].kind {
            KindModel::Image(i) => if i.visible.value {
                before
            } else {
                before.insert(objects[k - 1].base.id, false)
            },
            _ => before,
        }
    }
}

pub fn visibility_table(scene: &Scene) -> (r: HashMap<i64, bool>)
    ensures
        r@ == visible_upto(scene@.objects, scene@.objects.len() as int),
{
    let ghost all = scene@.objects;
    let mut out: HashMap<i64, bool> = HashMap::new();
    let mut i: usize = 0;
    while i < scene.objects.len()
        invariant
            i <= scene.objects@.len(),
            all == views(scene.objects@),
            out@ == base_visible_upto(all, i as int),
        decreases scene.objects@.len() - i,
    {
        let o = &scene.objects[i];
        assert(all[i as int] == o@);
        out.insert(o.base.id, o.base.visible.value);
        i += 1;
    }
    let mut k: usize = 0;
    while k < scene.objects.len()
        invariant
            k <= scene.objects@.len(),
            all == views(scene.objects@),
            out@ == visible_upto(all, k as int),
        decreases scene.objects@.len() - k,
    {
        let o = &scene.objects[k];
        assert(all[k as int] == o@);
        if let ObjectKind::Image(img) = &o.kind {
            if !img.visible.value {
                out.insert(o.base.id, false);
            }
        }
        k += 1;
    }
    out
}

/// Whether an object with the id is an image.
pub open spec fn is_image_id(objects: Seq<ObjectModel>, id: i64) -> bool {
    exists|i: int| 0 <= i < objects.len() && (#[trigger] objects[i]).base.id == id && objects[i].kind is Image
}

/// Whether an object other than the one with the id draws from it.
pub open spec fn is_wanted(objects: Seq<ObjectModel>, id: i64) -> bool {
    exists|i: int|
        0 <= i < objects.len() && (#[trigger] objects[i]).base.id != id
            && objects[i].base.dependencies.contains(id)
}

/// Whether an image is one that other objects draw from.
pub open spec fn is_donor_id(objects: Seq<ObjectModel>, id: i64) -> bool {
    is_wanted(objects, id) && is_image_id(objects, id)
}

/// Whether other objects draw from the image with the id.
pub fn is_donor(scene: &Scene, id: i64) -> (r: bool)
    ensures
        r == is_donor_id(scene@.objects, id),
{
    let ghost all = scene@.objects;
    let mut wanted = false;
    let mut image = false;
    let mut i: usize = 0;
    while i < scene.objects.len()
        invariant
            i <= scene.objects@.len(),
            all == views(scene.objects@),
            wanted == exists|j: int|
                0 <= j < i && (#[trigger] all[j]).base.id != id && all[j].base.dependencies.contains(
                    id,
                ),
            image == exists|j: int|
                0 <= j < i && (#[trigger] all[j]).base.id == id && all[j].kind is Image,
        decreases scene.objects@.len() - i,
    {
        let o = &scene.objects[i];
        assert(all[i as int] == o@);
        if o.base.id != id {
            if lists(&o.base.dependencies, id) {
                wanted = true;
            }
        } else if let ObjectKind::Image(_) = &o.kind {
            image = true;
        }
        i += 1;
    }
    wanted && image
}

/// Positions in the list of objects that some condition picks, in order.
pub open spec fn picked_positions(
    order: Seq<usize>,
    pick: spec_fn(usize) -> bool,
    k: int,
) -> Seq<usize>
    decreases k,
{
    if k <= 0 {
        Seq::empty()
    } else if pick(order[k - 1]) {
        picked_positions(order, pick, k - 1).push(order[k - 1])
    } else {
        picked_positions(order, pick, k - 1)
    }
}

/// The positions of the images that others draw from: these are built first,
/// one after the other.
pub fn donor_positions(scene: &Scene, order: &Vec<usize>) -> (r: Vec<usize>)
    requires
        forall|i: int| 0 <= i < order@.len() ==> (#[trigger] order@[i]) < scene.objects@.len(),
    ensures
        r@ == picked_positions(
            order@,
            |i: usize|
                is_donor_id(scene@.objects, scene@.objects[i as int].base.id)
                    && scene@.objects[i as int].kind is Image,
            order@.len() as int,
        ),
{
    let ghost all = scene@.objects;
    let ghost pick = |i: usize| is_donor_id(all, all[i as int].base.id) && all[i as int].kind is Image;
    let mut out: Vec<usize> = Vec::new();
    let mut k: usize = 0;
    while k < order.len()
        invariant
            k <= order@.len(),
            all == views(scene.objects@),
            all == scene@.objects,
            forall|i: int| 0 <= i < order@.len() ==> (#[trigger] order@[i]) < scene.objects@.len(),
            forall|i: usize|
                #[trigger] pick(i) == (is_donor_id(all, all[i as int].base.id)
                    && all[i as int].kind is Image),
            out@ == picked_positions(order@, pick, k as int),
        decreases order@.len() - k,
    {
        let at = order[k];
        let o = &scene.objects[at];
        assert(all[at as int] == o@);
        let image = match &o.kind {
            ObjectKind::Image(_) => true,
            _ => false,
        };
        if image && is_donor(scene, o.base.id) {
            out.push(at);
        }
        k += 1;
    }
    out
}

/// Whether a list holds a position.
pub fn holds(positions: &Vec<usize>, p: usize) -> (r: bool)
    ensures
        r == positions@.contains(p),
{
    let mut i: usize = 0;
    while i < positions.len()
        invariant
            i <= positions@.len(),
            forall|j: int| 0 <= j < i ==> positions@[j] != p,
        decreases positions@.len() - i,
    {
        if positions[i] == p {
            assert(positions@.contains(p));
            return true;
        }
        i += 1;
    }
    false
}

/// The positions of the images that are left once some are built: these are
/// built side by side.
pub fn remaining_images(scene: &Scene, order: &Vec<usize>, built: &Vec<usize>) -> (r: Vec<usize>)
    requires
        forall|i: int| 0 <= i < order@.len() ==> (#[trigger] order@[i]) < scene.objects@.len(),
    ensures
        r@ == picked_positions(
            order@,
            |i: usize| !built@.contains(i) && scene@.objects[i as int].kind is Image,
            order@.len() as int,
        ),
{
    let ghost all = scene@.objects;
    let ghost pick = |i: usize| !built@.contains(i) && all[i as int].kind is Image;
    let mut out: Vec<usize> = Vec::new();
    let mut k: usize = 0;
    while k < order.len()
        invariant
            k <= order@.len(),
            all == views(scene.objects@),
            all == scene@.objects,
            forall|i: int| 0 <= i < order@.len() ==> (#[trigger] order@[i]) < scene.objects@.len(),
            forall|i: usize|
                #[trigger] pick(i) == (!built@.contains(i) && all[i as int].kind is Image),
            out@ == picked_positions(order@, pick, k as int),
        decreases order@.len() - k,
    {
        let at = order[k];
        assert(all[at as int] == scene.objects@[at as int]@);
        let image = match &scene.objects[at].kind {
            ObjectKind::Image(_) => true,
            _ => false,
        };
        if image && !holds(built, at) {
            out.push(at);
        }
        k += 1;
    }
    out
}

/// The positions of the objects that a scene shows, in order. `built` says of
/// each object whether something came of it; a scene with nothing to show is
/// an error.
pub fn shown_objects(order: &Vec<usize>, built: &Vec<bool>) -> (r: Result<Vec<usize>, SceneError>)
    requires
        forall|i: int| 0 <= i < order@.len() ==> (#[trigger] order@[i]) < built@.len(),
    ensures
        match r {
            Ok(v) => v@ == picked_positions(
                order@,
                |i: usize| built@[i as int],
                order@.len() as int,
            ) && v@.len() > 0,
            Err(e) => e == SceneError::NoRenderableObjects && picked_positions(
                order@,
                |i: usize| built@[i as int],
                order@.len() as int,
            ).len() == 0,
        },
{
    let ghost pick = |i: usize| built@[i as int];
    let mut out: Vec<usize> = Vec::new();
    let mut k: usize = 0;
    while k < order.len()
        invariant
            k <= order@.len(),
            forall|i: int| 0 <= i < order@.len() ==> (#[trigger] order@[i]) < built@.len(),
            forall|i: usize| #[trigger] pick(i) == built@[i as int],
            out@ == picked_positions(order@, pick, k as int),
        decreases order@.len() - k,
    {
        if built[order[k]] {
            out.push(order[k]);
        }
        k += 1;
    }
    if out.len() == 0 {
        Err(SceneError::NoRenderableObjects)
    } else {
        Ok(out)
    }
}

/// The animation that a puppet takes: that of its first visible layer, if it
/// is a number that 32 bits hold.
pub open spec fn puppet_animation(layers: Seq<AnimationLayerModel>, from: int) -> Option<u32>
    decreases layers.len() - from,
{
    if from < 0 || from >= layers.len() {
        None
    } else if layers[from].visible.value {
        let a = layers[from].animation.value;
        if 0 <= a <= u32::MAX {
            Some(a as u32)
        } else {
            None
        }
    } else {
        puppet_animation(layers, from + 1)
    }
}

pub fn wanted_animation(layers: &Vec<AnimationLayer>) -> (r: Option<u32>)
    ensures
        r == puppet_animation(views(layers@), 0),
{
    let ghost all = views(layers@);
    let mut i: usize = 0;
    while i < layers.len()
        invariant
            i <= layers@.len(),
            all == views(layers@),
            puppet_animation(all, 0) == puppet_animation(all, i as int),
        decreases layers@.len() - i,
    {
        let l = &layers[i];
        assert(all[i as int] == l@);
        if l.visible.value {
            let a = l.animation.value;
            return if 0 <= a && a <= 4294967295 {
                Some(a as u32)
            } else {
                None
            };
        }
        i += 1;
    }
    None
}

/// Whether an image layer is shown. One that others are drawn from always is.
pub fn layer_visible(object: &Object, image: &ImageObject, offscreen_donor: bool) -> (r: bool)
    ensures
        r == (offscreen_donor || (image@.visible.value && object@.base.visible.value)),
{
    offscreen_donor || (image.visible.value && object.base.visible.value)
}

/// Whether a particle system is built: only one that is visible is.
pub fn builds_particles(object: &Object, particles: &ParticleObject) -> (r: bool)
    ensures
        r == (particles@.visible.value && object@.base.visible.value),
{
    particles.visible.value && object.base.visible.value
}

/// A number as 64 bits, a negative one as its two's complement.
pub open spec fn id_bits(id: i64) -> u64 {
    if id >= 0 {
        id as u64
    } else {
        (id + 0x1_0000_0000_0000_0000) as u64
    }
}

/// The seed of the particles of an object.
pub fn particle_seed(id: i64) -> (r: u64)
    ensures
        r == id_bits(id) ^ 0x00C0_FFEE,
{
    let bits: u64 = if id >= 0 {
        id as u64
    } else {
        u64::MAX - (-(id + 1)) as u64
    };
    bits ^ 0x00C0_FFEE
}

/// The texture and the blending of a particle system. Without a material it
/// adds up; a render target is no texture of a particle.
pub open spec fn particle_look(s: ParticleSystemModel) -> (Option<Seq<char>>, Blending) {
    match s.resolved_material {
        Some(passes) => if passes.len() > 0 {
            let texture = if passes[0].textures.len() > 0 {
                match passes[0].textures[0] {
                    Some(n) => if names_file(n) {
                        Some(n)
                    } else {
                        None
                    },
                    None => None,
                }
            } else {
                None
            };
            (texture, passes[0].blending)
        } else {
            (None, Blending::Additive)
        },
        None => (None, Blending::Additive),
    }
}

pub fn particle_material(system: &ParticleSystem) -> (r: (Option<String>, Blending))
    ensures
        (opt_view(r.0), r.1) == particle_look(system@),
{
    if let Some(m) = &system.resolved_material {
        if m.passes.len() > 0 {
            let pass = &m.passes[0];
            assert(system@.resolved_material->0[0] == pass@);
            let mut texture: Option<String> = None;
            if pass.textures.len() > 0 {
                assert(pass@.textures[0] == opt_view(pass.textures@[0]));
                if let Some(n) = &pass.textures[0] {
                    if is_file_name(n.as_str()) {
                        texture = Some(n.clone());
                    }
                }
            }
            return (texture, pass.blending);
        }
    }
    (None, Blending::Additive)
}

} // verus!
