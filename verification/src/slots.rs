//! Which texture stands in each slot of a pass.
use vstd::prelude::*;

use crate::copy::copy_opt;
use crate::material::{Blending, Pass};
use crate::object::{ImageModel, ImageObject};
use crate::strings::{
    after_last, chars_of, decimal, decimal_of, has_prefix, join2, last_piece, lower, opt_view,
    same_ignoring_case, same_text, starts_with, text_of, texts, views,
};
use crate::table::TextSet;

verus! {

/// Whether a shader is the one that composes layers.
pub open spec fn composes(shader: Seq<char>) -> bool {
    lower(last_piece(shader, '/')) == lower("composelayer"@)
}

pub fn is_compose_layer(shader: &str) -> (r: bool)
    ensures
        r == composes(shader@),
{
    let name = after_last(shader, '/');
    same_ignoring_case(name.as_str(), "composelayer")
}

/// Whether a texture name stands for the scene as drawn so far.
pub open spec fn names_scene(name: Seq<char>) -> bool {
    name == "_rt_FullFrameBuffer"@ || name == "_rt_MipMappedFrameBuffer"@
}

pub fn is_scene_rt(name: &str) -> (r: bool)
    ensures
        r == names_scene(name@),
{
    same_text(name, "_rt_FullFrameBuffer") || same_text(name, "_rt_MipMappedFrameBuffer")
}

/// The blending that a pass is built with: the base pass of a puppet lies over
/// itself, so it is always translucent.
pub fn effective_blending(is_puppet_base: bool, planned: Blending) -> (r: Blending)
    ensures
        r == puppet_blending(is_puppet_base, planned),
{
    if is_puppet_base {
        Blending::Translucent
    } else {
        planned
    }
}

pub open spec fn puppet_blending(is_puppet_base: bool, planned: Blending) -> Blending {
    if is_puppet_base {
        Blending::Translucent
    } else {
        planned
    }
}

/// The name in the first texture slot of a layer's first pass.
pub open spec fn base_name(image: ImageModel) -> Option<Seq<char>> {
    match image.material {
        Some(passes) => if passes.len() > 0 && passes[0].textures.len() > 0 {
            passes[0].textures[0]
        } else {
            None
        },
        None => None,
    }
}

pub fn base_layer_name(image: &ImageObject) -> (r: Option<String>)
    ensures
        opt_view(r) == base_name(image@),
{
    match &image.material {
        Some(m) => if m.passes.len() > 0 && m.passes[0].textures.len() > 0 {
            assert(image@.material->0[0] == m.passes@[0]@);
            copy_opt(&m.passes[0].textures[0])
        } else {
            None
        },
        None => None,
    }
}

/// Whether a name is that of a texture file, not of a render target.
pub open spec fn names_file(name: Seq<char>) -> bool {
    !has_prefix(name, "_rt_"@) && !has_prefix(name, "_alias_"@)
}

pub fn is_file_name(name: &str) -> (r: bool)
    ensures
        r == names_file(name@),
{
    !starts_with(name, "_rt_") && !starts_with(name, "_alias_")
}

/// A sampler of a shader: the slot it reads, and where it is bound.
#[derive(Debug)]
pub struct SamplerSlot {
    pub name: String,
    pub slot: Option<u32>,
    pub texture_binding: u32,
    pub sampler_binding: u32,
    pub default_texture: Option<String>,
    pub combo: Option<String>,
}

/// What a [`SamplerSlot`] holds.
pub struct SlotModel {
    pub name: Seq<char>,
    pub slot: Option<u32>,
    pub texture_binding: u32,
    pub sampler_binding: u32,
    pub default_texture: Option<Seq<char>>,
    pub combo: Option<Seq<char>>,
}

impl View for SamplerSlot {
    type V = SlotModel;

    open spec fn view(&self) -> SlotModel {
        SlotModel {
            name: self.name@,
            slot: self.slot,
            texture_binding: self.texture_binding,
            sampler_binding: self.sampler_binding,
            default_texture: opt_view(self.default_texture),
            combo: opt_view(self.combo),
        }
    }
}

/// The name that a pass puts into the slot of a sampler.
pub open spec fn bound_name(slot: SlotModel, textures: Seq<Option<Seq<char>>>) -> Option<Seq<char>> {
    match slot.slot {
        Some(i) => if i < textures.len() {
            textures[i as int]
        } else {
            None
        },
        None => None,
    }
}

/// The name of the texture that a sampler reads: the pass's, or else the shader's own.
pub open spec fn slot_name(slot: SlotModel, textures: Seq<Option<Seq<char>>>) -> Option<Seq<char>> {
    match bound_name(slot, textures) {
        Some(n) => Some(n),
        None => slot.default_texture,
    }
}

fn sampler_name(slot: &SamplerSlot, textures: &Vec<Option<String>>) -> (r: Option<String>)
    ensures
        opt_view(r) == slot_name(slot@, texts(textures@)),
{
    let bound: Option<String> = match slot.slot {
        Some(i) => if (i as usize) < textures.len() {
            copy_opt(&textures[i as usize])
        } else {
            None
        },
        None => None,
    };
    match bound {
        Some(n) => Some(n),
        None => copy_opt(&slot.default_texture),
    }
}

/// Whether one of the samplers reads the scene as drawn so far.
pub open spec fn reads_scene_by_default(
    textures: Seq<Option<Seq<char>>>,
    samplers: Seq<SlotModel>,
) -> bool {
    exists|i: int|
        0 <= i < samplers.len() && (slot_name(#[trigger] samplers[i], textures) matches Some(n)
            && names_scene(n))
}

/// Whether one of the samplers reads the scene as drawn so far: a texture that
/// the pass puts into its slot wins over the shader's own.
pub fn samples_scene_by_default(pass: &Pass, samplers: &Vec<SamplerSlot>) -> (r: bool)
    ensures
        r == reads_scene_by_default(pass@.textures, views(samplers@)),
{
    let mut i: usize = 0;
    while i < samplers.len()
        invariant
            i <= samplers@.len(),
            forall|j: int|
                0 <= j < i ==> !(slot_name(
                    #[trigger] views(samplers@)[j],
                    pass@.textures,
                ) matches Some(n) && names_scene(n)),
        decreases samplers@.len() - i,
    {
        let name = sampler_name(&samplers[i], &pass.textures);
        assert(views(samplers@)[i as int] == samplers@[i as int]@);
        match &name {
            Some(n) => {
                if is_scene_rt(n.as_str()) {
                    return true;
                }
            },
            None => {},
        }
        i += 1;
    }
    false
}

/// The render targets that a pass can name.
#[derive(Debug)]
pub struct TargetNames {
    /// The composites of other layers.
    pub cross: Vec<String>,
    /// The layer whose passes these are.
    pub id: i64,
    /// The targets that the layer's effects declare.
    pub fbos: Vec<String>,
}

/// What [`TargetNames`] hold.
pub struct NamesModel {
    pub cross: Seq<Seq<char>>,
    pub id: i64,
    pub fbos: Seq<Seq<char>>,
}

impl View for TargetNames {
    type V = NamesModel;

    open spec fn view(&self) -> NamesModel {
        NamesModel { cross: views(self.cross@), id: self.id, fbos: views(self.fbos@) }
    }
}

/// The name of a layer's composite; there are two, `a` and `b`.
pub open spec fn composite_name(id: i64, which: Seq<char>) -> Seq<char> {
    "_rt_imageLayerComposite_"@ + decimal(id as int) + "_"@ + which
}

/// The name of a layer's composite.
pub fn layer_composite_name(id: i64, which: &str) -> (r: String)
    ensures
        r@ == composite_name(id, which@),
{
    let n = decimal_of(id);
    let a = join2("_rt_imageLayerComposite_", n.as_str());
    let b = join2(a.as_str(), "_");
    join2(b.as_str(), which)
}

/// Where a render target's picture is.
#[derive(Debug)]
pub enum Target {
    /// The composite of another layer.
    Cross(String),
    /// What this layer has drawn so far.
    Front,
    /// A target that an effect declares.
    Named(String),
}

/// What a [`Target`] holds.
pub enum Place {
    Cross(Seq<char>),
    Front,
    Named(Seq<char>),
}

impl View for Target {
    type V = Place;

    open spec fn view(&self) -> Place {
        match self {
            Target::Cross(n) => Place::Cross(n@),
            Target::Front => Place::Front,
            Target::Named(n) => Place::Named(n@),
        }
    }
}

/// Where the target of exactly that name is.
pub open spec fn exact_place(names: NamesModel, n: Seq<char>) -> Option<Place> {
    if names.fbos.contains(n) {
        Some(Place::Named(n))
    } else if n == "previous"@ || n == composite_name(names.id, "a"@) || n == composite_name(
        names.id,
        "b"@,
    ) {
        Some(Place::Front)
    } else if names.cross.contains(n) {
        Some(Place::Cross(n))
    } else {
        None
    }
}

/// Whether the first `k` characters of `n` name a target of which `n` is an instance.
pub open spec fn is_instance(names: NamesModel, n: Seq<char>, k: int) -> bool {
    0 <= k < n.len() && n[k] == '_' && has_prefix(n.take(k), "_rt_"@) && exact_place(
        names,
        n.take(k),
    ) is Some
}

/// Where the target is of which `n` is an instance, by the longest of at most
/// `k` characters.
pub open spec fn instance_place(names: NamesModel, n: Seq<char>, k: int) -> Option<Place>
    decreases k + 1,
{
    if k < 0 {
        None
    } else if is_instance(names, n, k) {
        exact_place(names, n.take(k))
    } else {
        instance_place(names, n, k - 1)
    }
}

/// Where the target of a name is: that of exactly this name, or the one of the
/// longest name that this is an instance of.
pub open spec fn place_of(names: NamesModel, n: Seq<char>) -> Option<Place> {
    match exact_place(names, n) {
        Some(p) => Some(p),
        None => instance_place(names, n, n.len() - 1),
    }
}

pub(crate) fn holds_name(list: &Vec<String>, n: &str) -> (r: bool)
    ensures
        r == views(list@).contains(n@),
{
    let mut i: usize = 0;
    while i < list.len()
        invariant
            i <= list@.len(),
            forall|j: int| 0 <= j < i ==> views(list@)[j] != n@,
        decreases list@.len() - i,
    {
        if same_text(list[i].as_str(), n) {
            assert(views(list@)[i as int] == n@);
            return true;
        }
        i += 1;
    }
    false
}

fn exact(names: &TargetNames, n: &str) -> (r: Option<Target>)
    ensures
        opt_view(r) == exact_place(names@, n@),
{
    if holds_name(&names.fbos, n) {
        return Some(Target::Named(n.to_owned()));
    }
    let a = layer_composite_name(names.id, "a");
    let b = layer_composite_name(names.id, "b");
    if same_text(n, "previous") || same_text(n, a.as_str()) || same_text(n, b.as_str()) {
        return Some(Target::Front);
    }
    if holds_name(&names.cross, n) {
        return Some(Target::Cross(n.to_owned()));
    }
    None
}

pub(crate) fn has_exact(names: &TargetNames, n: &str) -> (r: bool)
    ensures
        r == (exact_place(names@, n@) is Some),
{
    exact(names, n).is_some()
}

/// Where the target of a name is, if there is one.
pub fn named_or_instance(names: &TargetNames, n: &str) -> (r: Option<Target>)
    ensures
        opt_view(r) == place_of(names@, n@),
{
    match exact(names, n) {
        Some(t) => {
            return Some(t);
        },
        None => {},
    }
    let chars = chars_of(n);
    let mut k: usize = chars.len();
    while k > 0
        invariant
            chars@ == n@,
            k <= chars@.len(),
            exact_place(names@, n@) is None,
            instance_place(names@, n@, n@.len() - 1) == instance_place(names@, n@, k - 1),
        decreases k,
    {
        k -= 1;
        if chars[k] == '_' {
            let front = text_of(chars.as_slice(), 0, k);
            assert(front@ =~= n@.take(k as int));
            if starts_with(front.as_str(), "_rt_") {
                match exact(names, front.as_str()) {
                    Some(t) => {
                        assert(is_instance(names@, n@, k as int));
                        return Some(t);
                    },
                    None => {},
                }
            }
        }
        assert(!is_instance(names@, n@, k as int));
    }
    None
}

/// What a sampler reads.
#[derive(Debug)]
pub enum Texture {
    Target(Target),
    /// The scene as drawn so far.
    Scene,
    /// What the pass before wrote, or the layer itself.
    Input,
    File(String),
    /// Plain white; the name is one that no target has.
    White(Option<String>),
}

/// What a [`Texture`] holds.
pub enum Picture {
    Target(Place),
    Scene,
    Input,
    File(Seq<char>),
    White(Option<Seq<char>>),
}

impl View for Texture {
    type V = Picture;

    open spec fn view(&self) -> Picture {
        match self {
            Texture::Target(t) => Picture::Target(t@),
            Texture::Scene => Picture::Scene,
            Texture::Input => Picture::Input,
            Texture::File(n) => Picture::File(n@),
            Texture::White(n) => Picture::White(opt_view(*n)),
        }
    }
}

/// What a sampler of a layer's pass reads. Slot zero is the layer's own unless
/// it names a target or the scene.
pub open spec fn picture_of(
    slot: SlotModel,
    textures: Seq<Option<Seq<char>>>,
    names: NamesModel,
) -> Picture {
    let name = slot_name(slot, textures);
    let place = match name {
        Some(n) => place_of(names, n),
        None => None,
    };
    if place is Some {
        Picture::Target(place->0)
    } else if name is Some && names_scene(name->0) {
        Picture::Scene
    } else if slot.slot == Some(0u32) {
        Picture::Input
    } else if name is Some && names_file(name->0) {
        Picture::File(name->0)
    } else {
        Picture::White(name)
    }
}

fn is_slot_zero(slot: &SamplerSlot) -> (r: bool)
    ensures
        r == (slot@.slot == Some(0u32)),
{
    match slot.slot {
        Some(i) => i == 0,
        None => false,
    }
}

fn file_or_white(name: Option<String>) -> (r: Texture)
    ensures
        r@ == (if name is Some && names_file(name->0@) {
            Picture::File(name->0@)
        } else {
            Picture::White(opt_view(name))
        }),
{
    match name {
        Some(n) => if is_file_name(n.as_str()) {
            Texture::File(n)
        } else {
            Texture::White(Some(n))
        },
        None => Texture::White(None),
    }
}

/// What a sampler of a layer's pass reads.
pub fn slot_texture(
    slot: &SamplerSlot,
    textures: &Vec<Option<String>>,
    names: &TargetNames,
) -> (r: Texture)
    ensures
        r@ == picture_of(slot@, texts(textures@), names@),
{
    let name = sampler_name(slot, textures);
    if let Some(n) = &name {
        if let Some(t) = named_or_instance(names, n.as_str()) {
            return Texture::Target(t);
        }
        if is_scene_rt(n.as_str()) {
            return Texture::Scene;
        }
    }
    if is_slot_zero(slot) {
        return Texture::Input;
    }
    file_or_white(name)
}

/// Whether a name is one of the scene's, or one of the scene's with more behind
/// an underscore.
pub open spec fn scene_instance(name: Seq<char>) -> bool {
    names_scene(name) || has_prefix(name, "_rt_FullFrameBuffer_"@) || has_prefix(
        name,
        "_rt_MipMappedFrameBuffer_"@,
    )
}

/// What a sampler of a model's pass reads. A model knows no target but the
/// scene, and is fed through slot zero only where nothing is named for it.
pub open spec fn model_picture(slot: SlotModel, textures: Seq<Option<Seq<char>>>) -> Picture {
    match slot_name(slot, textures) {
        Some(n) => if scene_instance(n) {
            Picture::Scene
        } else if names_file(n) {
            Picture::File(n)
        } else {
            Picture::White(Some(n))
        },
        None => if slot.slot == Some(0u32) {
            Picture::Input
        } else {
            Picture::White(None)
        },
    }
}

/// What a sampler of a model's pass reads.
pub fn model_slot_texture(slot: &SamplerSlot, textures: &Vec<Option<String>>) -> (r: Texture)
    ensures
        r@ == model_picture(slot@, texts(textures@)),
{
    let name = sampler_name(slot, textures);
    match &name {
        Some(n) => {
            if is_scene_rt(n.as_str()) || starts_with(n.as_str(), "_rt_FullFrameBuffer_")
                || starts_with(n.as_str(), "_rt_MipMappedFrameBuffer_") {
                return Texture::Scene;
            }
        },
        None => {
            if is_slot_zero(slot) {
                return Texture::Input;
            }
        },
    }
    file_or_white(name)
}

/// What a binding of a shader is.
#[derive(Clone, Copy, Debug, PartialEq, Eq, Structural)]
pub enum BindKind {
    Ubo,
    Texture,
    Sampler,
}

#[derive(Clone, Copy, Debug, PartialEq, Eq, Structural)]
pub struct ModuleBinding {
    pub binding: u32,
    pub kind: BindKind,
}

/// What is bound: the uniforms, or the texture or sampler of the sampler slot
/// at a position (plain white where no slot has the binding).
#[derive(Clone, Copy, Debug, PartialEq, Eq, Structural)]
pub enum Resource {
    Uniforms,
    TextureOf(Option<usize>),
    SamplerOf(Option<usize>),
}

#[derive(Clone, Copy, Debug, PartialEq, Eq, Structural)]
pub struct BindEntry {
    pub binding: u32,
    pub resource: Resource,
}

/// The first sampler slot, from `from` on, that the binding belongs to.
pub open spec fn slot_bound_at(
    samplers: Seq<SlotModel>,
    kind: BindKind,
    binding: u32,
    from: int,
) -> Option<usize>
    decreases samplers.len() - from,
{
    if from < 0 || from >= samplers.len() {
        None
    } else if (kind == BindKind::Texture && samplers[from].texture_binding == binding) || (kind
        == BindKind::Sampler && samplers[from].sampler_binding == binding) {
        Some(from as usize)
    } else {
        slot_bound_at(samplers, kind, binding, from + 1)
    }
}

/// The entries of a bind group: uniforms only where the stage has any.
pub open spec fn bind_entries(
    bindings: Seq<ModuleBinding>,
    samplers: Seq<SlotModel>,
    has_uniforms: bool,
    k: int,
) -> Seq<BindEntry>
    decreases k,
{
    if k <= 0 {
        Seq::empty()
    } else {
        let before = bind_entries(bindings, samplers, has_uniforms, k - 1);
        let b = bindings[k - 1];
        match b.kind {
            BindKind::Ubo => if has_uniforms {
                before.push(BindEntry { binding: b.binding, resource: Resource::Uniforms })
            } else {
                before
            },
            BindKind::Texture => before.push(
                BindEntry {
                    binding: b.binding,
                    resource: Resource::TextureOf(
                        slot_bound_at(samplers, b.kind, b.binding, 0),
                    ),
                },
            ),
            BindKind::Sampler => before.push(
                BindEntry {
                    binding: b.binding,
                    resource: Resource::SamplerOf(
                        slot_bound_at(samplers, b.kind, b.binding, 0),
                    ),
                },
            ),
        }
    }
}

fn find_slot(samplers: &Vec<SamplerSlot>, kind: BindKind, binding: u32) -> (r: Option<usize>)
    ensures
        r == slot_bound_at(views(samplers@), kind, binding, 0),
{
    let ghost all = views(samplers@);
    let mut i: usize = 0;
    while i < samplers.len()
        invariant
            i <= samplers@.len(),
            all == views(samplers@),
            slot_bound_at(all, kind, binding, 0) == slot_bound_at(all, kind, binding, i as int),
        decreases samplers@.len() - i,
    {
        assert(all[i as int] == samplers@[i as int]@);
        if (kind == BindKind::Texture && samplers[i].texture_binding == binding) || (kind
            == BindKind::Sampler && samplers[i].sampler_binding == binding) {
            return Some(i);
        }
        i += 1;
    }
    None
}

/// The entries of the bind group of one stage.
pub fn bind_group_entries(
    bindings: &Vec<ModuleBinding>,
    samplers: &Vec<SamplerSlot>,
    has_uniforms: bool,
) -> (r: Vec<BindEntry>)
    ensures
        r@ == bind_entries(bindings@, views(samplers@), has_uniforms, bindings@.len() as int),
{
    let mut out: Vec<BindEntry> = Vec::new();
    let mut k: usize = 0;
    while k < bindings.len()
        invariant
            k <= bindings@.len(),
            out@ == bind_entries(bindings@, views(samplers@), has_uniforms, k as int),
        decreases bindings@.len() - k,
    {
        let b = bindings[k];
        match b.kind {
            BindKind::Ubo => {
                if has_uniforms {
                    out.push(BindEntry { binding: b.binding, resource: Resource::Uniforms });
                }
            },
            BindKind::Texture => {
                let at = find_slot(samplers, b.kind, b.binding);
                out.push(BindEntry { binding: b.binding, resource: Resource::TextureOf(at) });
            },
            BindKind::Sampler => {
                let at = find_slot(samplers, b.kind, b.binding);
                out.push(BindEntry { binding: b.binding, resource: Resource::SamplerOf(at) });
            },
        }
        k += 1;
    }
    out
}

/// Whether this is the first time that a name is complained about.
pub fn say_once(said: &mut TextSet, name: &str) -> (r: bool)
    ensures
        r == !old(said)@.contains(name@),
        final(said)@ == old(said)@.insert(name@),
{
    said.insert(name)
}

} // verus!
