//! What the meshes of a model are drawn with.
use vstd::prelude::*;

use crate::assets::{document, Answer};
use crate::copy::copy_opt;
use crate::json::parse;
use crate::material::{material_of, Material, Pass, PassModel};
use crate::slots::{is_file_name, names_file, SamplerSlot, SlotModel};
use crate::strings::{join2, opt_view, views};

verus! {

/// The files of a shader: that of its vertex stage, and that of its fragment
/// stage.
pub fn shader_files(shader: &str) -> (r: (String, String))
    ensures
        r.0@ == "shaders/"@ + shader@ + ".vert"@,
        r.1@ == "shaders/"@ + shader@ + ".frag"@,
{
    let stem = join2("shaders/", shader);
    (join2(stem.as_str(), ".vert"), join2(stem.as_str(), ".frag"))
}

/// The pass that a mesh is drawn with: the first of its material; none if the
/// material cannot be read or has none.
pub open spec fn mesh_pass_of(a: Answer) -> Option<PassModel> {
    match document(a) {
        Some(t) => if material_of(t).len() > 0 {
            Some(material_of(t)[0])
        } else {
            None
        },
        None => None,
    }
}

/// The pass that a mesh is drawn with.
pub fn mesh_pass(material: Option<&[u8]>) -> (r: Option<Pass>)
    ensures
        opt_view(r) == mesh_pass_of(
            match material {
                Some(b) => Some(b@),
                None => None,
            },
        ),
{
    let bytes = match material {
        Some(b) => b,
        None => {
            return None;
        },
    };
    match parse(bytes) {
        Ok(v) => {
            let m = Material::from_value(&v);
            if m.passes.len() > 0 {
                assert(m@[0] == m.passes@[0]@);
                Some(crate::copy::Duplicate::duplicate(&m.passes[0]))
            } else {
                None
            }
        },
        Err(_) => None,
    }
}

/// How many textures a shader knows the sizes of.
pub const TEXTURE_SLOTS: usize = 8;

/// What the size of a texture slot is.
#[derive(Debug)]
pub enum TextureSize {
    /// That of the texture that a pass is fed with.
    Input,
    /// That of the scene.
    Scene,
    /// That of a texture.
    Texture(String),
}

/// What a [`TextureSize`] holds.
pub enum SizeModel {
    Input,
    Scene,
    Texture(Seq<char>),
}

impl View for TextureSize {
    type V = SizeModel;

    open spec fn view(&self) -> SizeModel {
        match self {
            TextureSize::Input => SizeModel::Input,
            TextureSize::Scene => SizeModel::Scene,
            TextureSize::Texture(n) => SizeModel::Texture(n@),
        }
    }
}

/// The texture that a slot holds: that of the pass, or else the sampler's own.
pub open spec fn slot_name(s: SlotModel, pass: PassModel) -> Option<Seq<char>> {
    let i = s.slot->0 as int;
    if i < pass.textures.len() && pass.textures[i] is Some {
        pass.textures[i]
    } else {
        s.default_texture
    }
}

/// The size of the slot of a sampler: that of its texture, or of the scene
/// where it has none or it is a render target.
pub open spec fn slot_size(s: SlotModel, pass: PassModel) -> SizeModel {
    match slot_name(s, pass) {
        Some(n) => if names_file(n) {
            SizeModel::Texture(n)
        } else {
            SizeModel::Scene
        },
        None => SizeModel::Scene,
    }
}

/// The sizes of the slots, as the first `k` samplers have them.
pub open spec fn sizes_upto(samplers: Seq<SlotModel>, pass: PassModel, k: int) -> Seq<SizeModel>
    decreases k,
{
    if k <= 0 {
        Seq::new(
            TEXTURE_SLOTS as nat,
            |i: int|
                if i == 0 {
                    SizeModel::Input
                } else {
                    SizeModel::Scene
                },
        )
    } else {
        let before = sizes_upto(samplers, pass, k - 1);
        let s = samplers[k - 1];
        match s.slot {
            Some(i) => if 0 < i < TEXTURE_SLOTS {
                before.update(i as int, slot_size(s, pass))
            } else {
                before
            },
            None => before,
        }
    }
}

fn size_of_slot(s: &SamplerSlot, i: usize, pass: &Pass) -> (r: TextureSize)
    requires
        s.slot == Some(i as u32),
        i <= u32::MAX,
    ensures
        r@ == slot_size(s@, pass@),
{
    let mut name: Option<String> = None;
    if i < pass.textures.len() {
        assert(pass@.textures[i as int] == opt_view(pass.textures@[i as int]));
        name = copy_opt(&pass.textures[i]);
    }
    if name.is_none() {
        name = copy_opt(&s.default_texture);
    }
    match name {
        Some(n) => if is_file_name(n.as_str()) {
            TextureSize::Texture(n)
        } else {
            TextureSize::Scene
        },
        None => TextureSize::Scene,
    }
}

/// The sizes that a model's shader is given for its texture slots.
pub fn model_texture_sizes(samplers: &Vec<SamplerSlot>, pass: &Pass) -> (r: Vec<TextureSize>)
    ensures
        views(r@) == sizes_upto(views(samplers@), pass@, samplers@.len() as int),
        r@.len() == TEXTURE_SLOTS,
{
    let ghost all = views(samplers@);
    let mut out: Vec<TextureSize> = Vec::new();
    out.push(TextureSize::Input);
    let mut n: usize = 1;
    while n < TEXTURE_SLOTS
        invariant
            1 <= n <= TEXTURE_SLOTS,
            out@.len() == n,
            out@[0]@ == SizeModel::Input,
            forall|j: int| 1 <= j < n ==> (#[trigger] out@[j])@ == SizeModel::Scene,
        decreases TEXTURE_SLOTS - n,
    {
        out.push(TextureSize::Scene);
        n += 1;
    }
    assert(views(out@) =~= sizes_upto(all, pass@, 0));
    let mut k: usize = 0;
    while k < samplers.len()
        invariant
            k <= samplers@.len(),
            all == views(samplers@),
            out@.len() == TEXTURE_SLOTS,
            views(out@) == sizes_upto(all, pass@, k as int),
        decreases samplers@.len() - k,
    {
        let s = &samplers[k];
        assert(all[k as int] == s@);
        if let Some(slot) = s.slot {
            let i: usize = slot as usize;
            if 0 < i && i < TEXTURE_SLOTS {
                let ghost before = views(out@);
                let size = size_of_slot(s, i, pass);
                let ghost model = size@;
                out.set(i, size);
                assert(views(out@) =~= before.update(i as int, model));
            }
        }
        k += 1;
    }
    out
}

} // verus!
