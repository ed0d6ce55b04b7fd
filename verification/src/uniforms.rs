//! The block of values that a shader is given.
use vstd::prelude::*;

use crate::copy::Duplicate;
use crate::orders::{index_text, parse_index};
use crate::params::{ParamModel, ParamType, Parameter};
use crate::script_setup::{all_digits, is_all_digits};
use crate::strings::{chars_of, has_prefix, same_text, starts_with, text_of, views};
use crate::table::TextMap;
use crate::value::ONE_BITS;

verus! {

/// The type of a value in the block.
#[derive(Debug, Clone, Copy, PartialEq, Eq, Structural)]
pub enum GlType {
    Float,
    Vec2,
    Vec3,
    Vec4,
    Mat3,
    Mat4,
    FloatArray(usize),
}

impl Duplicate for GlType {
    fn duplicate(&self) -> (r: Self) {
        *self
    }
}

impl View for GlType {
    type V = GlType;

    open spec fn view(&self) -> GlType {
        *self
    }
}

impl GlType {
    /// What the offset of a value of the type is a multiple of.
    pub open spec fn alignment(self) -> int {
        match self {
            GlType::Float => 4,
            GlType::Vec2 => 8,
            _ => 16,
        }
    }

    /// The bytes that a value of the type takes; the columns of a matrix and
    /// the members of an array take 16 each.
    pub open spec fn byte_size(self) -> int {
        match self {
            GlType::Float => 4,
            GlType::Vec2 => 8,
            GlType::Vec3 => 12,
            GlType::Vec4 => 16,
            GlType::Mat3 => 48,
            GlType::Mat4 => 64,
            GlType::FloatArray(n) => n * 16,
        }
    }

    pub fn align(self) -> (r: usize)
        ensures
            r == self.alignment(),
    {
        match self {
            GlType::Float => 4,
            GlType::Vec2 => 8,
            _ => 16,
        }
    }

    pub fn size(self) -> (r: usize)
        requires
            self.byte_size() <= usize::MAX,
        ensures
            r == self.byte_size(),
    {
        match self {
            GlType::Float => 4,
            GlType::Vec2 => 8,
            GlType::Vec3 => 12,
            GlType::Vec4 => 16,
            GlType::Mat3 => 48,
            GlType::Mat4 => 64,
            GlType::FloatArray(n) => n * 16,
        }
    }

    /// The type of a parameter.
    pub open spec fn of_param(ty: ParamType) -> GlType {
        match ty {
            ParamType::Float | ParamType::Int => GlType::Float,
            ParamType::Vec2 => GlType::Vec2,
            ParamType::Vec3 => GlType::Vec3,
            ParamType::Vec4 => GlType::Vec4,
        }
    }

    pub fn from_param(ty: ParamType) -> (r: Self)
        ensures
            r == GlType::of_param(ty),
    {
        match ty {
            ParamType::Float | ParamType::Int => GlType::Float,
            ParamType::Vec2 => GlType::Vec2,
            ParamType::Vec3 => GlType::Vec3,
            ParamType::Vec4 => GlType::Vec4,
        }
    }
}

/// What stands between the beginning and the ending of a text that has both.
pub open spec fn between(s: Seq<char>, beginning: Seq<char>, ending: Seq<char>) -> Option<Seq<char>> {
    if has_prefix(s, beginning) && beginning.len() + ending.len() <= s.len() && s.skip(
        s.len() - ending.len(),
    ) == ending {
        Some(s.subrange(beginning.len() as int, s.len() - ending.len()))
    } else {
        None
    }
}

/// The number of a texture whose resolution a name stands for, as text.
pub open spec fn resolution_index(name: Seq<char>) -> Option<Seq<char>> {
    between(name, "g_Texture"@, "Resolution"@)
}

fn find_resolution(name: &str) -> (r: Option<Vec<char>>)
    ensures
        match r {
            Some(v) => resolution_index(name@) == Some(v@),
            None => resolution_index(name@) is None,
        },
{
    proof {
        reveal_strlit("g_Texture");
        reveal_strlit("Resolution");
    }
    let chars = chars_of(name);
    let n: usize = chars.len();
    if n < 19 || !starts_with(name, "g_Texture") {
        return None;
    }
    let tail = text_of(chars.as_slice(), n - 10, n);
    assert(name@.skip(n - 10) =~= tail@);
    if !same_text(tail.as_str(), "Resolution") {
        return None;
    }
    let middle = text_of(chars.as_slice(), 9, n - 10);
    Some(chars_of(middle.as_str()))
}

/// The type of a value that every shader may ask for by name.
pub open spec fn builtin_gl(name: Seq<char>) -> Option<GlType> {
    if (resolution_index(name) matches Some(i) && all_digits(i)) || name == "g_Texture0Rotation"@ {
        Some(GlType::Vec4)
    } else if name == "g_Texture0Translation"@ {
        Some(GlType::Vec2)
    } else if name == "g_TextureReductionScale"@ || name == "g_Time"@ || name == "g_Daytime"@
        || name == "g_Brightness"@ || name == "g_UserAlpha"@ || name == "g_Alpha"@ || name
        == "g_RefractAmount"@ {
        Some(GlType::Float)
    } else if name == "g_PointerPosition"@ || name == "g_PointerPositionLast"@ || name
        == "g_TexelSize"@ || name == "g_TexelSizeHalf"@ {
        Some(GlType::Vec2)
    } else if name == "g_Color"@ || name == "g_CompositeColor"@ || name == "g_LightAmbientColor"@
        || name == "g_LightSkylightColor"@ || name == "g_EyePosition"@ || name
        == "g_OrientationUp"@ || name == "g_OrientationRight"@ || name == "g_OrientationForward"@
        || name == "g_Screen"@ || name == "g_ViewUp"@ || name == "g_ViewRight"@ {
        Some(GlType::Vec3)
    } else if name == "g_Color4"@ || name == "g_RenderVar0"@ || name == "g_RenderVar1"@ {
        Some(GlType::Vec4)
    } else if name == "g_NormalModelMatrix"@ {
        Some(GlType::Mat3)
    } else if name == "g_ModelViewProjectionMatrix"@ || name
        == "g_ModelViewProjectionMatrixInverse"@ || name == "g_EffectModelViewProjectionMatrix"@
        || name == "g_ModelMatrix"@ || name == "g_ModelMatrixInverse"@ || name
        == "g_EffectModelMatrix"@ || name == "g_ViewProjectionMatrix"@ || name
        == "g_EffectTextureProjectionMatrix"@ || name == "g_EffectTextureProjectionMatrixInverse"@ {
        Some(GlType::Mat4)
    } else if name == "g_AudioSpectrum16Left"@ || name == "g_AudioSpectrum16Right"@ {
        Some(GlType::FloatArray(16))
    } else if name == "g_AudioSpectrum32Left"@ || name == "g_AudioSpectrum32Right"@ {
        Some(GlType::FloatArray(32))
    } else if name == "g_AudioSpectrum64Left"@ || name == "g_AudioSpectrum64Right"@ {
        Some(GlType::FloatArray(64))
    } else {
        None
    }
}

/// The type of a value that every shader may ask for by name.
pub fn builtin_type(name: &str) -> (r: Option<GlType>)
    ensures
        r == builtin_gl(name@),
{
    if let Some(index) = find_resolution(name) {
        let text = text_of(index.as_slice(), 0, index.len());
        assert(text@ =~= index@);
        if is_all_digits(text.as_str()) {
            return Some(GlType::Vec4);
        }
    }
    if same_text(name, "g_Texture0Rotation") {
        return Some(GlType::Vec4);
    }
    if same_text(name, "g_Texture0Translation") {
        return Some(GlType::Vec2);
    }
    if same_text(name, "g_TextureReductionScale") || same_text(name, "g_Time") || same_text(
        name,
        "g_Daytime",
    ) || same_text(name, "g_Brightness") || same_text(name, "g_UserAlpha") || same_text(
        name,
        "g_Alpha",
    ) || same_text(name, "g_RefractAmount") {
        return Some(GlType::Float);
    }
    if same_text(name, "g_PointerPosition") || same_text(name, "g_PointerPositionLast")
        || same_text(name, "g_TexelSize") || same_text(name, "g_TexelSizeHalf") {
        return Some(GlType::Vec2);
    }
    if same_text(name, "g_Color") || same_text(name, "g_CompositeColor") || same_text(
        name,
        "g_LightAmbientColor",
    ) || same_text(name, "g_LightSkylightColor") || same_text(name, "g_EyePosition") || same_text(
        name,
        "g_OrientationUp",
    ) || same_text(name, "g_OrientationRight") || same_text(name, "g_OrientationForward")
        || same_text(name, "g_Screen") || same_text(name, "g_ViewUp") || same_text(
        name,
        "g_ViewRight",
    ) {
        return Some(GlType::Vec3);
    }
    if same_text(name, "g_Color4") || same_text(name, "g_RenderVar0") || same_text(
        name,
        "g_RenderVar1",
    ) {
        return Some(GlType::Vec4);
    }
    if same_text(name, "g_NormalModelMatrix") {
        return Some(GlType::Mat3);
    }
    if same_text(name, "g_ModelViewProjectionMatrix") || same_text(
        name,
        "g_ModelViewProjectionMatrixInverse",
    ) || same_text(name, "g_EffectModelViewProjectionMatrix") || same_text(name, "g_ModelMatrix")
        || same_text(name, "g_ModelMatrixInverse") || same_text(name, "g_EffectModelMatrix")
        || same_text(name, "g_ViewProjectionMatrix") || same_text(
        name,
        "g_EffectTextureProjectionMatrix",
    ) || same_text(name, "g_EffectTextureProjectionMatrixInverse") {
        return Some(GlType::Mat4);
    }
    if same_text(name, "g_AudioSpectrum16Left") || same_text(name, "g_AudioSpectrum16Right") {
        return Some(GlType::FloatArray(16));
    }
    if same_text(name, "g_AudioSpectrum32Left") || same_text(name, "g_AudioSpectrum32Right") {
        return Some(GlType::FloatArray(32));
    }
    if same_text(name, "g_AudioSpectrum64Left") || same_text(name, "g_AudioSpectrum64Right") {
        return Some(GlType::FloatArray(64));
    }
    None
}

/// A value in the block: its name, its type, and where it begins.
#[derive(Debug)]
pub struct Member {
    pub name: String,
    pub ty: GlType,
    pub offset: usize,
}

/// What a [`Member`] holds.
pub struct MemberModel {
    pub name: Seq<char>,
    pub ty: GlType,
    pub offset: usize,
}

impl View for Member {
    type V = MemberModel;

    open spec fn view(&self) -> MemberModel {
        MemberModel { name: self.name@, ty: self.ty, offset: self.offset }
    }
}

/// How the block is laid out.
#[derive(Debug)]
pub struct GlobalsLayout {
    pub members: Vec<Member>,
    pub size: usize,
}

/// What a [`GlobalsLayout`] holds.
pub struct LayoutModel {
    pub members: Seq<MemberModel>,
    pub size: usize,
}

impl View for GlobalsLayout {
    type V = LayoutModel;

    open spec fn view(&self) -> LayoutModel {
        LayoutModel { members: views(self.members@), size: self.size }
    }
}

/// The least multiple of `unit` that is not below `n`.
pub open spec fn rounded_up(n: int, unit: int) -> int {
    (n + unit - 1) / unit * unit
}

/// The type of a value: the one that every shader has it by, or else that of
/// the shader's own parameter, or else a single number.
pub open spec fn member_type(name: Seq<char>, types: Map<Seq<char>, GlType>) -> GlType {
    match builtin_gl(name) {
        Some(t) => t,
        None => if types.contains_key(name) {
            types[name]
        } else {
            GlType::Float
        },
    }
}

/// Where the first `k` values end.
pub open spec fn end_upto(names: Seq<Seq<char>>, types: Map<Seq<char>, GlType>, k: int) -> int
    decreases k, 0int,
{
    if k <= 0 {
        0
    } else {
        offset_at(names, types, k - 1) + member_type(names[k - 1], types).byte_size()
    }
}

/// Where value `i` begins: as soon after the one before it as its type allows.
pub open spec fn offset_at(names: Seq<Seq<char>>, types: Map<Seq<char>, GlType>, i: int) -> int
    decreases i, 1int,
{
    rounded_up(end_upto(names, types, i), member_type(names[i], types).alignment())
}

/// The size of the block: a multiple of 16.
pub open spec fn block_size(names: Seq<Seq<char>>, types: Map<Seq<char>, GlType>) -> int {
    rounded_up(end_upto(names, types, names.len() as int), 16)
}

/// How values of the given names are laid out.
pub open spec fn layout_of(names: Seq<Seq<char>>, types: Map<Seq<char>, GlType>) -> LayoutModel {
    LayoutModel {
        members: Seq::new(
            names.len(),
            |i: int|
                MemberModel {
                    name: names[i],
                    ty: member_type(names[i], types),
                    offset: offset_at(names, types, i) as usize,
                },
        ),
        size: block_size(names, types) as usize,
    }
}

proof fn lemma_rounded_up(n: int, unit: int)
    requires
        0 <= n,
        unit == 4 || unit == 8 || unit == 16,
    ensures
        n <= rounded_up(n, unit) < n + unit,
        rounded_up(n, unit) % unit == 0,
{
    let q = (n + unit - 1) / unit;
    if unit == 4 {
        assert(q * 4 % 4 == 0);
    } else if unit == 8 {
        assert(q * 8 % 8 == 0);
    } else {
        assert(q * 16 % 16 == 0);
    }
}

proof fn lemma_ends_grow(names: Seq<Seq<char>>, types: Map<Seq<char>, GlType>, i: int, k: int)
    requires
        0 <= i <= k,
    ensures
        0 <= end_upto(names, types, i) <= end_upto(names, types, k),
        i < k ==> 0 <= end_upto(names, types, i) <= offset_at(names, types, i) <= end_upto(
            names,
            types,
            k,
        ),
    decreases k,
{
    if i < k {
        lemma_ends_grow(names, types, i, k - 1);
        lemma_rounded_up(
            end_upto(names, types, k - 1),
            member_type(names[k - 1], types).alignment(),
        );
    } else if k > 0 {
        lemma_ends_grow(names, types, k - 1, k - 1);
        lemma_rounded_up(
            end_upto(names, types, k - 1),
            member_type(names[k - 1], types).alignment(),
        );
    }
}

fn find_type(name: &str, types: &TextMap<GlType>) -> (r: GlType)
    ensures
        r == member_type(name@, types@),
{
    match builtin_type(name) {
        Some(t) => t,
        None => match types.get(name) {
            Some(t) => *t,
            None => GlType::Float,
        },
    }
}

fn round_up(n: usize, unit: usize) -> (r: usize)
    requires
        unit == 4 || unit == 8 || unit == 16,
        n + 15 <= usize::MAX,
    ensures
        r == rounded_up(n as int, unit as int),
{
    proof {
        lemma_rounded_up(n as int, unit as int);
    }
    let q: usize = (n + (unit - 1)) / unit;
    assert(q as int == (n + unit - 1) / (unit as int));
    q * unit
}

impl GlobalsLayout {
    /// Lays out values of the given names, as `std140` asks for.
    pub fn build(names: &Vec<String>, param_types: &TextMap<GlType>) -> (r: Self)
        requires
            end_upto(views(names@), param_types@, names@.len() as int) + 15 <= usize::MAX,
        ensures
            r@ == layout_of(views(names@), param_types@),
    {
        let ghost all = views(names@);
        let ghost types = param_types@;
        let mut members: Vec<Member> = Vec::new();
        let mut offset: usize = 0;
        let mut i: usize = 0;
        while i < names.len()
            invariant
                i <= names@.len(),
                all == views(names@),
                types == param_types@,
                end_upto(all, types, names@.len() as int) + 15 <= usize::MAX,
                offset == end_upto(all, types, i as int),
                members@.len() == i,
                forall|j: int|
                    0 <= j < i ==> (#[trigger] members@[j])@ == layout_of(all, types).members[j],
            decreases names@.len() - i,
        {
            assert(all[i as int] == names@[i as int]@);
            let name = &names[i];
            let ty = find_type(name.as_str(), param_types);
            proof {
                lemma_ends_grow(all, types, i as int, i + 1);
                lemma_ends_grow(all, types, i + 1, names@.len() as int);
                lemma_ends_grow(all, types, i as int, names@.len() as int);
            }
            let at = round_up(offset, ty.align());
            members.push(Member { name: name.clone(), ty, offset: at });
            offset = at + ty.size();
            i += 1;
        }
        let size = round_up(offset, 16);
        let r = GlobalsLayout { members, size };
        assert(r@.members =~= layout_of(all, types).members);
        r
    }

    pub fn is_empty(&self) -> (r: bool)
        ensures
            r == (self@.members.len() == 0),
    {
        self.members.len() == 0
    }
}

/// Each value of the block begins where its type may, after the end of those
/// before it, and ends within the block, whose size is a multiple of 16.
pub proof fn law_values_do_not_overlap(
    names: Seq<Seq<char>>,
    types: Map<Seq<char>, GlType>,
    i: int,
    j: int,
)
    requires
        0 <= i < j < names.len(),
    ensures
        offset_at(names, types, i) % member_type(names[i], types).alignment() == 0,
        offset_at(names, types, i) + member_type(names[i], types).byte_size() <= offset_at(
            names,
            types,
            j,
        ),
        offset_at(names, types, j) + member_type(names[j], types).byte_size() <= block_size(
            names,
            types,
        ),
        block_size(names, types) % 16 == 0,
{
    lemma_ends_grow(names, types, i, i + 1);
    lemma_rounded_up(end_upto(names, types, i), member_type(names[i], types).alignment());
    lemma_ends_grow(names, types, i + 1, j);
    lemma_ends_grow(names, types, j, j + 1);
    lemma_ends_grow(names, types, j + 1, names.len() as int);
    lemma_rounded_up(end_upto(names, types, names.len() as int), 16);
}

/// The types of a shader's own parameters, by name, among the first `k`.
pub open spec fn types_upto(params: Seq<ParamModel>, k: int) -> Map<Seq<char>, GlType>
    decreases k,
{
    if k <= 0 {
        Map::empty()
    } else {
        types_upto(params, k - 1).insert(params[k - 1].name, GlType::of_param(params[k - 1].ty))
    }
}

pub fn param_types(params: &Vec<Parameter>) -> (r: TextMap<GlType>)
    ensures
        r@ == types_upto(views(params@), params@.len() as int),
{
    let ghost all = views(params@);
    let mut out: TextMap<GlType> = TextMap::new();
    let mut i: usize = 0;
    while i < params.len()
        invariant
            i <= params@.len(),
            all == views(params@),
            out@ == types_upto(all, i as int),
        decreases params@.len() - i,
    {
        assert(all[i as int] == params@[i as int]@);
        out.insert(params[i].name.clone(), GlType::from_param(params[i].ty));
        i += 1;
    }
    out
}

/// The bits of five hundredths.
pub const REFRACT_BITS: u32 = 0x3d4c_cccd;

/// The values that every shader may ask for, as the bits of singles.
#[derive(Debug, Clone, Copy)]
pub struct Builtins {
    pub time: u32,
    pub daytime: u32,
    pub brightness: u32,
    pub alpha: u32,
    pub color: [u32; 4],
    pub ambient: [u32; 3],
    pub skylight: [u32; 3],
    pub pointer: [u32; 2],
    pub pointer_last: [u32; 2],
    pub texel_size: [u32; 2],
    /// Half of the texel size.
    pub texel_half: [u32; 2],
    /// The width and the height that the texel size gives, and their ratio.
    pub screen: [u32; 3],
    pub mvp: [u32; 16],
    pub effect_mvp: [u32; 16],
    pub mvp_inverse: [u32; 16],
    pub model: [u32; 16],
    pub model_inverse: [u32; 16],
    pub view_projection: [u32; 16],
    pub eye: [u32; 3],
    pub texture0_translation: [u32; 2],
    pub texture0_rotation: [u32; 4],
    pub texture_resolution: [[u32; 4]; 8],
    pub audio16: [u32; 16],
    pub audio32: [u32; 32],
    pub audio64: [u32; 64],
}

/// The numbers of the matrix that changes nothing.
pub open spec fn identity() -> Seq<u32> {
    seq![ONE_BITS, 0, 0, 0, 0, ONE_BITS, 0, 0, 0, 0, ONE_BITS, 0, 0, 0, 0, ONE_BITS]
}

/// The numbers that a value has by its name.
pub open spec fn builtin_numbers(b: Builtins, name: Seq<char>) -> Option<Seq<u32>> {
    if resolution_index(name) matches Some(i) && index_text(i) is Some {
        let at = index_text(resolution_index(name)->0)->0;
        Some(
            if at < 8 {
                b.texture_resolution[at as int]@
            } else {
                seq![0u32, 0, 0, 0]
            },
        )
    } else if name == "g_Time"@ {
        Some(seq![b.time])
    } else if name == "g_Daytime"@ {
        Some(seq![b.daytime])
    } else if name == "g_Brightness"@ {
        Some(seq![b.brightness])
    } else if name == "g_Alpha"@ || name == "g_UserAlpha"@ {
        Some(seq![b.alpha])
    } else if name == "g_TextureReductionScale"@ {
        Some(seq![ONE_BITS])
    } else if name == "g_Color"@ || name == "g_CompositeColor"@ {
        Some(seq![b.color[0], b.color[1], b.color[2]])
    } else if name == "g_Color4"@ {
        Some(b.color@)
    } else if name == "g_LightAmbientColor"@ {
        Some(b.ambient@)
    } else if name == "g_LightSkylightColor"@ {
        Some(b.skylight@)
    } else if name == "g_PointerPosition"@ {
        Some(b.pointer@)
    } else if name == "g_PointerPositionLast"@ {
        Some(b.pointer_last@)
    } else if name == "g_TexelSize"@ {
        Some(b.texel_size@)
    } else if name == "g_TexelSizeHalf"@ {
        Some(b.texel_half@)
    } else if name == "g_Screen"@ {
        Some(b.screen@)
    } else if name == "g_Texture0Translation"@ {
        Some(b.texture0_translation@)
    } else if name == "g_Texture0Rotation"@ {
        Some(b.texture0_rotation@)
    } else {
        matrix_numbers(b, name)
    }
}

/// The numbers of a value that is a matrix, a direction or a spectrum.
pub open spec fn matrix_numbers(b: Builtins, name: Seq<char>) -> Option<Seq<u32>> {
    if name == "g_ModelViewProjectionMatrix"@ {
        Some(b.mvp@)
    } else if name == "g_EffectModelViewProjectionMatrix"@ {
        Some(b.effect_mvp@)
    } else if name == "g_ModelViewProjectionMatrixInverse"@ {
        Some(b.mvp_inverse@)
    } else if name == "g_ModelMatrix"@ || name == "g_EffectModelMatrix"@ {
        Some(b.model@)
    } else if name == "g_ModelMatrixInverse"@ {
        Some(b.model_inverse@)
    } else if name == "g_ViewProjectionMatrix"@ {
        Some(b.view_projection@)
    } else if name == "g_EffectTextureProjectionMatrix"@ || name
        == "g_EffectTextureProjectionMatrixInverse"@ {
        Some(identity())
    } else if name == "g_NormalModelMatrix"@ {
        Some(seq![ONE_BITS, 0, 0, 0, ONE_BITS, 0, 0, 0, ONE_BITS])
    } else if name == "g_OrientationUp"@ || name == "g_ViewUp"@ {
        Some(seq![0, ONE_BITS, 0])
    } else if name == "g_OrientationRight"@ || name == "g_ViewRight"@ {
        Some(seq![ONE_BITS, 0, 0])
    } else if name == "g_OrientationForward"@ {
        Some(seq![0, 0, ONE_BITS])
    } else if name == "g_EyePosition"@ {
        Some(b.eye@)
    } else if name == "g_RenderVar0"@ || name == "g_RenderVar1"@ {
        Some(seq![0u32, 0, 0, 0])
    } else if name == "g_RefractAmount"@ {
        Some(seq![REFRACT_BITS])
    } else if name == "g_AudioSpectrum16Left"@ || name == "g_AudioSpectrum16Right"@ {
        Some(b.audio16@)
    } else if name == "g_AudioSpectrum32Left"@ || name == "g_AudioSpectrum32Right"@ {
        Some(b.audio32@)
    } else if name == "g_AudioSpectrum64Left"@ || name == "g_AudioSpectrum64Right"@ {
        Some(b.audio64@)
    } else {
        None
    }
}

fn set(src: &[u32]) -> (r: Vec<u32>)
    ensures
        r@ == src@,
{
    let mut out: Vec<u32> = Vec::new();
    let mut i: usize = 0;
    while i < src.len()
        invariant
            i <= src@.len(),
            out@ == src@.take(i as int),
        decreases src@.len() - i,
    {
        out.push(src[i]);
        assert(src@.take(i + 1) =~= src@.take(i as int).push(src@[i as int]));
        i += 1;
    }
    assert(src@.take(src@.len() as int) =~= src@);
    out
}

fn set_array<const N: usize>(src: &[u32; N]) -> (r: Vec<u32>)
    ensures
        r@ == src@,
{
    set(vstd::array::array_as_slice(src))
}

/// The list that an optional list holds.
pub open spec fn list_in(v: Option<Vec<u32>>) -> Option<Seq<u32>> {
    match v {
        Some(l) => Some(l@),
        None => None,
    }
}

impl Builtins {
    /// The numbers that a value has by its name; none if it is not one that
    /// every shader may ask for.
    pub fn components_into(&self, name: &str) -> (r: Option<Vec<u32>>)
        ensures
            list_in(r) == builtin_numbers(*self, name@),
    {
        if let Some(index) = find_resolution(name) {
            if let Some(at) = parse_index(index.as_slice()) {
                return if at < 8 {
                    Some(set_array(&self.texture_resolution[at]))
                } else {
                    let v = vec![0u32, 0, 0, 0];
                    assert(v@ =~= seq![0u32, 0, 0, 0]);
                    Some(v)
                };
            }
        }
        if same_text(name, "g_Time") {
            Some(set_array(&[self.time]))
        } else if same_text(name, "g_Daytime") {
            Some(set_array(&[self.daytime]))
        } else if same_text(name, "g_Brightness") {
            Some(set_array(&[self.brightness]))
        } else if same_text(name, "g_Alpha") || same_text(name, "g_UserAlpha") {
            Some(set_array(&[self.alpha]))
        } else if same_text(name, "g_TextureReductionScale") {
            Some(set_array(&[ONE_BITS]))
        } else if same_text(name, "g_Color") || same_text(name, "g_CompositeColor") {
            Some(set_array(&[self.color[0], self.color[1], self.color[2]]))
        } else if same_text(name, "g_Color4") {
            Some(set_array(&self.color))
        } else if same_text(name, "g_LightAmbientColor") {
            Some(set_array(&self.ambient))
        } else if same_text(name, "g_LightSkylightColor") {
            Some(set_array(&self.skylight))
        } else if same_text(name, "g_PointerPosition") {
            Some(set_array(&self.pointer))
        } else if same_text(name, "g_PointerPositionLast") {
            Some(set_array(&self.pointer_last))
        } else if same_text(name, "g_TexelSize") {
            Some(set_array(&self.texel_size))
        } else if same_text(name, "g_TexelSizeHalf") {
            Some(set_array(&self.texel_half))
        } else if same_text(name, "g_Screen") {
            Some(set_array(&self.screen))
        } else if same_text(name, "g_Texture0Translation") {
            Some(set_array(&self.texture0_translation))
        } else if same_text(name, "g_Texture0Rotation") {
            Some(set_array(&self.texture0_rotation))
        } else {
            self.matrix_components(name)
        }
    }

    fn matrix_components(&self, name: &str) -> (r: Option<Vec<u32>>)
        ensures
            list_in(r) == matrix_numbers(*self, name@),
    {
        if same_text(name, "g_ModelViewProjectionMatrix") {
            Some(set_array(&self.mvp))
        } else if same_text(name, "g_EffectModelViewProjectionMatrix") {
            Some(set_array(&self.effect_mvp))
        } else if same_text(name, "g_ModelViewProjectionMatrixInverse") {
            Some(set_array(&self.mvp_inverse))
        } else if same_text(name, "g_ModelMatrix") || same_text(name, "g_EffectModelMatrix") {
            Some(set_array(&self.model))
        } else if same_text(name, "g_ModelMatrixInverse") {
            Some(set_array(&self.model_inverse))
        } else if same_text(name, "g_ViewProjectionMatrix") {
            Some(set_array(&self.view_projection))
        } else if same_text(name, "g_EffectTextureProjectionMatrix") || same_text(
            name,
            "g_EffectTextureProjectionMatrixInverse",
        ) {
            Some(
                set_array(
                    &[ONE_BITS, 0, 0, 0, 0, ONE_BITS, 0, 0, 0, 0, ONE_BITS, 0, 0, 0, 0, ONE_BITS],
                ),
            )
        } else if same_text(name, "g_NormalModelMatrix") {
            Some(set_array(&[ONE_BITS, 0, 0, 0, ONE_BITS, 0, 0, 0, ONE_BITS]))
        } else if same_text(name, "g_OrientationUp") || same_text(name, "g_ViewUp") {
            Some(set_array(&[0, ONE_BITS, 0]))
        } else if same_text(name, "g_OrientationRight") || same_text(name, "g_ViewRight") {
            Some(set_array(&[ONE_BITS, 0, 0]))
        } else if same_text(name, "g_OrientationForward") {
            Some(set_array(&[0, 0, ONE_BITS]))
        } else if same_text(name, "g_EyePosition") {
            Some(set_array(&self.eye))
        } else if same_text(name, "g_RenderVar0") || same_text(name, "g_RenderVar1") {
            Some(set_array(&[0u32, 0, 0, 0]))
        } else if same_text(name, "g_RefractAmount") {
            Some(set_array(&[REFRACT_BITS]))
        } else if same_text(name, "g_AudioSpectrum16Left") || same_text(
            name,
            "g_AudioSpectrum16Right",
        ) {
            Some(set_array(&self.audio16))
        } else if same_text(name, "g_AudioSpectrum32Left") || same_text(
            name,
            "g_AudioSpectrum32Right",
        ) {
            Some(set_array(&self.audio32))
        } else if same_text(name, "g_AudioSpectrum64Left") || same_text(
            name,
            "g_AudioSpectrum64Right",
        ) {
            Some(set_array(&self.audio64))
        } else {
            None
        }
    }
}

} // verus!
