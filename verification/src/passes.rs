//! What a pass hands to its shaders, and what it asks of its vertices.
use vstd::prelude::*;

use crate::frame::picked;
use crate::material::{Combos, Pass, PassModel};
use crate::modules::PassBuildError;
use crate::order::{draw_positions, ints, sorted_positions};
use crate::slots::{is_scene_rt, names_scene, SamplerSlot, SlotModel};
use crate::strings::{decimal, decimal_of, join2, opt_view, same_text, texts, views};
use crate::table::{as_map, lemma_as_map_grows, TextMap};

verus! {

/// The switches and texture slots that a shader is translated with.
#[derive(Debug)]
pub struct ShaderInputs {
    pub combos: TextMap<i32>,
    pub override_combos: TextMap<i32>,
    /// The slots that hold a texture, in order.
    pub populated_texture_slots: Vec<u32>,
}

/// The low 32 bits of a number, as a signed number.
pub open spec fn low_bits(v: i64) -> i32 {
    let r = v % 0x1_0000_0000;
    if r < 0x8000_0000 {
        r as i32
    } else {
        (r - 0x1_0000_0000) as i32
    }
}

/// The switches of a pass, as 32 bits hold them.
pub open spec fn small_combos(combos: Map<Seq<char>, i64>) -> Map<Seq<char>, i32> {
    combos.map_values(|v: i64| low_bits(v))
}

/// The slots among the first `k` that hold a texture; the first always does.
pub open spec fn slots_upto(textures: Seq<Option<Seq<char>>>, k: int) -> Seq<u32>
    decreases k,
{
    if k <= 1 {
        seq![0u32]
    } else if textures[k - 1] is Some {
        slots_upto(textures, k - 1).push((k - 1) as u32)
    } else {
        slots_upto(textures, k - 1)
    }
}

fn low_bits_of(v: i64) -> (r: i32)
    ensures
        r == low_bits(v),
{
    let m: i64 = 0x1_0000_0000;
    let q: i64 = if v >= 0 {
        v % m
    } else {
        m - 1 - (-(v + 1)) % m
    };
    assert(q == v % 0x1_0000_0000) by (nonlinear_arith)
        requires
            v >= 0 ==> q == v % m,
            v < 0 ==> q == m - 1 - (-(v + 1)) % (m as int),
            m == 0x1_0000_0000,
    {
        if v < 0 {
            let w = -(v + 1);
            let d = w / 0x1_0000_0000;
            let r = w % 0x1_0000_0000;
            assert(w == d * 0x1_0000_0000 + r);
            assert(v == (-d - 1) * 0x1_0000_0000 + (0x1_0000_0000 - 1 - r));
        }
    }
    if q < 0x8000_0000 {
        q as i32
    } else {
        (q - m) as i32
    }
}

fn small(combos: &Combos) -> (r: TextMap<i32>)
    ensures
        r@ == small_combos(combos@),
{
    let ghost list = combos.items();
    let n: usize = combos.len();
    let mut out: TextMap<i32> = TextMap::new();
    let mut i: usize = 0;
    assert(list.take(0) =~= Seq::empty());
    assert(out@ =~= small_combos(as_map(list.take(0))));
    while i < n
        invariant
            i <= n,
            n == list.len(),
            list == combos.items(),
            combos@ == as_map(list),
            crate::table::distinct_keys(list),
            out@ == small_combos(as_map(list.take(i as int))),
        decreases n - i,
    {
        let ghost before = as_map(list.take(i as int));
        out.insert(combos.key(i).clone(), low_bits_of(*combos.at(i)));
        proof {
            lemma_as_map_grows(list, i as int);
            assert(out@ =~= small_combos(as_map(list.take(i + 1))));
        }
        i += 1;
    }
    assert(list.take(n as int) =~= list);
    out
}

/// The switches and texture slots that a pass gives its shaders.
pub fn shader_inputs(pass: &Pass) -> (r: ShaderInputs)
    requires
        pass.textures@.len() <= u32::MAX,
    ensures
        r.combos@ == small_combos(pass@.combos),
        r.override_combos@ == Map::<Seq<char>, i32>::empty(),
        r.populated_texture_slots@ == slots_upto(pass@.textures, pass@.textures.len() as int),
{
    let mut slots: Vec<u32> = Vec::new();
    slots.push(0);
    assert(slots@ =~= seq![0u32]);
    let mut i: usize = 1;
    let n: usize = pass.textures.len();
    while i < n
        invariant
            1 <= i,
            i <= n || i == 1,
            n == pass.textures@.len(),
            n <= u32::MAX,
            slots@ == slots_upto(pass@.textures, i as int),
        decreases n - i,
    {
        assert(pass@.textures[i as int] == opt_view(pass.textures@[i as int]));
        if pass.textures[i].is_some() {
            slots.push(i as u32);
        }
        i += 1;
    }
    ShaderInputs {
        combos: small(&pass.combos),
        override_combos: TextMap::new(),
        populated_texture_slots: slots,
    }
}

/// The switches that two stages share: where both have one, the fragment
/// stage's counts unless it is off.
pub open spec fn merged(vs: Map<Seq<char>, i32>, fs: Map<Seq<char>, i32>) -> Map<Seq<char>, i32> {
    Map::new(
        |k: Seq<char>| vs.contains_key(k) || fs.contains_key(k),
        |k: Seq<char>|
            if fs.contains_key(k) && (fs[k] != 0 || !vs.contains_key(k)) {
                fs[k]
            } else {
                vs[k]
            },
    )
}

/// The switches that two stages share.
pub fn merge_combos(vs: &TextMap<i32>, fs: &TextMap<i32>) -> (r: TextMap<i32>)
    ensures
        r@ == merged(vs@, fs@),
{
    let mut out: TextMap<i32> = TextMap::new();
    let ghost a = vs.items();
    let n: usize = vs.len();
    let mut i: usize = 0;
    assert(a.take(0) =~= Seq::empty());
    assert(out@ =~= as_map(a.take(0)));
    while i < n
        invariant
            i <= n,
            n == a.len(),
            a == vs.items(),
            vs@ == as_map(a),
            crate::table::distinct_keys(a),
            out@ == as_map(a.take(i as int)),
        decreases n - i,
    {
        out.insert(vs.key(i).clone(), *vs.at(i));
        proof {
            lemma_as_map_grows(a, i as int);
        }
        i += 1;
    }
    assert(a.take(n as int) =~= a);
    let ghost b = fs.items();
    let m: usize = fs.len();
    let mut k: usize = 0;
    assert(b.take(0) =~= Seq::empty());
    assert(out@ =~= merged(vs@, as_map(b.take(0))));
    while k < m
        invariant
            k <= m,
            m == b.len(),
            b == fs.items(),
            fs@ == as_map(b),
            crate::table::distinct_keys(b),
            out@ == merged(vs@, as_map(b.take(k as int))),
        decreases m - k,
    {
        let name = fs.key(k);
        let value: i32 = *fs.at(k);
        let ghost before = out@;
        let known = out.get(name.as_str()).is_some();
        if !known || value != 0 {
            out.insert(name.clone(), value);
        }
        proof {
            lemma_as_map_grows(b, k as int);
            lemma_distinct_so_far(b, k as int);
            assert(out@ =~= merged(vs@, as_map(b.take(k + 1))));
        }
        k += 1;
    }
    assert(b.take(m as int) =~= b);
    out
}

proof fn lemma_distinct_so_far(list: Seq<(Seq<char>, i32)>, k: int)
    requires
        crate::table::distinct_keys(list),
        0 <= k < list.len(),
    ensures
        !as_map(list.take(k)).contains_key(list[k].0),
{
    crate::table::lemma_position(list.take(k), list[k].0, 0);
    if crate::table::position(list.take(k), list[k].0, 0) is Some {
        let i = crate::table::position(list.take(k), list[k].0, 0)->0;
        assert(list.take(k)[i] == list[i]);
    }
}

/// An attribute that a vertex shader takes.
#[derive(Debug)]
pub struct Attribute {
    pub name: String,
    pub location: u32,
}

/// What an [`Attribute`] holds.
pub struct AttributeModel {
    pub name: Seq<char>,
    pub location: u32,
}

impl View for Attribute {
    type V = AttributeModel;

    open spec fn view(&self) -> AttributeModel {
        AttributeModel { name: self.name@, location: self.location }
    }
}

/// Where the position and the texture coordinates of a vertex go.
#[derive(Clone, Copy, Debug, PartialEq, Eq, Structural)]
pub struct QuadInputs {
    pub pos_location: u32,
    pub uv_location: Option<u32>,
}

/// What the first `k` attributes of a quad's shader ask for, or the first that
/// a quad does not have.
pub open spec fn quad_inputs(attrs: Seq<AttributeModel>, k: int) -> Result<QuadInputs, Seq<char>>
    decreases k,
{
    if k <= 0 {
        Ok(QuadInputs { pos_location: 0, uv_location: None })
    } else {
        match quad_inputs(attrs, k - 1) {
            Ok(q) => if attrs[k - 1].name == "a_Position"@ {
                Ok(QuadInputs { pos_location: attrs[k - 1].location, ..q })
            } else if attrs[k - 1].name == "a_TexCoord"@ {
                Ok(QuadInputs { uv_location: Some(attrs[k - 1].location), ..q })
            } else {
                Err(attrs[k - 1].name)
            },
            Err(n) => Err(n),
        }
    }
}

proof fn lemma_quad_stays_refused(attrs: Seq<AttributeModel>, i: int, k: int)
    requires
        0 <= i <= k,
        quad_inputs(attrs, i) is Err,
    ensures
        quad_inputs(attrs, k) == quad_inputs(attrs, i),
    decreases k - i,
{
    if i < k {
        lemma_quad_stays_refused(attrs, i, k - 1);
    }
}

/// Where the position and the texture coordinates of a quad go. A shader that
/// asks for more cannot be used.
pub fn quad_attributes(attrs: &Vec<Attribute>) -> (r: Result<QuadInputs, PassBuildError>)
    ensures
        match (r, quad_inputs(views(attrs@), attrs@.len() as int)) {
            (Ok(q), Ok(p)) => q == p,
            (Err(PassBuildError::Translate(m)), Err(n)) => m@ == "unsupported vertex attribute "@ + n,
            _ => false,
        },
{
    let ghost all = views(attrs@);
    let mut q = QuadInputs { pos_location: 0, uv_location: None };
    let mut i: usize = 0;
    while i < attrs.len()
        invariant
            i <= attrs@.len(),
            all == views(attrs@),
            quad_inputs(all, i as int) == Ok::<QuadInputs, Seq<char>>(q),
        decreases attrs@.len() - i,
    {
        let a = &attrs[i];
        assert(all[i as int] == a@);
        if same_text(a.name.as_str(), "a_Position") {
            q = QuadInputs { pos_location: a.location, ..q };
        } else if same_text(a.name.as_str(), "a_TexCoord") {
            q = QuadInputs { uv_location: Some(a.location), ..q };
        } else {
            proof {
                lemma_quad_stays_refused(all, i + 1, attrs@.len() as int);
            }
            return Err(
                PassBuildError::Translate(
                    join2("unsupported vertex attribute ", a.name.as_str()),
                ),
            );
        }
        i += 1;
    }
    Ok(q)
}

/// A part of a model's vertex: how many numbers it has, and where it begins.
#[derive(Clone, Copy, Debug, PartialEq, Eq, Structural)]
pub struct VertexPart {
    pub components: u32,
    pub offset: u64,
    pub location: u32,
}

/// The part of a model's vertex that an attribute is.
pub open spec fn model_part(a: AttributeModel) -> Option<VertexPart> {
    if a.name == "a_Position"@ {
        Some(VertexPart { components: 3, offset: 0, location: a.location })
    } else if a.name == "a_Normal"@ {
        Some(VertexPart { components: 3, offset: 12, location: a.location })
    } else if a.name == "a_Tangent4"@ {
        Some(VertexPart { components: 4, offset: 24, location: a.location })
    } else if a.name == "a_TexCoord"@ {
        Some(VertexPart { components: 2, offset: 40, location: a.location })
    } else {
        None
    }
}

/// The parts that the first `k` attributes of a model's shader ask for, or the
/// first that a model does not have.
pub open spec fn model_parts(attrs: Seq<AttributeModel>, k: int) -> Result<Seq<VertexPart>, Seq<char>>
    decreases k,
{
    if k <= 0 {
        Ok(Seq::empty())
    } else {
        match model_parts(attrs, k - 1) {
            Ok(p) => match model_part(attrs[k - 1]) {
                Some(x) => Ok(p.push(x)),
                None => Err(attrs[k - 1].name),
            },
            Err(n) => Err(n),
        }
    }
}

/// Numbers by which parts are ordered.
pub open spec fn part_keys(parts: Seq<VertexPart>) -> Seq<i64> {
    Seq::new(parts.len(), |i: int| parts[i].location as i64)
}

/// Parts by location.
pub open spec fn parts_in_order(parts: Seq<VertexPart>) -> Seq<VertexPart> {
    picked(parts, sorted_positions(part_keys(parts), parts.len() as int))
}

proof fn lemma_model_stays_refused(attrs: Seq<AttributeModel>, i: int, k: int)
    requires
        0 <= i <= k,
        model_parts(attrs, i) is Err,
    ensures
        model_parts(attrs, k) == model_parts(attrs, i),
    decreases k - i,
{
    if i < k {
        lemma_model_stays_refused(attrs, i, k - 1);
    }
}

fn part_of(a: &Attribute) -> (r: Option<VertexPart>)
    ensures
        r == model_part(a@),
{
    let location = a.location;
    let name = a.name.as_str();
    if same_text(name, "a_Position") {
        Some(VertexPart { components: 3, offset: 0, location })
    } else if same_text(name, "a_Normal") {
        Some(VertexPart { components: 3, offset: 12, location })
    } else if same_text(name, "a_Tangent4") {
        Some(VertexPart { components: 4, offset: 24, location })
    } else if same_text(name, "a_TexCoord") {
        Some(VertexPart { components: 2, offset: 40, location })
    } else {
        None
    }
}

/// The parts of a model's vertices that its shader asks for, by location. One
/// that asks for more cannot be used.
pub fn model_attributes(attrs: &Vec<Attribute>) -> (r: Result<Vec<VertexPart>, PassBuildError>)
    ensures
        match (r, model_parts(views(attrs@), attrs@.len() as int)) {
            (Ok(v), Ok(p)) => v@ == parts_in_order(p),
            (Err(PassBuildError::Translate(m)), Err(n)) => m@
                == "unsupported model vertex attribute "@ + n,
            _ => false,
        },
{
    let ghost all = views(attrs@);
    let mut parts: Vec<VertexPart> = Vec::new();
    let mut keys: Vec<i64> = Vec::new();
    let mut i: usize = 0;
    while i < attrs.len()
        invariant
            i <= attrs@.len(),
            all == views(attrs@),
            model_parts(all, i as int) == Ok::<Seq<VertexPart>, Seq<char>>(parts@),
            keys@ =~= part_keys(parts@),
        decreases attrs@.len() - i,
    {
        assert(all[i as int] == attrs@[i as int]@);
        match part_of(&attrs[i]) {
            Some(p) => {
                parts.push(p);
                keys.push(p.location as i64);
            },
            None => {
                proof {
                    lemma_model_stays_refused(all, i + 1, attrs@.len() as int);
                }
                return Err(
                    PassBuildError::Translate(
                        join2("unsupported model vertex attribute ", attrs[i].name.as_str()),
                    ),
                );
            },
        }
        i += 1;
    }
    let order = draw_positions(&keys, true);
    let ghost positions = sorted_positions(keys@, keys@.len() as int);
    let mut out: Vec<VertexPart> = Vec::new();
    let mut k: usize = 0;
    while k < order.len()
        invariant
            k <= order@.len(),
            order@.len() == parts@.len(),
            ints(order@) == positions,
            out@.len() == k,
            forall|j: int| 0 <= j < order@.len() ==> (#[trigger] order@[j]) < parts@.len(),
            forall|j: int| 0 <= j < k ==> #[trigger] out@[j] == parts@[positions[j]],
        decreases order@.len() - k,
    {
        assert(positions[k as int] == order@[k as int] as int);
        out.push(parts[order[k]]);
        k += 1;
    }
    assert(out@ =~= parts_in_order(parts@));
    Ok(out)
}

impl PassBuildError {
    /// What is said of the error.
    pub open spec fn text(self) -> Seq<char> {
        match self {
            PassBuildError::Translate(m) => m@,
            PassBuildError::InterfaceMismatch(l) =>
                "VS/FS interface mismatch: fragment reads location "@ + decimal(l as int)
                + " the vertex stage does not write"@,
            PassBuildError::TooManyVaryings(l, max) => "inter-stage location "@ + decimal(l as int)
                + " exceeds the device limit ("@ + decimal(max as int) + ")"@,
        }
    }

    pub fn message(&self) -> (r: String)
        ensures
            r@ == self.text(),
    {
        match self {
            PassBuildError::Translate(m) => m.clone(),
            PassBuildError::InterfaceMismatch(l) => {
                let n = decimal_of(*l as i64);
                let a = join2(
                    "VS/FS interface mismatch: fragment reads location ",
                    n.as_str(),
                );
                join2(a.as_str(), " the vertex stage does not write")
            },
            PassBuildError::TooManyVaryings(l, max) => {
                let n = decimal_of(*l as i64);
                let m = decimal_of(*max as i64);
                let a = join2("inter-stage location ", n.as_str());
                let b = join2(a.as_str(), " exceeds the device limit (");
                let c = join2(b.as_str(), m.as_str());
                join2(c.as_str(), ")")
            },
        }
    }
}

/// Whether a model samples the scene as drawn so far: a sampler does so by
/// default, or a texture slot of the pass names it.
pub open spec fn model_reads_scene(samplers: Seq<SlotModel>, pass: PassModel) -> bool {
    (exists|i: int|
        0 <= i < samplers.len() && ((#[trigger] samplers[i]).default_texture matches Some(n)
            && names_scene(n))) || (exists|i: int|
        0 <= i < pass.textures.len() && (#[trigger] pass.textures[i] matches Some(n) && names_scene(
            n,
        )))
}

pub fn samples_scene(samplers: &Vec<SamplerSlot>, pass: &Pass) -> (r: bool)
    ensures
        r == model_reads_scene(views(samplers@), pass@),
{
    let ghost all = views(samplers@);
    let mut i: usize = 0;
    while i < samplers.len()
        invariant
            i <= samplers@.len(),
            all == views(samplers@),
            forall|j: int|
                0 <= j < i ==> !((#[trigger] all[j]).default_texture matches Some(n) && names_scene(
                    n,
                )),
        decreases samplers@.len() - i,
    {
        assert(all[i as int] == samplers@[i as int]@);
        if let Some(n) = &samplers[i].default_texture {
            if is_scene_rt(n.as_str()) {
                return true;
            }
        }
        i += 1;
    }
    let mut t: usize = 0;
    while t < pass.textures.len()
        invariant
            t <= pass.textures@.len(),
            pass@.textures == texts(pass.textures@),
            forall|j: int|
                0 <= j < all.len() ==> !((#[trigger] all[j]).default_texture matches Some(n)
                    && names_scene(n)),
            all == views(samplers@),
            forall|j: int|
                0 <= j < t ==> !(#[trigger] pass@.textures[j] matches Some(n) && names_scene(n)),
        decreases pass.textures@.len() - t,
    {
        assert(pass@.textures[t as int] == opt_view(pass.textures@[t as int]));
        if let Some(n) = &pass.textures[t] {
            if is_scene_rt(n.as_str()) {
                return true;
            }
        }
        t += 1;
    }
    false
}

} // verus!
