//! How an image layer is drawn: its passes in order, and what each reads and
//! writes.
use vstd::prelude::*;

use crate::copy::{copy_opt, copy_vec, Duplicate};
use crate::material::{
    Blending, CullMode, DepthMode, EffectFile, EffectPass, EffectPassModel, Fbo, FboModel, Material,
    Pass, PassCommand, PassModel,
};
use crate::object::{EffectModel, ImageModel, ImageObject, OverrideModel, PassOverride};
use crate::strings::{lemma_views_push, opt_view, same_text, texts, views};
use crate::table::{as_map, lemma_as_map_grows, TextMap};

verus! {

/// What a pass reads as its first texture.
#[derive(Debug, Clone, Copy, PartialEq, Eq, Structural)]
pub enum PassInput {
    Layer,
    Fbo(usize),
}

/// What a pass writes.
#[derive(Debug, PartialEq, Eq)]
pub enum PassOutput {
    Fbo(usize),
    Named(String),
    Scene,
}

/// What a [`PassOutput`] holds.
pub enum Output {
    Fbo(usize),
    Named(Seq<char>),
    Scene,
}

impl View for PassOutput {
    type V = Output;

    open spec fn view(&self) -> Output {
        match self {
            PassOutput::Fbo(i) => Output::Fbo(*i),
            PassOutput::Named(n) => Output::Named(n@),
            PassOutput::Scene => Output::Scene,
        }
    }
}

/// The vertices that a pass draws.
#[derive(Debug, Clone, Copy, PartialEq, Eq, Structural)]
pub enum Geometry {
    Copy,
    SceneCopy,
    Pass,
    Scene,
    Puppet,
    PuppetCopy,
}

/// A texture slot that an effect pass fills.
#[derive(Debug)]
pub struct SlotBind {
    pub slot: u32,
    pub name: String,
}

impl View for SlotBind {
    type V = (u32, Seq<char>);

    open spec fn view(&self) -> (u32, Seq<char>) {
        (self.slot, self.name@)
    }
}

impl Duplicate for SlotBind {
    fn duplicate(&self) -> (r: Self) {
        SlotBind { slot: self.slot, name: self.name.clone() }
    }
}

#[derive(Debug)]
pub struct PlanPass {
    pub shader: String,
    pub blending: Blending,
    pub cull: CullMode,
    pub depthtest: DepthMode,
    pub depthwrite: DepthMode,
    pub pass: Pass,
    pub input: PassInput,
    pub output: PassOutput,
    pub geometry: Geometry,
    pub effect_index: Option<usize>,
    pub target: Option<String>,
    pub binds: Vec<SlotBind>,
}

/// What a [`PlanPass`] holds.
pub struct PlanPassModel {
    pub shader: Seq<char>,
    pub blending: Blending,
    pub cull: CullMode,
    pub depthtest: DepthMode,
    pub depthwrite: DepthMode,
    pub pass: PassModel,
    pub input: PassInput,
    pub output: Output,
    pub geometry: Geometry,
    pub effect_index: Option<usize>,
    pub target: Option<Seq<char>>,
    pub binds: Seq<(u32, Seq<char>)>,
}

impl View for PlanPass {
    type V = PlanPassModel;

    open spec fn view(&self) -> PlanPassModel {
        PlanPassModel {
            shader: self.shader@,
            blending: self.blending,
            cull: self.cull,
            depthtest: self.depthtest,
            depthwrite: self.depthwrite,
            pass: self.pass@,
            input: self.input,
            output: self.output@,
            geometry: self.geometry,
            effect_index: self.effect_index,
            target: opt_view(self.target),
            binds: views(self.binds@),
        }
    }
}

#[derive(Debug)]
pub struct ImagePlan {
    pub passes: Vec<PlanPass>,
    pub named_fbos: Vec<Fbo>,
}

/// What an [`ImagePlan`] holds.
pub struct PlanModel {
    pub passes: Seq<PlanPassModel>,
    pub named_fbos: Seq<FboModel>,
}

impl View for ImagePlan {
    type V = PlanModel;

    open spec fn view(&self) -> PlanModel {
        PlanModel { passes: views(self.passes@), named_fbos: views(self.named_fbos@) }
    }
}

/// The number of slots up to the last one that holds a name.
pub open spec fn reach(slots: Seq<Option<Seq<char>>>) -> nat
    decreases slots.len(),
{
    if slots.len() == 0 {
        0
    } else if slots.last() is Some {
        slots.len()
    } else {
        reach(slots.drop_last())
    }
}

/// `base` with the slots that `over` names replaced.
pub open spec fn overlay(
    base: Seq<Option<Seq<char>>>,
    over: Seq<Option<Seq<char>>>,
) -> Seq<Option<Seq<char>>> {
    let n = if reach(over) > base.len() {
        reach(over)
    } else {
        base.len()
    };
    Seq::new(
        n,
        |i: int|
            if i < over.len() && over[i] is Some {
                over[i]
            } else if i < base.len() {
                base[i]
            } else {
                None
            },
    )
}

/// A pass with an override applied: its combos and constants win over the
/// pass's, and so do the textures that it names.
pub open spec fn overridden(pass: PassModel, ov: OverrideModel) -> PassModel {
    PassModel {
        combos: pass.combos.union_prefer_right(ov.combos),
        constants: pass.constants.union_prefer_right(ov.constants),
        textures: overlay(pass.textures, ov.textures),
        ..pass
    }
}

proof fn lemma_reach_le(slots: Seq<Option<Seq<char>>>)
    ensures
        reach(slots) <= slots.len(),
        forall|i: int| reach(slots) <= i < slots.len() ==> slots[i] is None,
    decreases slots.len(),
{
    if slots.len() > 0 && slots.last() is None {
        lemma_reach_le(slots.drop_last());
        assert forall|i: int| reach(slots) <= i < slots.len() implies slots[i] is None by {
            if i < slots.len() - 1 {
                assert(slots.drop_last()[i] == slots[i]);
            }
        }
    }
}

fn overlay_slots(base: &mut Vec<Option<String>>, over: &Vec<Option<String>>)
    ensures
        texts(final(base)@) == overlay(texts(old(base)@), texts(over@)),
{
    let ghost b = texts(base@);
    let ghost o = texts(over@);
    let mut i: usize = 0;
    proof {
        assert(o.take(0) =~= Seq::empty());
        assert(texts(base@) =~= overlay(b, o.take(0)));
    }
    while i < over.len()
        invariant
            i <= over@.len(),
            o == texts(over@),
            texts(base@) == overlay(b, o.take(i as int)),
        decreases over@.len() - i,
    {
        let ghost before = texts(base@);
        proof {
            assert(o.take(i + 1).drop_last() =~= o.take(i as int));
            assert(o.take(i + 1).last() == o[i as int]);
            lemma_reach_le(o.take(i as int));
        }
        if over[i].is_some() {
            while base.len() <= i
                invariant
                    i < over@.len(),
                    base@.len() >= before.len(),
                    base@.len() <= i + 1 || base@.len() == before.len(),
                    forall|j: int|
                        0 <= j < base@.len() ==> opt_view(#[trigger] base@[j]) == (if j
                            < before.len() {
                            before[j]
                        } else {
                            None
                        }),
                decreases i + 1 - base@.len(),
            {
                base.push(None);
            }
            let slot = copy_opt(&over[i]);
            base.set(i, slot);
        }
        proof {
            let next = o.take(i + 1);
            assert(opt_view(over@[i as int]) == o[i as int]);
            assert forall|j: int| 0 <= j < i implies next[j] == o.take(i as int)[j] by {}
            assert(texts(base@).len() == overlay(b, next).len());
            assert forall|j: int| 0 <= j < base@.len() implies #[trigger] texts(base@)[j] == overlay(
                b,
                next,
            )[j] by {
                if j < before.len() {
                    assert(before[j] == overlay(b, o.take(i as int))[j]);
                }
            }
            assert(texts(base@) =~= overlay(b, next));
        }
        i += 1;
    }
    assert(o.take(over@.len() as int) =~= o);
}

/// Puts every entry of `over` into `base`.
fn merge_into<V: Duplicate>(base: &mut TextMap<V>, over: &TextMap<V>)
    ensures
        final(base)@ == old(base)@.union_prefer_right(over@),
{
    let n: usize = over.len();
    let mut i: usize = 0;
    let ghost b = base@;
    let ghost items = over.items();
    assert(base@ =~= b.union_prefer_right(as_map(items.take(0))));
    while i < n
        invariant
            i <= n,
            n == items.len(),
            items == over.items(),
            crate::table::distinct_keys(items),
            base@ == b.union_prefer_right(as_map(items.take(i as int))),
        decreases n - i,
    {
        let k = over.key(i).clone();
        let v = over.at(i).duplicate();
        base.insert(k, v);
        proof {
            lemma_as_map_grows(items, i as int);
            assert(base@ =~= b.union_prefer_right(as_map(items.take(i + 1))));
        }
        i += 1;
    }
    assert(items.take(n as int) =~= items);
}

fn apply_override(pass: Pass, ov: &PassOverride) -> (r: Pass)
    ensures
        r@ == overridden(pass@, ov@),
{
    let mut pass = pass;
    merge_into(&mut pass.combos, &ov.combos);
    merge_into(&mut pass.constantshadervalues, &ov.constantshadervalues);
    overlay_slots(&mut pass.textures, &ov.textures);
    pass
}

/// A pass before it is wired to the others.
struct SrcPass {
    pass: Pass,
    target: Option<String>,
    binds: Vec<SlotBind>,
    effect_index: Option<usize>,
}

/// What a pass is before it is wired to the others.
#[verifier::ext_equal]
pub struct Source {
    pub pass: PassModel,
    pub target: Option<Seq<char>>,
    pub binds: Seq<(u32, Seq<char>)>,
    pub effect_index: Option<usize>,
}

impl View for SrcPass {
    type V = Source;

    closed spec fn view(&self) -> Source {
        Source {
            pass: self.pass@,
            target: opt_view(self.target),
            binds: views(self.binds@),
            effect_index: self.effect_index,
        }
    }
}

/// The shader that a copy command draws with.
pub const COPY_COMMAND_SHADER: &'static str = "commands/copy";

/// The material whose first pass blends a layer that has a colour blend mode.
pub const COLOR_BLEND_MATERIAL: &'static str = "materials/util/effectpassthrough.json";

/// The pass that copies the texture `source` into the target `target`.
pub open spec fn copy_command(
    source: Seq<char>,
    target: Seq<char>,
    effect_index: usize,
) -> Source {
    Source {
        pass: PassModel {
            blending: Blending::Normal,
            cullmode: CullMode::NoCull,
            depthtest: DepthMode::Disabled,
            depthwrite: DepthMode::Disabled,
            shader: COPY_COMMAND_SHADER@,
            textures: seq![Some(source)],
            usertextures: Seq::empty(),
            combos: Map::empty(),
            constants: Map::empty(),
        },
        target: Some(target),
        binds: Seq::empty(),
        effect_index: Some(effect_index),
    }
}

fn copy_command_pass(source: &str, target: &str, effect_index: usize) -> (r: SrcPass)
    ensures
        r@ == copy_command(source@, target@, effect_index),
{
    let mut textures: Vec<Option<String>> = Vec::new();
    textures.push(Some(source.to_owned()));
    let r = SrcPass {
        pass: Pass {
            blending: Blending::Normal,
            cullmode: CullMode::NoCull,
            depthtest: DepthMode::Disabled,
            depthwrite: DepthMode::Disabled,
            shader: COPY_COMMAND_SHADER.to_owned(),
            textures,
            usertextures: Vec::new(),
            combos: TextMap::new(),
            constantshadervalues: TextMap::new(),
        },
        target: Some(target.to_owned()),
        binds: Vec::new(),
        effect_index: Some(effect_index),
    };
    proof {
        assert(r@.pass.textures =~= seq![Some(source@)]);
        assert(r@.pass.usertextures =~= Seq::empty());
        assert(r@.binds =~= Seq::empty());
    }
    r
}

/// The passes of a material as sources of a layer's own chain.
pub open spec fn base_sources(material: Option<Seq<PassModel>>) -> Seq<Source> {
    match material {
        Some(passes) => Seq::new(
            passes.len(),
            |i: int|
                Source {
                    pass: passes[i],
                    target: None,
                    binds: Seq::empty(),
                    effect_index: None,
                },
        ),
        None => Seq::empty(),
    }
}

fn base_passes(image: &ImageObject) -> (r: Vec<SrcPass>)
    ensures
        views(r@) == base_sources(image@.material),
{
    let mut out: Vec<SrcPass> = Vec::new();
    if let Some(m) = &image.material {
        let mut i: usize = 0;
        while i < m.passes.len()
            invariant
                i <= m.passes@.len(),
                out@.len() == i,
                forall|j: int|
                    0 <= j < i ==> (#[trigger] out@[j])@ == (Source {
                        pass: m.passes@[j]@,
                        target: None,
                        binds: Seq::empty(),
                        effect_index: None,
                    }),
            decreases m.passes@.len() - i,
        {
            let src = SrcPass {
                pass: m.passes[i].duplicate(),
                target: None,
                binds: Vec::new(),
                effect_index: None,
            };
            assert(src@.binds =~= Seq::empty());
            out.push(src);
            i += 1;
        }
    }
    assert(views(out@) =~= base_sources(image@.material));
    out
}

/// The binds whose slot is a slot, in order.
pub open spec fn slot_binds(binds: Seq<(Seq<char>, i64)>) -> Seq<(u32, Seq<char>)>
    decreases binds.len(),
{
    if binds.len() == 0 {
        Seq::empty()
    } else {
        let rest = slot_binds(binds.drop_last());
        let b = binds.last();
        if 0 <= b.1 <= u32::MAX {
            rest.push((b.1 as u32, b.0))
        } else {
            rest
        }
    }
}

fn effect_binds(epass: &EffectPass) -> (r: Vec<SlotBind>)
    ensures
        views(r@) == slot_binds(epass@.bind),
{
    let mut out: Vec<SlotBind> = Vec::new();
    let mut i: usize = 0;
    let ghost all = epass@.bind;
    proof {
        assert(all.take(0) =~= Seq::empty());
        assert(views(out@) =~= Seq::empty());
    }
    while i < epass.bind.len()
        invariant
            i <= epass.bind@.len(),
            all == views(epass.bind@),
            views(out@) == slot_binds(all.take(i as int)),
        decreases epass.bind@.len() - i,
    {
        broadcast use lemma_views_push;

        let b = &epass.bind[i];
        proof {
            assert(all.take(i + 1).drop_last() =~= all.take(i as int));
            assert(all.take(i + 1).last() == b@);
        }
        if 0 <= b.index && b.index <= 0xffff_ffff {
            out.push(SlotBind { slot: b.index as u32, name: b.name.clone() });
        }
        i += 1;
    }
    assert(all.take(all.len() as int) =~= all);
    out
}

/// How many of the first `k` passes of an effect draw with a material. Only
/// those take an override.
pub open spec fn materials_before(passes: Seq<EffectPassModel>, k: int) -> nat
    decreases k,
{
    if k <= 0 {
        0
    } else {
        materials_before(passes, k - 1) + if passes[k - 1].material is Some {
            1nat
        } else {
            0nat
        }
    }
}

/// The sources that one pass of an effect contributes: a copy for a copy
/// command, the passes of its material with the override applied, and nothing
/// for any other command or a material that could not be loaded.
pub open spec fn pass_sources(
    epass: EffectPassModel,
    ov: Option<OverrideModel>,
    effect_index: usize,
) -> Seq<Source> {
    if epass.material is None {
        match (epass.command, epass.source, epass.target) {
            (Some(PassCommand::Copy), Some(source), Some(target)) => seq![
                copy_command(source, target, effect_index),
            ],
            _ => Seq::empty(),
        }
    } else {
        match epass.resolved {
            Some(passes) => Seq::new(
                passes.len(),
                |i: int|
                    Source {
                        pass: match ov {
                            Some(o) => overridden(passes[i], o),
                            None => passes[i],
                        },
                        target: epass.target,
                        binds: if i == 0 {
                            slot_binds(epass.bind)
                        } else {
                            Seq::empty()
                        },
                        effect_index: Some(effect_index),
                    },
            ),
            None => Seq::empty(),
        }
    }
}

/// The override of the `k`-th pass of an effect.
pub open spec fn override_of(
    passes: Seq<EffectPassModel>,
    overrides: Seq<OverrideModel>,
    k: int,
) -> Option<OverrideModel> {
    let n = materials_before(passes, k);
    if n < overrides.len() {
        Some(overrides[n as int])
    } else {
        None
    }
}

/// The sources of the first `k` passes of an effect.
pub open spec fn file_sources(
    passes: Seq<EffectPassModel>,
    overrides: Seq<OverrideModel>,
    effect_index: usize,
    k: int,
) -> Seq<Source>
    decreases k,
{
    if k <= 0 {
        Seq::empty()
    } else {
        file_sources(passes, overrides, effect_index, k - 1) + pass_sources(
            passes[k - 1],
            override_of(passes, overrides, k - 1),
            effect_index,
        )
    }
}

/// The sources of one effect; a hidden or unloaded effect has none.
pub open spec fn one_effect_sources(effect: EffectModel, effect_index: usize) -> Seq<Source> {
    if !effect.visible.value {
        Seq::empty()
    } else {
        match effect.resolved {
            Some(file) => file_sources(
                file.passes,
                effect.passes,
                effect_index,
                file.passes.len() as int,
            ),
            None => Seq::empty(),
        }
    }
}

/// The sources of the first `k` effects.
pub open spec fn effect_sources(effects: Seq<EffectModel>, k: int) -> Seq<Source>
    decreases k,
{
    if k <= 0 {
        Seq::empty()
    } else {
        effect_sources(effects, k - 1) + one_effect_sources(effects[k - 1], (k - 1) as usize)
    }
}

proof fn lemma_views_add<T: View>(a: Seq<T>, b: Seq<T>)
    ensures
        views(a + b) == views(a) + views(b),
{
    assert(views(a + b) =~= views(a) + views(b));
}

fn one_pass(epass: &EffectPass, ov: Option<&PassOverride>, effect_index: usize) -> (r: Vec<
    SrcPass,
>)
    ensures
        views(r@) == pass_sources(
            epass@,
            match ov {
                Some(o) => Some(o@),
                None => None,
            },
            effect_index,
        ),
{
    let mut out: Vec<SrcPass> = Vec::new();
    let ghost wanted = pass_sources(
        epass@,
        match ov {
            Some(o) => Some(o@),
            None => None,
        },
        effect_index,
    );
    if epass.material.is_none() {
        match (&epass.command, &epass.source, &epass.target) {
            (Some(PassCommand::Copy), Some(source), Some(target)) => {
                out.push(copy_command_pass(source.as_str(), target.as_str(), effect_index));
            },
            _ => {},
        }
        assert(views(out@) =~= wanted);
        return out;
    }
    if let Some(mat) = &epass.resolved {
        let binds = effect_binds(epass);
        let mut i: usize = 0;
        while i < mat.passes.len()
            invariant
                epass.material is Some,
                epass.resolved == Some(*mat),
                i <= mat.passes@.len(),
                out@.len() == i,
                views(binds@) == slot_binds(epass@.bind),
                wanted == pass_sources(
                    epass@,
                    match ov {
                        Some(o) => Some(o@),
                        None => None,
                    },
                    effect_index,
                ),
                wanted.len() == mat.passes@.len(),
                forall|j: int| 0 <= j < i ==> (#[trigger] out@[j])@ == wanted[j],
            decreases mat.passes@.len() - i,
        {
            let copied = mat.passes[i].duplicate();
            let pass = match ov {
                Some(o) => apply_override(copied, o),
                None => copied,
            };
            let own: Vec<SlotBind> = if i == 0 {
                copy_vec(&binds)
            } else {
                Vec::new()
            };
            assert(i > 0 ==> views(own@) =~= Seq::empty());
            let src = SrcPass {
                pass,
                target: copy_opt(&epass.target),
                binds: own,
                effect_index: Some(effect_index),
            };
            assert(src@ == wanted[i as int]);
            out.push(src);
            i += 1;
        }
    }
    assert(views(out@) =~= wanted);
    out
}

fn file_passes(file: &EffectFile, overrides: &Vec<PassOverride>, effect_index: usize) -> (r: Vec<
    SrcPass,
>)
    ensures
        views(r@) == file_sources(
            file@.passes,
            views(overrides@),
            effect_index,
            file@.passes.len() as int,
        ),
{
    let mut out: Vec<SrcPass> = Vec::new();
    let mut next: usize = 0;
    let mut k: usize = 0;
    let ghost passes = file@.passes;
    let ghost ovs = views(overrides@);
    assert(views(out@) =~= Seq::empty());
    while k < file.passes.len()
        invariant
            k <= file.passes@.len(),
            passes == views(file.passes@),
            ovs == views(overrides@),
            next == materials_before(passes, k as int),
            next <= k,
            views(out@) == file_sources(passes, ovs, effect_index, k as int),
        decreases file.passes@.len() - k,
    {
        let epass = &file.passes[k];
        let ov: Option<&PassOverride> = if next < overrides.len() {
            Some(&overrides[next])
        } else {
            None
        };
        let ghost given = override_of(passes, ovs, k as int);
        assert(match ov {
            Some(o) => given == Some(o@),
            None => given is None,
        });
        let mut more = one_pass(epass, ov, effect_index);
        proof {
            lemma_views_add(out@, more@);
            assert(passes[k as int] == epass@);
        }
        out.append(&mut more);
        if epass.material.is_some() {
            next += 1;
        }
        k += 1;
    }
    out
}

fn effect_passes(image: &ImageObject) -> (r: Vec<SrcPass>)
    ensures
        views(r@) == effect_sources(image@.effects, image@.effects.len() as int),
{
    let mut out: Vec<SrcPass> = Vec::new();
    let mut k: usize = 0;
    let ghost effects = image@.effects;
    assert(views(out@) =~= Seq::empty());
    while k < image.effects.len()
        invariant
            k <= image.effects@.len(),
            effects == views(image.effects@),
            views(out@) == effect_sources(effects, k as int),
        decreases image.effects@.len() - k,
    {
        let effect = &image.effects[k];
        assert(effects[k as int] == effect@);
        if effect.visible.value {
            if let Some(file) = &effect.resolved {
                let mut more = file_passes(file, &effect.passes, k);
                proof {
                    lemma_views_add(out@, more@);
                }
                out.append(&mut more);
            }
        }
        proof {
            assert(views(out@) =~= effect_sources(effects, k as int) + one_effect_sources(
                effects[k as int],
                k,
            ));
        }
        k += 1;
    }
    out
}

/// Whether a render target of that name is among `fbos`.
pub open spec fn declares(fbos: Seq<FboModel>, name: Seq<char>) -> bool {
    exists|i: int| 0 <= i < fbos.len() && #[trigger] fbos[i].name == name
}

/// `out` with the targets of `fbos` whose name it does not hold yet.
pub open spec fn with_fbos(out: Seq<FboModel>, fbos: Seq<FboModel>, k: int) -> Seq<FboModel>
    decreases k,
{
    if k <= 0 {
        out
    } else {
        let before = with_fbos(out, fbos, k - 1);
        if declares(before, fbos[k - 1].name) {
            before
        } else {
            before.push(fbos[k - 1])
        }
    }
}

/// The render targets that the first `k` effects declare, the first of each name.
pub open spec fn declared_fbos(effects: Seq<EffectModel>, k: int) -> Seq<FboModel>
    decreases k,
{
    if k <= 0 {
        Seq::empty()
    } else {
        let before = declared_fbos(effects, k - 1);
        if effects[k - 1].visible.value && effects[k - 1].resolved is Some {
            let fbos = effects[k - 1].resolved->0.fbos;
            with_fbos(before, fbos, fbos.len() as int)
        } else {
            before
        }
    }
}

fn holds_fbo(fbos: &Vec<Fbo>, name: &str) -> (r: bool)
    ensures
        r == declares(views(fbos@), name@),
{
    let mut i: usize = 0;
    while i < fbos.len()
        invariant
            i <= fbos@.len(),
            forall|j: int| 0 <= j < i ==> fbos@[j]@.name != name@,
        decreases fbos@.len() - i,
    {
        if same_text(fbos[i].name.as_str(), name) {
            assert(views(fbos@)[i as int].name == name@);
            return true;
        }
        i += 1;
    }
    false
}

fn effect_fbos(image: &ImageObject) -> (r: Vec<Fbo>)
    ensures
        views(r@) == declared_fbos(image@.effects, image@.effects.len() as int),
{
    broadcast use lemma_views_push;

    let mut out: Vec<Fbo> = Vec::new();
    let mut k: usize = 0;
    let ghost effects = image@.effects;
    assert(views(out@) =~= Seq::empty());
    while k < image.effects.len()
        invariant
            k <= image.effects@.len(),
            effects == views(image.effects@),
            views(out@) == declared_fbos(effects, k as int),
        decreases image.effects@.len() - k,
    {
        let effect = &image.effects[k];
        assert(effects[k as int] == effect@);
        if effect.visible.value {
            if let Some(file) = &effect.resolved {
                let ghost start = views(out@);
                let ghost fbos = views(file.fbos@);
                let mut i: usize = 0;
                while i < file.fbos.len()
                    invariant
                        i <= file.fbos@.len(),
                        fbos == views(file.fbos@),
                        views(out@) == with_fbos(start, fbos, i as int),
                    decreases file.fbos@.len() - i,
                {
                    broadcast use lemma_views_push;

                    if !holds_fbo(&out, file.fbos[i].name.as_str()) {
                        out.push(file.fbos[i].duplicate());
                    }
                    i += 1;
                }
            }
        }
        k += 1;
    }
    out
}

/// The pass that blends a layer with a colour blend mode into the scene.
pub open spec fn blend_source(first: PassModel, mode: i64) -> Source {
    Source {
        pass: PassModel { combos: first.combos.insert("BLENDMODE"@, mode), ..first },
        target: None,
        binds: Seq::empty(),
        effect_index: None,
    }
}

/// The passes of a layer, before any is wired: its material's, its effects',
/// and the blend pass where the layer has a colour blend mode and the material
/// for it could be loaded.
pub open spec fn layer_sources(
    image: ImageModel,
    color_blend: Option<Seq<PassModel>>,
) -> Seq<Source> {
    let own = base_sources(image.material) + effect_sources(
        image.effects,
        image.effects.len() as int,
    );
    match color_blend {
        Some(passes) => if image.color_blend_mode.value > 0 && passes.len() > 0 {
            own.push(blend_source(passes[0], image.color_blend_mode.value))
        } else {
            own
        },
        None => own,
    }
}

/// The blending of the `i`-th of `n` passes. The first pass of several only
/// copies the layer, so the blending that its material asks for moves to the
/// last one; a layer that only others read keeps none.
pub open spec fn wired_blending(
    sources: Seq<Source>,
    offscreen_donor: bool,
    i: int,
) -> Blending {
    let n = sources.len();
    if n > 1 {
        if i == n - 1 && !offscreen_donor {
            sources[0].pass.blending
        } else if i == 0 {
            Blending::Normal
        } else {
            sources[i].pass.blending
        }
    } else if offscreen_donor {
        Blending::Normal
    } else {
        sources[i].pass.blending
    }
}

/// The `i`-th pass of the chain: the first reads the layer, each other one
/// what the pass before it wrote; all but the last write to the two targets in
/// turn, and the last writes to the scene.
pub open spec fn wired(sources: Seq<Source>, offscreen_donor: bool, i: int) -> PlanPassModel {
    let n = sources.len();
    let blending = wired_blending(sources, offscreen_donor, i);
    let pass = PassModel { blending, ..sources[i].pass };
    PlanPassModel {
        shader: pass.shader,
        blending,
        cull: pass.cullmode,
        depthtest: pass.depthtest,
        depthwrite: pass.depthwrite,
        pass,
        input: if i == 0 {
            PassInput::Layer
        } else {
            PassInput::Fbo(((i - 1) % 2) as usize)
        },
        output: if i == n - 1 {
            Output::Scene
        } else {
            Output::Fbo((i % 2) as usize)
        },
        geometry: if i == n - 1 {
            Geometry::Scene
        } else if i == 0 {
            Geometry::Copy
        } else {
            Geometry::Pass
        },
        effect_index: sources[i].effect_index,
        target: sources[i].target,
        binds: sources[i].binds,
    }
}

/// Whether anything of the layer is drawn at all.
pub open spec fn draws(image: ImageModel, visible: bool) -> bool {
    let effects = effect_sources(image.effects, image.effects.len() as int);
    let passthrough = match image.model {
        Some(m) => m.passthrough,
        None => false,
    };
    visible && !(passthrough && effects.len() == 0) && (base_sources(image.material).len() > 0
        || effects.len() > 0)
}

/// The plan of an image layer.
pub open spec fn plan_of(
    image: ImageModel,
    visible: bool,
    offscreen_donor: bool,
    color_blend: Option<Seq<PassModel>>,
) -> PlanModel {
    if !draws(image, visible) {
        PlanModel { passes: Seq::empty(), named_fbos: Seq::empty() }
    } else {
        let sources = layer_sources(image, color_blend);
        PlanModel {
            passes: Seq::new(sources.len(), |i: int| wired(sources, offscreen_donor, i)),
            named_fbos: declared_fbos(image.effects, image.effects.len() as int),
        }
    }
}

fn empty_plan() -> (r: ImagePlan)
    ensures
        r@ == (PlanModel { passes: Seq::empty(), named_fbos: Seq::empty() }),
{
    let r = ImagePlan { passes: Vec::new(), named_fbos: Vec::new() };
    assert(r@.passes =~= Seq::empty());
    assert(r@.named_fbos =~= Seq::empty());
    r
}

fn blend_pass(first: &Pass, mode: i64) -> (r: SrcPass)
    ensures
        r@ == blend_source(first@, mode),
{
    let mut pass = first.duplicate();
    pass.combos.insert("BLENDMODE".to_owned(), mode);
    let r = SrcPass { pass, target: None, binds: Vec::new(), effect_index: None };
    assert(r@.binds =~= Seq::empty());
    r
}

fn wire(passes: Vec<SrcPass>, offscreen_donor: bool) -> (r: Vec<PlanPass>)
    requires
        passes@.len() > 0,
    ensures
        views(r@) == Seq::new(passes@.len(), |i: int| wired(views(passes@), offscreen_donor, i)),
{
    let ghost sources = views(passes@);
    let n: usize = passes.len();
    let first_blend = passes[0].pass.blending;
    let mut out: Vec<PlanPass> = Vec::new();
    let mut i: usize = 0;
    while i < n
        invariant
            i <= n,
            n == passes@.len(),
            n > 0,
            sources == views(passes@),
            first_blend == sources[0].pass.blending,
            out@.len() == i,
            forall|j: int|
                0 <= j < i ==> (#[trigger] out@[j])@ == wired(sources, offscreen_donor, j),
        decreases n - i,
    {
        let src = &passes[i];
        let is_last = i == n - 1;
        let blending = if n > 1 {
            if is_last && !offscreen_donor {
                first_blend
            } else if i == 0 {
                Blending::Normal
            } else {
                src.pass.blending
            }
        } else if offscreen_donor {
            Blending::Normal
        } else {
            src.pass.blending
        };
        let mut pass = src.pass.duplicate();
        pass.blending = blending;
        let output = if is_last {
            PassOutput::Scene
        } else {
            PassOutput::Fbo(i % 2)
        };
        let geometry = if is_last {
            Geometry::Scene
        } else if i == 0 {
            Geometry::Copy
        } else {
            Geometry::Pass
        };
        let input = if i == 0 {
            PassInput::Layer
        } else {
            PassInput::Fbo((i - 1) % 2)
        };
        let planned = PlanPass {
            shader: pass.shader.clone(),
            blending,
            cull: pass.cullmode,
            depthtest: pass.depthtest,
            depthwrite: pass.depthwrite,
            pass,
            input,
            output,
            geometry,
            effect_index: src.effect_index,
            target: copy_opt(&src.target),
            binds: copy_vec(&src.binds),
        };
        assert(sources[i as int] == src@);
        assert(planned@ == wired(sources, offscreen_donor, i as int));
        out.push(planned);
        i += 1;
    }
    assert(views(out@) =~= Seq::new(
        passes@.len(),
        |i: int| wired(views(passes@), offscreen_donor, i),
    ));
    out
}

/// Plans the passes of an image layer.
pub fn plan_image(
    image: &ImageObject,
    visible: bool,
    offscreen_donor: bool,
    color_blend: Option<&Material>,
) -> (r: ImagePlan)
    ensures
        r@ == plan_of(
            image@,
            visible,
            offscreen_donor,
            match color_blend {
                Some(m) => Some(m@),
                None => None,
            },
        ),
{
    if !visible {
        return empty_plan();
    }
    let passthrough = match &image.model {
        Some(m) => m.passthrough,
        None => false,
    };
    let mut effects = effect_passes(image);
    if passthrough && effects.len() == 0 {
        return empty_plan();
    }
    let mut passes = base_passes(image);
    let ghost base = views(passes@);
    let ghost own_effects = views(effects@);
    proof {
        lemma_views_add(passes@, effects@);
    }
    passes.append(&mut effects);
    if passes.len() == 0 {
        assert(views(passes@).len() == base.len() + own_effects.len());
        return empty_plan();
    }
    assert(views(passes@).len() == base.len() + own_effects.len());
    if image.color_blend_mode.value > 0 {
        if let Some(mat) = color_blend {
            if mat.passes.len() > 0 {
                let blend = blend_pass(&mat.passes[0], image.color_blend_mode.value);
                proof {
                    lemma_views_push(passes@, blend);
                }
                passes.push(blend);
            }
        }
    }
    let ghost blend_view: Option<Seq<PassModel>> = match color_blend {
        Some(m) => Some(m@),
        None => None,
    };
    assert(views(passes@) == layer_sources(image@, blend_view));
    ImagePlan { passes: wire(passes, offscreen_donor), named_fbos: effect_fbos(image) }
}

/// The passes of a plan form a chain from the layer to the scene: the first
/// reads the layer, each other one what the one before it wrote, the last and
/// no other writes to the scene, and none reads the target that it writes to.
pub proof fn law_plans_are_chains(
    image: ImageModel,
    visible: bool,
    offscreen_donor: bool,
    color_blend: Option<Seq<PassModel>>,
    i: int,
)
    requires
        0 <= i < plan_of(image, visible, offscreen_donor, color_blend).passes.len(),
    ensures
        ({
            let passes = plan_of(image, visible, offscreen_donor, color_blend).passes;
            &&& (i == 0 <==> passes[i].input == PassInput::Layer)
            &&& (i == passes.len() - 1 <==> passes[i].output == Output::Scene)
            &&& i > 0 ==> (passes[i - 1].output matches Output::Fbo(t) && passes[i].input
                == PassInput::Fbo(t))
            &&& !(passes[i].output matches Output::Fbo(t) && passes[i].input == PassInput::Fbo(t))
        }),
{
}

proof fn lemma_with_fbos(out: Seq<FboModel>, fbos: Seq<FboModel>, k: int)
    requires
        distinct_names(out),
    ensures
        distinct_names(with_fbos(out, fbos, k)),
    decreases k,
{
    if k > 0 {
        lemma_with_fbos(out, fbos, k - 1);
    }
}

/// Whether no two render targets have one name.
pub open spec fn distinct_names(fbos: Seq<FboModel>) -> bool {
    forall|i: int, j: int|
        0 <= i < j < fbos.len() ==> (#[trigger] fbos[i]).name != (#[trigger] fbos[j]).name
}

/// The render targets that the effects of a layer declare have each a name of
/// their own.
pub proof fn law_target_names_are_distinct(effects: Seq<EffectModel>, k: int)
    ensures
        distinct_names(declared_fbos(effects, k)),
    decreases k,
{
    if k > 0 {
        law_target_names_are_distinct(effects, k - 1);
        if effects[k - 1].resolved is Some {
            let fbos = effects[k - 1].resolved->0.fbos;
            lemma_with_fbos(declared_fbos(effects, k - 1), fbos, fbos.len() as int);
        }
    }
}

/// A command among the passes of an effect takes no override: the pass behind
/// it has the override that it would have without the command.
pub proof fn law_commands_take_no_override(
    passes: Seq<EffectPassModel>,
    overrides: Seq<OverrideModel>,
    k: int,
)
    requires
        0 <= k < passes.len(),
        passes[k].material is None,
    ensures
        override_of(passes, overrides, k + 1) == override_of(passes, overrides, k),
{
}

/// A layer that is not visible, or passes through without an effect, has no
/// pass and no target.
pub proof fn law_hidden_layers_have_no_passes(
    image: ImageModel,
    visible: bool,
    offscreen_donor: bool,
    color_blend: Option<Seq<PassModel>>,
)
    requires
        !visible || (image.model matches Some(m) && m.passthrough && effect_sources(
            image.effects,
            image.effects.len() as int,
        ).len() == 0),
    ensures
        plan_of(image, visible, offscreen_donor, color_blend).passes.len() == 0,
        plan_of(image, visible, offscreen_donor, color_blend).named_fbos.len() == 0,
{
}

} // verus!
