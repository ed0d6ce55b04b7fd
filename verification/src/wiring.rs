//! How the passes of a layer that could be built are wired to each other.
use vstd::prelude::*;

use crate::copy::{copy_opt, copy_vec, Duplicate};
use crate::material::{Blending, Pass, PassModel};
use crate::params::{used_constants, with_used_constants, Parameter};
use crate::plan::{Geometry, Output, PassOutput, PlanPass, SlotBind};
use crate::slots::{
    composes, effective_blending, holds_name, is_compose_layer, is_file_name, is_scene_rt,
    names_file, names_scene, puppet_blending, reads_scene_by_default, samples_scene_by_default,
    NamesModel, SamplerSlot, SlotModel, TargetNames,
};
use crate::strings::{opt_view, texts, views};

verus! {

/// A planned pass whose shader could be built.
#[derive(Debug)]
pub struct Survivor {
    pub pass: Pass,
    pub target: Option<String>,
    pub binds: Vec<SlotBind>,
    pub is_puppet_base: bool,
    pub effect_index: Option<usize>,
    pub vs_samplers: Vec<SamplerSlot>,
    pub fs_samplers: Vec<SamplerSlot>,
}

/// What a [`Survivor`] holds.
pub struct SurvivorModel {
    pub pass: PassModel,
    pub target: Option<Seq<char>>,
    pub binds: Seq<(u32, Seq<char>)>,
    pub is_puppet_base: bool,
    pub effect_index: Option<usize>,
    pub vs_samplers: Seq<SlotModel>,
    pub fs_samplers: Seq<SlotModel>,
}

impl View for Survivor {
    type V = SurvivorModel;

    open spec fn view(&self) -> SurvivorModel {
        SurvivorModel {
            pass: self.pass@,
            target: opt_view(self.target),
            binds: views(self.binds@),
            is_puppet_base: self.is_puppet_base,
            effect_index: self.effect_index,
            vs_samplers: views(self.vs_samplers@),
            fs_samplers: views(self.fs_samplers@),
        }
    }
}

/// A planned pass whose shader could be built, with what the shader asks for.
/// The first pass of a layer with a puppet draws the puppet.
pub fn survivor(
    plan: &PlanPass,
    position: usize,
    has_puppet: bool,
    params: (&Vec<Parameter>, &Vec<Parameter>),
    samplers: (Vec<SamplerSlot>, Vec<SamplerSlot>),
) -> (r: Survivor)
    ensures
        r@ == (SurvivorModel {
            pass: PassModel {
                constants: used_constants(
                    plan@.pass.constants,
                    views(params.0@),
                    views(params.1@),
                ),
                ..plan@.pass
            },
            target: plan@.target,
            binds: plan@.binds,
            is_puppet_base: has_puppet && position == 0,
            effect_index: plan@.effect_index,
            vs_samplers: views(samplers.0@),
            fs_samplers: views(samplers.1@),
        }),
{
    Survivor {
        pass: with_used_constants(&plan.pass, params.0, params.1),
        target: copy_opt(&plan.target),
        binds: copy_vec(&plan.binds),
        is_puppet_base: has_puppet && position == 0,
        effect_index: plan.effect_index,
        vs_samplers: samplers.0,
        fs_samplers: samplers.1,
    }
}

/// What the wiring depends on besides the passes.
#[derive(Debug)]
pub struct LayerContext {
    pub names: TargetNames,
    pub fullscreen: bool,
    /// Whether the layer is only drawn for others to read.
    pub offscreen_donor: bool,
    /// Whether the layer's own texture is the scene as drawn so far.
    pub layer_reads_scene: bool,
}

/// What a [`LayerContext`] holds.
pub struct ContextModel {
    pub names: NamesModel,
    pub fullscreen: bool,
    pub offscreen_donor: bool,
    pub layer_reads_scene: bool,
}

impl View for LayerContext {
    type V = ContextModel;

    open spec fn view(&self) -> ContextModel {
        ContextModel {
            names: self.names@,
            fullscreen: self.fullscreen,
            offscreen_donor: self.offscreen_donor,
            layer_reads_scene: self.layer_reads_scene,
        }
    }
}

/// What a pass reads as its input.
#[derive(Clone, Copy, Debug, PartialEq, Eq, Structural)]
pub enum InputSource {
    /// The scene as drawn so far.
    Scene,
    /// The layer's own texture.
    Layer,
    /// One of the layer's two targets.
    Front(usize),
}

/// The size that a shader is told of a texture.
#[derive(Debug)]
pub enum Resolution {
    /// That of the layer's image.
    Image,
    /// That of the layer's own texture.
    Layer,
    /// That of a texture file.
    File(String),
}

/// What a [`Resolution`] holds.
pub enum Extent {
    Image,
    Layer,
    File(Seq<char>),
}

impl View for Resolution {
    type V = Extent;

    open spec fn view(&self) -> Extent {
        match self {
            Resolution::Image => Extent::Image,
            Resolution::Layer => Extent::Layer,
            Resolution::File(n) => Extent::File(n@),
        }
    }
}

/// A pass with all that it reads and writes.
#[derive(Debug)]
pub struct WiredPass {
    pub pass: Pass,
    pub geometry: Geometry,
    pub output: PassOutput,
    pub input: InputSource,
    /// What the layer has drawn before this pass, as its shader may name it.
    pub previous: InputSource,
    /// Whether the vertices show only the part of the layer's texture that is used.
    pub cropped: bool,
    pub blending: Blending,
    pub effect_index: Option<usize>,
    /// The sizes of the first eight texture slots.
    pub resolutions: Vec<Resolution>,
}

/// What a [`WiredPass`] holds.
pub struct WiredModel {
    pub pass: PassModel,
    pub geometry: Geometry,
    pub output: Output,
    pub input: InputSource,
    pub previous: InputSource,
    pub cropped: bool,
    pub blending: Blending,
    pub effect_index: Option<usize>,
    pub resolutions: Seq<Extent>,
}

impl View for WiredPass {
    type V = WiredModel;

    open spec fn view(&self) -> WiredModel {
        WiredModel {
            pass: self.pass@,
            geometry: self.geometry,
            output: self.output@,
            input: self.input,
            previous: self.previous,
            cropped: self.cropped,
            blending: self.blending,
            effect_index: self.effect_index,
            resolutions: views(self.resolutions@),
        }
    }
}

/// The passes of a layer, wired.
#[derive(Debug)]
pub struct WiredLayer {
    pub passes: Vec<WiredPass>,
    /// Whether any of them reads the scene as drawn so far.
    pub reads_scene: bool,
    /// Which of the two targets holds the layer's picture in the end, if one does.
    pub final_front: Option<usize>,
    /// Whether the layer needs its two targets.
    pub needs_targets: bool,
}

/// Whether a pass draws into the layer's own picture, and not into a target
/// that an effect declares.
pub open spec fn is_composite(ctx: ContextModel, target: Option<Seq<char>>) -> bool {
    match target {
        None => true,
        Some(t) => !ctx.names.fbos.contains(t),
    }
}

/// The last of the first `k` passes that draws into the layer's own picture.
pub open spec fn last_composite(
    ctx: ContextModel,
    survivors: Seq<SurvivorModel>,
    k: int,
) -> Option<int>
    decreases k,
{
    if k <= 0 {
        None
    } else if is_composite(ctx, survivors[k - 1].target) {
        Some(k - 1)
    } else {
        last_composite(ctx, survivors, k - 1)
    }
}

/// Whether the `i`-th pass is the one that puts the layer into the scene: the
/// last that draws into the layer's picture. A layer that only others read has none.
pub open spec fn is_scene_pass(
    ctx: ContextModel,
    survivors: Seq<SurvivorModel>,
    i: int,
) -> bool {
    let last = match last_composite(ctx, survivors, survivors.len() as int) {
        Some(k) => k,
        None => survivors.len() - 1,
    };
    i == last && !ctx.offscreen_donor
}

/// Which of the layer's targets holds its picture after the first `k` passes.
pub open spec fn front_after(
    ctx: ContextModel,
    survivors: Seq<SurvivorModel>,
    k: int,
) -> Option<usize>
    decreases k,
{
    if k <= 0 {
        None
    } else {
        let before = front_after(ctx, survivors, k - 1);
        if is_scene_pass(ctx, survivors, k - 1) || !is_composite(ctx, survivors[k - 1].target) {
            before
        } else {
            match before {
                Some(f) => Some((1 - f) as usize),
                None => Some(0),
            }
        }
    }
}

/// The slots of a pass after its effect has filled those that were empty.
pub open spec fn with_binds(
    textures: Seq<Option<Seq<char>>>,
    binds: Seq<(u32, Seq<char>)>,
    k: int,
) -> Seq<Option<Seq<char>>>
    decreases k,
{
    if k <= 0 {
        textures
    } else {
        let before = with_binds(textures, binds, k - 1);
        let slot = binds[k - 1].0 as int;
        let name = binds[k - 1].1;
        let n = if slot + 1 > before.len() {
            (slot + 1) as nat
        } else {
            before.len()
        };
        let wide = Seq::new(
            n,
            |i: int|
                if i < before.len() {
                    before[i]
                } else {
                    None
                },
        );
        if wide[slot] is None {
            wide.update(slot, Some(name))
        } else {
            wide
        }
    }
}

/// A survivor's pass with its slots filled.
pub open spec fn bound_pass(s: SurvivorModel) -> PassModel {
    PassModel { textures: with_binds(s.pass.textures, s.binds, s.binds.len() as int), ..s.pass }
}

/// The vertices that the `i`-th pass draws.
pub open spec fn geometry_of(ctx: ContextModel, survivors: Seq<SurvivorModel>, i: int) -> Geometry {
    let scene = is_scene_pass(ctx, survivors, i);
    if survivors[i].is_puppet_base {
        if scene {
            Geometry::Puppet
        } else {
            Geometry::PuppetCopy
        }
    } else if scene {
        if ctx.fullscreen {
            Geometry::Pass
        } else {
            Geometry::Scene
        }
    } else if i == 0 {
        if ctx.layer_reads_scene && composes(survivors[0].pass.shader) {
            Geometry::SceneCopy
        } else {
            Geometry::Copy
        }
    } else {
        Geometry::Pass
    }
}

/// What the `i`-th pass reads as its input.
pub open spec fn input_of(ctx: ContextModel, survivors: Seq<SurvivorModel>, i: int) -> InputSource {
    if i == 0 {
        if ctx.layer_reads_scene {
            InputSource::Scene
        } else {
            InputSource::Layer
        }
    } else {
        match front_after(ctx, survivors, i) {
            Some(k) => InputSource::Front(k),
            None => InputSource::Layer,
        }
    }
}

/// What the `i`-th pass writes.
pub open spec fn output_of(ctx: ContextModel, survivors: Seq<SurvivorModel>, i: int) -> Output {
    if is_scene_pass(ctx, survivors, i) {
        Output::Scene
    } else if is_composite(ctx, survivors[i].target) {
        Output::Fbo(
            match front_after(ctx, survivors, i) {
                Some(f) => (1 - f) as usize,
                None => 0,
            },
        )
    } else {
        Output::Named(survivors[i].target->0)
    }
}

/// The size of a texture in a slot other than the first.
pub open spec fn extent_of(ctx: ContextModel, slot: Option<Seq<char>>) -> Extent {
    match slot {
        Some(n) => if names_file(n) && crate::slots::exact_place(ctx.names, n) is None {
            Extent::File(n)
        } else {
            Extent::Image
        },
        None => Extent::Image,
    }
}

/// The sizes of the first eight slots of the `i`-th pass.
pub open spec fn extents_of(
    ctx: ContextModel,
    textures: Seq<Option<Seq<char>>>,
    i: int,
) -> Seq<Extent> {
    Seq::new(
        8,
        |k: int|
            if k == 0 {
                if i == 0 && !ctx.layer_reads_scene {
                    Extent::Layer
                } else {
                    Extent::Image
                }
            } else if k < textures.len() {
                extent_of(ctx, textures[k])
            } else {
                Extent::Image
            },
    )
}

/// The `i`-th pass, wired.
pub open spec fn wired_pass(
    ctx: ContextModel,
    survivors: Seq<SurvivorModel>,
    i: int,
) -> WiredModel {
    let pass = bound_pass(survivors[i]);
    WiredModel {
        pass,
        geometry: geometry_of(ctx, survivors, i),
        output: output_of(ctx, survivors, i),
        input: input_of(ctx, survivors, i),
        previous: match front_after(ctx, survivors, i) {
            Some(k) => InputSource::Front(k),
            None => input_of(ctx, survivors, i),
        },
        cropped: i == 0 && !ctx.layer_reads_scene,
        blending: puppet_blending(survivors[i].is_puppet_base, pass.blending),
        effect_index: survivors[i].effect_index,
        resolutions: extents_of(ctx, pass.textures, i),
    }
}

/// Whether a pass reads the scene as drawn so far.
pub open spec fn pass_reads_scene(s: SurvivorModel) -> bool {
    let textures = bound_pass(s).textures;
    ||| exists|k: int|
        0 <= k < textures.len() && (#[trigger] textures[k] matches Some(n) && names_scene(n))
    ||| reads_scene_by_default(textures, s.vs_samplers)
    ||| reads_scene_by_default(textures, s.fs_samplers)
}

fn fill_slots(textures: &mut Vec<Option<String>>, binds: &Vec<SlotBind>)
    ensures
        texts(final(textures)@) == with_binds(
            texts(old(textures)@),
            views(binds@),
            binds@.len() as int,
        ),
{
    let ghost start = texts(textures@);
    let ghost bs = views(binds@);
    let mut k: usize = 0;
    while k < binds.len()
        invariant
            k <= binds@.len(),
            bs == views(binds@),
            texts(textures@) == with_binds(start, bs, k as int),
        decreases binds@.len() - k,
    {
        let ghost before = texts(textures@);
        assert(bs[k as int] == binds@[k as int]@);
        let idx: usize = binds[k].slot as usize;
        while textures.len() <= idx
            invariant
                textures@.len() >= before.len(),
                textures@.len() <= idx + 1 || textures@.len() == before.len(),
                forall|j: int|
                    0 <= j < textures@.len() ==> opt_view(#[trigger] textures@[j]) == (if j
                        < before.len() {
                        before[j]
                    } else {
                        None
                    }),
            decreases idx + 1 - textures@.len(),
        {
            textures.push(None);
        }
        let ghost wide = texts(textures@);
        if textures[idx].is_none() {
            textures.set(idx, Some(binds[k].name.clone()));
            assert(texts(textures@) =~= wide.update(idx as int, Some(bs[k as int].1)));
        }
        proof {
            let n = if idx + 1 > before.len() {
                (idx + 1) as nat
            } else {
                before.len()
            };
            assert(wide =~= Seq::new(
                n,
                |i: int|
                    if i < before.len() {
                        before[i]
                    } else {
                        None
                    },
            ));
            assert(texts(textures@) == with_binds(start, bs, k + 1));
        }
        k += 1;
    }
}

fn target_is_composite(ctx: &LayerContext, target: &Option<String>) -> (r: bool)
    ensures
        r == is_composite(ctx@, opt_view(*target)),
{
    match target {
        None => true,
        Some(t) => !holds_name(&ctx.names.fbos, t.as_str()),
    }
}

fn find_last_composite(ctx: &LayerContext, survivors: &Vec<Survivor>) -> (r: Option<usize>)
    ensures
        match r {
            Some(k) => last_composite(ctx@, views(survivors@), survivors@.len() as int) == Some(
                k as int,
            ) && k < survivors@.len(),
            None => last_composite(ctx@, views(survivors@), survivors@.len() as int) is None,
        },
{
    let ghost all = views(survivors@);
    let mut k: usize = survivors.len();
    while k > 0
        invariant
            k <= survivors@.len(),
            all == views(survivors@),
            last_composite(ctx@, all, survivors@.len() as int) == last_composite(ctx@, all, k as int),
        decreases k,
    {
        assert(all[k - 1] == survivors@[k - 1]@);
        if target_is_composite(ctx, &survivors[k - 1].target) {
            return Some(k - 1);
        }
        k -= 1;
    }
    None
}

fn slot_extent(ctx: &LayerContext, slot: &Option<String>) -> (r: Resolution)
    ensures
        r@ == extent_of(ctx@, opt_view(*slot)),
{
    match slot {
        Some(n) => if is_file_name(n.as_str()) && !crate::slots::has_exact(&ctx.names, n.as_str()) {
            Resolution::File(n.clone())
        } else {
            Resolution::Image
        },
        None => Resolution::Image,
    }
}

fn slot_extents(ctx: &LayerContext, textures: &Vec<Option<String>>, first: bool) -> (r: Vec<
    Resolution,
>)
    ensures
        views(r@) == extents_of(
            ctx@,
            texts(textures@),
            if first {
                0
            } else {
                1
            },
        ),
{
    let mut out: Vec<Resolution> = Vec::new();
    let ghost i: int = if first {
        0
    } else {
        1
    };
    let ghost wanted = extents_of(ctx@, texts(textures@), i);
    let mut k: usize = 0;
    while k < 8
        invariant
            k <= 8,
            out@.len() == k,
            i == (if first {
                0int
            } else {
                1
            }),
            wanted == extents_of(ctx@, texts(textures@), i),
            forall|j: int| 0 <= j < k ==> (#[trigger] out@[j])@ == wanted[j],
        decreases 8 - k,
    {
        let r = if k == 0 {
            if first && !ctx.layer_reads_scene {
                Resolution::Layer
            } else {
                Resolution::Image
            }
        } else if k < textures.len() {
            slot_extent(ctx, &textures[k])
        } else {
            Resolution::Image
        };
        out.push(r);
        k += 1;
    }
    assert(views(out@) =~= wanted);
    out
}

fn any_names_scene(textures: &Vec<Option<String>>) -> (r: bool)
    ensures
        r == exists|k: int|
            0 <= k < textures@.len() && (#[trigger] texts(textures@)[k] matches Some(n)
                && names_scene(n)),
{
    let mut i: usize = 0;
    while i < textures.len()
        invariant
            i <= textures@.len(),
            forall|k: int|
                0 <= k < i ==> !(#[trigger] texts(textures@)[k] matches Some(n)
                    && names_scene(n)),
        decreases textures@.len() - i,
    {
        assert(texts(textures@)[i as int] == opt_view(textures@[i as int]));
        match &textures[i] {
            Some(n) => {
                if is_scene_rt(n.as_str()) {
                    return true;
                }
            },
            None => {},
        }
        i += 1;
    }
    false
}

proof fn lemma_front_is_small(ctx: ContextModel, survivors: Seq<SurvivorModel>, k: int)
    ensures
        front_after(ctx, survivors, k) matches Some(f) ==> f <= 1,
    decreases k,
{
    if k > 0 {
        lemma_front_is_small(ctx, survivors, k - 1);
    }
}

/// Wires the passes of a layer that could be built.
#[verifier::rlimit(40)]
pub fn wire_layer(ctx: &LayerContext, survivors: &Vec<Survivor>) -> (r: WiredLayer)
    requires
        survivors@.len() > 0,
    ensures
        views(r.passes@) == Seq::new(
            survivors@.len(),
            |i: int| wired_pass(ctx@, views(survivors@), i),
        ),
        r.reads_scene == (ctx.layer_reads_scene || exists|i: int|
            0 <= i < survivors@.len() && pass_reads_scene(#[trigger] views(survivors@)[i])),
        r.final_front == front_after(ctx@, views(survivors@), survivors@.len() as int),
        r.needs_targets == (survivors@.len() > 1 || ctx.offscreen_donor),
{
    let ghost all = views(survivors@);
    let n: usize = survivors.len();
    let last: usize = match find_last_composite(ctx, survivors) {
        Some(k) => k,
        None => n - 1,
    };
    let mut passes: Vec<WiredPass> = Vec::new();
    let mut front: Option<usize> = None;
    let mut reads_scene = ctx.layer_reads_scene;
    let mut i: usize = 0;
    while i < n
        invariant
            i <= n,
            n == survivors@.len(),
            all == views(survivors@),
            forall|j: int| #[trigger] is_scene_pass(ctx@, all, j) == (j == last && !ctx.offscreen_donor),
            passes@.len() == i,
            forall|j: int|
                0 <= j < i ==> (#[trigger] passes@[j])@ == wired_pass(ctx@, all, j),
            front == front_after(ctx@, all, i as int),
            reads_scene == (ctx.layer_reads_scene || exists|j: int|
                0 <= j < i && pass_reads_scene(#[trigger] all[j])),
        decreases n - i,
    {
        let sv = &survivors[i];
        assert(all[i as int] == sv@);
        let is_scene = i == last && !ctx.offscreen_donor;
        assert(is_scene == is_scene_pass(ctx@, all, i as int));
        let composite = target_is_composite(ctx, &sv.target);
        let mut pass = sv.pass.duplicate();
        fill_slots(&mut pass.textures, &sv.binds);
        assert(pass@ == bound_pass(all[i as int]));
        let geometry = if sv.is_puppet_base {
            if is_scene {
                Geometry::Puppet
            } else {
                Geometry::PuppetCopy
            }
        } else if is_scene {
            if ctx.fullscreen {
                Geometry::Pass
            } else {
                Geometry::Scene
            }
        } else if i == 0 {
            if ctx.layer_reads_scene && is_compose_layer(sv.pass.shader.as_str()) {
                Geometry::SceneCopy
            } else {
                Geometry::Copy
            }
        } else {
            Geometry::Pass
        };
        let input = if i == 0 {
            if ctx.layer_reads_scene {
                InputSource::Scene
            } else {
                InputSource::Layer
            }
        } else {
            match front {
                Some(k) => InputSource::Front(k),
                None => InputSource::Layer,
            }
        };
        let previous = match front {
            Some(k) => InputSource::Front(k),
            None => input,
        };
        let reads = any_names_scene(&pass.textures) || samples_scene_by_default(
            &pass,
            &sv.vs_samplers,
        ) || samples_scene_by_default(&pass, &sv.fs_samplers);
        assert(reads == pass_reads_scene(all[i as int]));
        if reads {
            reads_scene = true;
        }
        proof {
            lemma_front_is_small(ctx@, all, i as int);
        }
        let output = if is_scene {
            PassOutput::Scene
        } else if composite {
            let dst: usize = match front {
                Some(k) => 1 - k,
                None => 0,
            };
            front = Some(dst);
            PassOutput::Fbo(dst)
        } else {
            match &sv.target {
                Some(t) => PassOutput::Named(t.clone()),
                None => PassOutput::Scene,
            }
        };
        let blending = effective_blending(sv.is_puppet_base, pass.blending);
        let resolutions = slot_extents(ctx, &pass.textures, i == 0);
        proof {
            let e = extents_of(ctx@, pass@.textures, i as int);
            assert(views(resolutions@) =~= e);
        }
        let wired = WiredPass {
            pass,
            geometry,
            output,
            input,
            previous,
            cropped: i == 0 && !ctx.layer_reads_scene,
            blending,
            effect_index: sv.effect_index,
            resolutions,
        };
        assert(wired@ == wired_pass(ctx@, all, i as int));
        passes.push(wired);
        i += 1;
    }
    let ghost final_views = views(passes@);
    assert(final_views =~= Seq::new(
        survivors@.len(),
        |i: int| wired_pass(ctx@, views(survivors@), i),
    ));
    WiredLayer { passes, reads_scene, final_front: front, needs_targets: n > 1 || ctx.offscreen_donor }
}

/// No pass reads the target that it writes: what a pass draws into is never
/// what it, or its shader under the name of the picture so far, reads.
pub proof fn law_no_pass_reads_what_it_writes(
    ctx: ContextModel,
    survivors: Seq<SurvivorModel>,
    i: int,
)
    requires
        0 <= i < survivors.len(),
    ensures
        ({
            let w = wired_pass(ctx, survivors, i);
            w.output matches Output::Fbo(k) ==> k <= 1 && w.input != InputSource::Front(k)
                && w.previous != InputSource::Front(k)
        }),
{
    lemma_front_is_small(ctx, survivors, i);
}

/// Each pass that draws into the layer's picture hands it to the next: the
/// pass after it reads what it wrote.
pub proof fn law_passes_read_what_the_one_before_wrote(
    ctx: ContextModel,
    survivors: Seq<SurvivorModel>,
    i: int,
)
    requires
        0 <= i,
        i + 1 < survivors.len(),
    ensures
        output_of(ctx, survivors, i) matches Output::Fbo(k) ==> input_of(ctx, survivors, i + 1)
            == InputSource::Front(k),
{
    lemma_front_is_small(ctx, survivors, i);
}

proof fn lemma_last_composite(ctx: ContextModel, survivors: Seq<SurvivorModel>, k: int)
    requires
        0 <= k <= survivors.len(),
    ensures
        match last_composite(ctx, survivors, k) {
            Some(j) => 0 <= j < k && is_composite(ctx, survivors[j].target),
            None => forall|j: int| 0 <= j < k ==> !is_composite(ctx, (#[trigger] survivors[j]).target),
        },
    decreases k,
{
    if k > 0 {
        lemma_last_composite(ctx, survivors, k - 1);
    }
}

/// A layer that is shown is put into the scene by one of its passes, and by
/// that one alone; a layer that only others read is not put there at all.
pub proof fn law_one_pass_reaches_the_scene(ctx: ContextModel, survivors: Seq<SurvivorModel>)
    requires
        survivors.len() > 0,
    ensures
        !ctx.offscreen_donor ==> exists|i: int|
            0 <= i < survivors.len() && #[trigger] output_of(ctx, survivors, i) == Output::Scene,
        forall|i: int, j: int|
            #[trigger] output_of(ctx, survivors, i) == Output::Scene && #[trigger] output_of(
                ctx,
                survivors,
                j,
            ) == Output::Scene ==> i == j,
        ctx.offscreen_donor ==> forall|i: int| #[trigger]
            output_of(ctx, survivors, i) != Output::Scene,
{
    let n = survivors.len() as int;
    lemma_last_composite(ctx, survivors, n);
    let last = match last_composite(ctx, survivors, n) {
        Some(k) => k,
        None => n - 1,
    };
    assert(!ctx.offscreen_donor ==> output_of(ctx, survivors, last) == Output::Scene);
}

} // verus!
