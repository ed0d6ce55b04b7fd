//! What the passes of a layer draw, what they read and what they write.
use vstd::prelude::*;

use crate::material::{Blending, CullMode, EffectPassModel, FboModel, PassCommand, PassModel};
use crate::object::{EffectModel, ImageModel, OverrideModel};
use crate::passes::{
    low_bits, merged, model_part, model_parts, quad_inputs, slots_upto, AttributeModel,
};
use crate::plan::{
    base_sources, declared_fbos, declares, draws, effect_sources, file_sources, layer_sources,
    materials_before, one_effect_sources, overridden, override_of, pass_sources, plan_of, reach,
    slot_binds, with_fbos, Geometry, Output,
};
use crate::slots::{
    composite_name, exact_place, model_picture, names_file, names_scene, picture_of, place_of,
    slot_name, NamesModel, Picture, Place, SlotModel,
};
use crate::wiring::{
    bound_pass, extents_of, is_composite, is_scene_pass, last_composite, output_of,
    pass_reads_scene, wired_pass, with_binds, ContextModel, Extent, InputSource, SurvivorModel,
};

verus! {

/// Whether one pass is another with an override applied: the constants, the
/// combos and the textures that the override gives are the override's, and
/// everything else is as it was.
pub open spec fn taken_over(was: PassModel, ov: OverrideModel, now: PassModel) -> bool {
    &&& forall|name: Seq<char>| #[trigger]
        ov.constants.contains_key(name) ==> now.constants.contains_key(name) && now.constants[name]
            == ov.constants[name]
    &&& forall|name: Seq<char>|
        !ov.constants.contains_key(name) ==> (#[trigger] now.constants.contains_key(name)
            <==> was.constants.contains_key(name))
    &&& forall|name: Seq<char>|
        !ov.constants.contains_key(name) && #[trigger] was.constants.contains_key(name)
            ==> now.constants[name] == was.constants[name]
    &&& forall|name: Seq<char>| #[trigger]
        ov.combos.contains_key(name) ==> now.combos.contains_key(name) && now.combos[name]
            == ov.combos[name]
    &&& forall|name: Seq<char>|
        !ov.combos.contains_key(name) ==> (#[trigger] now.combos.contains_key(name)
            <==> was.combos.contains_key(name))
    &&& forall|name: Seq<char>|
        !ov.combos.contains_key(name) && #[trigger] was.combos.contains_key(name) ==> now.combos[name]
            == was.combos[name]
    &&& now.textures.len() >= was.textures.len()
    &&& forall|i: int|
        0 <= i < ov.textures.len() && #[trigger] ov.textures[i] is Some ==> i < now.textures.len()
            && now.textures[i] == ov.textures[i]
    &&& forall|i: int|
        0 <= i < now.textures.len() && !(i < ov.textures.len() && ov.textures[i] is Some)
            ==> #[trigger] now.textures[i] == (if i < was.textures.len() {
            was.textures[i]
        } else {
            None
        })
    &&& same_but_what_is_given(was, now)
}

/// Whether two passes have the same shader and are drawn the same way.
pub open spec fn same_but_what_is_given(a: PassModel, b: PassModel) -> bool {
    &&& a.shader == b.shader
    &&& a.cullmode == b.cullmode
    &&& a.depthtest == b.depthtest
    &&& a.depthwrite == b.depthwrite
    &&& a.usertextures == b.usertextures
}

proof fn lemma_reach(slots: Seq<Option<Seq<char>>>)
    ensures
        reach(slots) <= slots.len(),
        forall|i: int| 0 <= i < slots.len() && #[trigger] slots[i] is Some ==> i < reach(slots),
    decreases slots.len(),
{
    if slots.len() > 0 && slots.last() is None {
        lemma_reach(slots.drop_last());
        assert forall|i: int| 0 <= i < slots.len() && #[trigger] slots[i] is Some implies i < reach(
            slots,
        ) by {
            assert(slots.drop_last()[i] == slots[i]);
        }
    }
}

/// What an override gives replaces what the material has, and what it does not
/// give stays.
pub proof fn law_overrides_win(pass: PassModel, ov: OverrideModel)
    ensures
        taken_over(pass, ov, overridden(pass, ov)),
        overridden(pass, ov).blending == pass.blending,
{
    lemma_reach(ov.textures);
}

/// The passes of an effect take the overrides of the image in order: while all
/// the passes before one have a material, it takes the one at its own place.
pub proof fn law_overrides_are_taken_in_order(
    passes: Seq<EffectPassModel>,
    overrides: Seq<OverrideModel>,
    k: int,
)
    requires
        0 <= k <= passes.len(),
        forall|i: int| 0 <= i < k ==> (#[trigger] passes[i]).material is Some,
    ensures
        k < overrides.len() ==> override_of(passes, overrides, k) == Some(overrides[k]),
        k >= overrides.len() ==> override_of(passes, overrides, k) is None,
{
    lemma_all_materials(passes, k);
}

proof fn lemma_all_materials(passes: Seq<EffectPassModel>, k: int)
    requires
        0 <= k <= passes.len(),
        forall|i: int| 0 <= i < k ==> (#[trigger] passes[i]).material is Some,
    ensures
        materials_before(passes, k) == k,
    decreases k,
{
    if k > 0 {
        lemma_all_materials(passes, k - 1);
        assert(passes[k - 1].material is Some);
    }
}

/// A pass with a material takes the next override.
pub proof fn law_materials_take_an_override(
    passes: Seq<EffectPassModel>,
    overrides: Seq<OverrideModel>,
    k: int,
    n: int,
)
    requires
        0 <= k < passes.len(),
        passes[k].material is Some,
        0 <= n < overrides.len(),
        forall|i: int, j: int|
            0 <= i < j < overrides.len() ==> #[trigger] overrides[i] != #[trigger] overrides[j],
        override_of(passes, overrides, k) == Some(overrides[n]),
    ensures
        n + 1 < overrides.len() ==> override_of(passes, overrides, k + 1) == Some(overrides[n + 1]),
        n + 1 == overrides.len() ==> override_of(passes, overrides, k + 1) is None,
{
    let m = materials_before(passes, k) as int;
    assert(m == n) by {
        if m < n {
            assert(overrides[m] != overrides[n]);
        } else if n < m {
            assert(overrides[n] != overrides[m]);
        }
    }
}

/// The place in the plan of pass `j` of the material that pass `k` of effect
/// `e` has: behind the image's own passes, the earlier effects' and the
/// earlier passes of its own effect.
pub open spec fn place_in_plan(image: ImageModel, e: int, k: int, j: int) -> int {
    let file = image.effects[e].resolved->0;
    base_sources(image.material).len() + effect_sources(image.effects, e).len() + file_sources(
        file.passes,
        image.effects[e].passes,
        e as usize,
        k,
    ).len() + j
}

/// Whether an image has the effect pass in question: effect `e` is visible and
/// its file is there, and its pass `k` has a material with a pass `j`.
pub open spec fn has_effect_pass(image: ImageModel, e: int, k: int, j: int) -> bool {
    &&& 0 <= e < image.effects.len() <= usize::MAX
    &&& image.effects[e].visible.value
    &&& image.effects[e].resolved is Some
    &&& 0 <= k < image.effects[e].resolved->0.passes.len()
    &&& image.effects[e].resolved->0.passes[k].material is Some
    &&& image.effects[e].resolved->0.passes[k].resolved is Some
    &&& 0 <= j < image.effects[e].resolved->0.passes[k].resolved->0.len()
}

proof fn lemma_file_sources_at(
    passes: Seq<EffectPassModel>,
    overrides: Seq<OverrideModel>,
    e: usize,
    k: int,
    n: int,
    j: int,
)
    requires
        0 <= k < n <= passes.len(),
        0 <= j < pass_sources(passes[k], override_of(passes, overrides, k), e).len(),
    ensures
        file_sources(passes, overrides, e, k).len() + j < file_sources(passes, overrides, e, n).len(),
        file_sources(passes, overrides, e, n)[file_sources(passes, overrides, e, k).len() + j]
            == pass_sources(passes[k], override_of(passes, overrides, k), e)[j],
    decreases n,
{
    if k < n - 1 {
        lemma_file_sources_at(passes, overrides, e, k, n - 1, j);
    }
}

proof fn lemma_effect_sources_at(effects: Seq<EffectModel>, e: int, n: int, j: int)
    requires
        0 <= e < n <= effects.len(),
        0 <= j < one_effect_sources(effects[e], e as usize).len(),
    ensures
        effect_sources(effects, e).len() + j < effect_sources(effects, n).len(),
        effect_sources(effects, n)[effect_sources(effects, e).len() + j] == one_effect_sources(
            effects[e],
            e as usize,
        )[j],
    decreases n,
{
    if e < n - 1 {
        lemma_effect_sources_at(effects, e, n - 1, j);
    }
}

proof fn lemma_planned_effect_pass(
    image: ImageModel,
    color_blend: Option<Seq<PassModel>>,
    e: int,
    k: int,
    j: int,
)
    requires
        has_effect_pass(image, e, k, j),
    ensures
        ({
            let file = image.effects[e].resolved->0;
            let at = place_in_plan(image, e, k, j);
            &&& 0 <= at < layer_sources(image, color_blend).len()
            &&& layer_sources(image, color_blend)[at] == pass_sources(
                file.passes[k],
                override_of(file.passes, image.effects[e].passes, k),
                e as usize,
            )[j]
            &&& effect_sources(image.effects, image.effects.len() as int).len() > 0
        }),
{
    let file = image.effects[e].resolved->0;
    let overrides = image.effects[e].passes;
    let n = image.effects.len() as int;
    lemma_file_sources_at(file.passes, overrides, e as usize, k, file.passes.len() as int, j);
    let inner = file_sources(file.passes, overrides, e as usize, k).len() + j;
    lemma_effect_sources_at(image.effects, e, n, inner);
    let own = base_sources(image.material) + effect_sources(image.effects, n);
    let at = place_in_plan(image, e, k, j);
    assert(own[at] == effect_sources(image.effects, n)[at - base_sources(image.material).len()]);
}

/// Every pass of a visible effect is planned, and it is the material's with
/// the override applied: its constants, its combos and its textures are the
/// override's where the override gives them, and the material's where not. It
/// is drawn into the target that the effect names, and knows its effect.
pub proof fn law_effects_are_planned_with_their_overrides(
    image: ImageModel,
    offscreen_donor: bool,
    color_blend: Option<Seq<PassModel>>,
    e: int,
    k: int,
    j: int,
)
    requires
        has_effect_pass(image, e, k, j),
    ensures
        ({
            let plan = plan_of(image, true, offscreen_donor, color_blend);
            let at = place_in_plan(image, e, k, j);
            let epass = image.effects[e].resolved->0.passes[k];
            let material = epass.resolved->0[j];
            &&& 0 <= at < plan.passes.len()
            &&& plan.passes[at].effect_index == Some(e as usize)
            &&& plan.passes[at].target == epass.target
            &&& plan.passes[at].shader == material.shader
            &&& match override_of(image.effects[e].resolved->0.passes, image.effects[e].passes, k) {
                Some(ov) => taken_over(material, ov, plan.passes[at].pass),
                None => plan.passes[at].pass.constants == material.constants
                    && plan.passes[at].pass.combos == material.combos && plan.passes[at].pass.textures
                    == material.textures && same_but_what_is_given(material, plan.passes[at].pass),
            }
            &&& j == 0 ==> plan.passes[at].binds == slot_binds(epass.bind)
            &&& j > 0 ==> plan.passes[at].binds.len() == 0
        }),
{
    lemma_planned_effect_pass(image, color_blend, e, k, j);
    let epass = image.effects[e].resolved->0.passes[k];
    if let Some(ov) = override_of(image.effects[e].resolved->0.passes, image.effects[e].passes, k) {
        law_overrides_win(epass.resolved->0[j], ov);
    }
}

/// The image's own passes come first in its plan, as its material has them,
/// and belong to no effect.
pub proof fn law_materials_are_planned_first(
    image: ImageModel,
    visible: bool,
    offscreen_donor: bool,
    color_blend: Option<Seq<PassModel>>,
    passes: Seq<PassModel>,
    i: int,
)
    requires
        image.material == Some(passes),
        0 <= i < passes.len(),
        visible,
        !(image.model matches Some(m) && m.passthrough),
    ensures
        ({
            let plan = plan_of(image, visible, offscreen_donor, color_blend);
            &&& plan.passes.len() >= passes.len()
            &&& plan.passes[i].pass == (PassModel { blending: plan.passes[i].blending, ..passes[i] })
            &&& plan.passes[i].shader == passes[i].shader
            &&& plan.passes[i].cull == passes[i].cullmode
            &&& plan.passes[i].depthtest == passes[i].depthtest
            &&& plan.passes[i].depthwrite == passes[i].depthwrite
            &&& plan.passes[i].effect_index is None
            &&& plan.passes[i].target is None
            &&& plan.passes[i].binds.len() == 0
        }),
{
    let own = base_sources(image.material) + effect_sources(
        image.effects,
        image.effects.len() as int,
    );
    assert(own[i] == base_sources(image.material)[i]);
    assert(layer_sources(image, color_blend)[i] == own[i]);
}

proof fn lemma_hidden_effects_add_nothing(effects: Seq<EffectModel>, k: int)
    requires
        0 <= k <= effects.len(),
        forall|i: int| 0 <= i < k ==> !(#[trigger] effects[i]).visible.value,
    ensures
        effect_sources(effects, k).len() == 0,
        declared_fbos(effects, k).len() == 0,
    decreases k,
{
    if k > 0 {
        lemma_hidden_effects_add_nothing(effects, k - 1);
        assert(!effects[k - 1].visible.value);
    }
}

/// A visible layer without visible effects is drawn by its own passes; with a
/// blend mode of its own, one pass more puts it into the scene.
pub proof fn law_plain_layers_are_drawn_by_their_material(
    image: ImageModel,
    offscreen_donor: bool,
    color_blend: Option<Seq<PassModel>>,
    passes: Seq<PassModel>,
)
    requires
        image.material == Some(passes),
        passes.len() > 0,
        !(image.model matches Some(m) && m.passthrough),
        forall|i: int| 0 <= i < image.effects.len() ==> !(#[trigger] image.effects[i]).visible.value,
    ensures
        ({
            let plan = plan_of(image, true, offscreen_donor, color_blend);
            &&& plan.named_fbos.len() == 0
            &&& image.color_blend_mode.value <= 0 || color_blend is None ==> plan.passes.len()
                == passes.len()
            &&& image.color_blend_mode.value > 0 && color_blend is Some && color_blend->0.len() > 0
                ==> plan.passes.len() == passes.len() + 1
        }),
{
    lemma_hidden_effects_add_nothing(image.effects, image.effects.len() as int);
}

/// Where a layer has a blend mode of its own, the last pass of its plan is the
/// blending material's first, told of the mode.
pub proof fn law_blend_modes_take_a_last_pass(
    image: ImageModel,
    offscreen_donor: bool,
    passes: Seq<PassModel>,
    name: Seq<char>,
)
    requires
        draws(image, true),
        passes.len() > 0,
        image.color_blend_mode.value > 0,
    ensures
        ({
            let plan = plan_of(image, true, offscreen_donor, Some(passes));
            let last = plan.passes.last();
            &&& plan.passes.len() > 1
            &&& plan.passes.len() == plan_of(image, true, offscreen_donor, None).passes.len() + 1
            &&& last.shader == passes[0].shader
            &&& last.pass.textures == passes[0].textures
            &&& last.pass.constants == passes[0].constants
            &&& last.pass.combos.contains_key("BLENDMODE"@)
            &&& last.pass.combos["BLENDMODE"@] == image.color_blend_mode.value
            &&& name != "BLENDMODE"@ && passes[0].combos.contains_key(name) ==> last.pass.combos[name]
                == passes[0].combos[name]
        }),
{
}

/// How the passes of a plan mix with what is there. A layer with several
/// passes starts on a clean picture and is put into the scene the way its own
/// first pass is meant to be; a layer that only others read is never mixed.
pub proof fn law_layers_mix_as_their_first_pass(
    image: ImageModel,
    offscreen_donor: bool,
    color_blend: Option<Seq<PassModel>>,
    passes: Seq<PassModel>,
)
    requires
        image.material == Some(passes),
        passes.len() > 0,
        !(image.model matches Some(m) && m.passthrough),
    ensures
        ({
            let plan = plan_of(image, true, offscreen_donor, color_blend);
            &&& plan.passes.len() > 0
            &&& !offscreen_donor ==> plan.passes.last().blending == passes[0].blending
            &&& offscreen_donor || plan.passes.len() > 1 ==> plan.passes[0].blending == Blending::Normal
            &&& forall|i: int|
                0 <= i < plan.passes.len() ==> (#[trigger] plan.passes[i]).blending
                    == plan.passes[i].pass.blending
            &&& forall|i: int|
                0 < i < passes.len() && i < plan.passes.len() - 1 ==> (#[trigger] plan.passes[i]).blending
                    == passes[i].blending
        }),
{
    let own = base_sources(image.material) + effect_sources(
        image.effects,
        image.effects.len() as int,
    );
    assert(own[0] == base_sources(image.material)[0]);
    assert(layer_sources(image, color_blend)[0] == own[0]);
    assert forall|i: int| 0 < i < passes.len() implies #[trigger] layer_sources(image, color_blend)[i].pass
        == passes[i] by {
        assert(own[i] == base_sources(image.material)[i]);
        assert(layer_sources(image, color_blend)[i] == own[i]);
    }
}

/// The last pass of a plan draws the layer where it stands in the scene; of
/// several, the first fills the layer's picture and the others redraw it.
pub proof fn law_plans_end_in_the_scene(
    image: ImageModel,
    visible: bool,
    offscreen_donor: bool,
    color_blend: Option<Seq<PassModel>>,
    i: int,
)
    requires
        0 <= i < plan_of(image, visible, offscreen_donor, color_blend).passes.len(),
    ensures
        ({
            let passes = plan_of(image, visible, offscreen_donor, color_blend).passes;
            &&& i == passes.len() - 1 ==> passes[i].geometry == Geometry::Scene
            &&& i == 0 && passes.len() > 1 ==> passes[i].geometry == Geometry::Copy
            &&& 0 < i < passes.len() - 1 ==> passes[i].geometry == Geometry::Pass
            &&& visible
        }),
{
}

/// A command that copies a target into another is a pass that reads the one
/// and writes the other; any other command draws nothing.
pub proof fn law_copies_read_and_write_what_they_name(
    epass: EffectPassModel,
    ov: Option<OverrideModel>,
    e: usize,
    source: Seq<char>,
    target: Seq<char>,
)
    requires
        epass.material is None,
    ensures
        epass.command == Some(PassCommand::Copy) && epass.source == Some(source) && epass.target == Some(
            target,
        ) ==> {
            let s = pass_sources(epass, ov, e);
            &&& s.len() == 1
            &&& s[0].target == Some(target)
            &&& s[0].pass.textures == seq![Some(source)]
            &&& s[0].pass.shader == "commands/copy"@
            &&& s[0].pass.blending == Blending::Normal
            &&& s[0].pass.cullmode == CullMode::NoCull
            &&& s[0].effect_index == Some(e)
            &&& s[0].binds.len() == 0
        },
        epass.command != Some(PassCommand::Copy) || epass.source is None || epass.target is None
            ==> pass_sources(epass, ov, e).len() == 0,
{
}

/// The targets that an effect binds to texture slots are bound in order, as
/// long as the slot is a number that a slot can have.
pub proof fn law_binds_keep_slot_and_name(binds: Seq<(Seq<char>, i64)>, b: (Seq<char>, i64))
    ensures
        slot_binds(Seq::empty()).len() == 0,
        0 <= b.1 <= u32::MAX ==> slot_binds(binds.push(b)) == slot_binds(binds).push((b.1 as u32, b.0)),
        b.1 < 0 || b.1 > u32::MAX ==> slot_binds(binds.push(b)) == slot_binds(binds),
{
    assert(binds.push(b).drop_last() =~= binds);
}

proof fn lemma_with_fbos_keeps(out: Seq<FboModel>, fbos: Seq<FboModel>, k: int)
    requires
        0 <= k <= fbos.len(),
    ensures
        with_fbos(out, fbos, k).len() >= out.len(),
        forall|i: int| 0 <= i < out.len() ==> #[trigger] with_fbos(out, fbos, k)[i] == out[i],
        forall|i: int| 0 <= i < k ==> declares(with_fbos(out, fbos, k), (#[trigger] fbos[i]).name),
    decreases k,
{
    if k > 0 {
        lemma_with_fbos_keeps(out, fbos, k - 1);
        let before = with_fbos(out, fbos, k - 1);
        let now = with_fbos(out, fbos, k);
        assert forall|i: int| 0 <= i < k implies declares(now, (#[trigger] fbos[i]).name) by {
            if i < k - 1 {
                assert(declares(before, fbos[i].name));
                let j = choose|j: int| 0 <= j < before.len() && #[trigger] before[j].name == fbos[i].name;
                assert(now[j].name == fbos[i].name);
            } else if !declares(before, fbos[i].name) {
                assert(now[now.len() - 1].name == fbos[i].name);
            }
        }
    }
}

/// A layer has all the targets that its visible effects declare, and what an
/// earlier effect declared is not changed by a later one.
pub proof fn law_layers_have_the_targets_of_their_effects(effects: Seq<EffectModel>, n: int, e: int, i: int)
    requires
        0 <= e < n <= effects.len(),
        effects[e].visible.value,
        effects[e].resolved is Some,
        0 <= i < effects[e].resolved->0.fbos.len(),
    ensures
        exists|j: int|
            0 <= j < declared_fbos(effects, n).len() && (#[trigger] declared_fbos(effects, n)[j]).name
                == effects[e].resolved->0.fbos[i].name,
        forall|j: int|
            0 <= j < declared_fbos(effects, n - 1).len() ==> j < declared_fbos(effects, n).len()
                && #[trigger] declared_fbos(effects, n)[j] == declared_fbos(effects, n - 1)[j],
        n == 1 && (forall|j: int|
            0 <= j < i ==> (#[trigger] effects[e].resolved->0.fbos[j]).name
                != effects[e].resolved->0.fbos[i].name) ==> declared_fbos(effects, n).contains(
            effects[e].resolved->0.fbos[i],
        ),
    decreases n,
{
    let last = effects[n - 1];
    let name = effects[e].resolved->0.fbos[i].name;
    let before = declared_fbos(effects, n - 1);
    if last.visible.value && last.resolved is Some {
        let fbos = last.resolved->0.fbos;
        lemma_with_fbos_keeps(before, fbos, fbos.len() as int);
        if n == 1 {
            lemma_first_declared(before, fbos, fbos.len() as int, i);
        }
    }
    if e < n - 1 {
        law_layers_have_the_targets_of_their_effects(effects, n - 1, e, i);
        let j = choose|j: int| 0 <= j < before.len() && (#[trigger] before[j]).name == name;
        assert(declared_fbos(effects, n)[j].name == name);
    } else {
        let now = declared_fbos(effects, n);
        assert(declares(now, name));
        let j = choose|j: int| 0 <= j < now.len() && #[trigger] now[j].name == name;
        assert(now[j].name == name);
    }
}

proof fn lemma_only_these(out: Seq<FboModel>, fbos: Seq<FboModel>, k: int, name: Seq<char>)
    requires
        0 <= k <= fbos.len(),
        !declares(out, name),
        forall|j: int| 0 <= j < k ==> (#[trigger] fbos[j]).name != name,
    ensures
        !declares(with_fbos(out, fbos, k), name),
    decreases k,
{
    if k > 0 {
        lemma_only_these(out, fbos, k - 1, name);
        assert(fbos[k - 1].name != name);
    }
}

proof fn lemma_first_declared(out: Seq<FboModel>, fbos: Seq<FboModel>, k: int, i: int)
    requires
        0 <= i < k <= fbos.len(),
        out.len() == 0,
    ensures
        (forall|j: int| 0 <= j < i ==> (#[trigger] fbos[j]).name != fbos[i].name) ==> with_fbos(
            out,
            fbos,
            k,
        ).contains(fbos[i]),
    decreases k,
{
    if forall|j: int| 0 <= j < i ==> (#[trigger] fbos[j]).name != fbos[i].name {
        let now = with_fbos(out, fbos, k);
        if i == k - 1 {
            lemma_only_these(out, fbos, k - 1, fbos[i].name);
            assert(now[now.len() - 1] == fbos[i]);
        } else {
            lemma_first_declared(out, fbos, k - 1, i);
            let before = with_fbos(out, fbos, k - 1);
            let j = before.index_of(fbos[i]);
            assert(now[j] == fbos[i]);
        }
    }
}

/// A pass keeps the textures that it names; a slot that it leaves empty takes
/// the first target that is bound to it; and binding makes room for the slot.
pub proof fn law_binds_fill_empty_slots(
    textures: Seq<Option<Seq<char>>>,
    binds: Seq<(u32, Seq<char>)>,
    k: int,
    slot: int,
)
    requires
        0 <= k <= binds.len(),
        0 <= slot,
    ensures
        with_binds(textures, binds, k).len() >= textures.len(),
        slot < textures.len() && textures[slot] is Some ==> with_binds(textures, binds, k)[slot]
            == textures[slot],
        forall|b: int|
            0 <= b < k && (#[trigger] binds[b]).0 == slot ==> slot < with_binds(textures, binds, k).len()
                && with_binds(textures, binds, k)[slot] is Some,
        !(slot < textures.len() && textures[slot] is Some) ==> forall|b: int|
            0 <= b < k && (#[trigger] binds[b]).0 == slot && (forall|a: int|
                0 <= a < b ==> (#[trigger] binds[a]).0 != slot) ==> with_binds(textures, binds, k)[slot]
                == Some(binds[b].1),
        (forall|b: int| 0 <= b < k ==> (#[trigger] binds[b]).0 != slot) && slot < with_binds(
            textures,
            binds,
            k,
        ).len() ==> with_binds(textures, binds, k)[slot] == (if slot < textures.len() {
            textures[slot]
        } else {
            None
        }),
    decreases k,
{
    if k > 0 {
        law_binds_fill_empty_slots(textures, binds, k - 1, slot);
        let before = with_binds(textures, binds, k - 1);
        let now = with_binds(textures, binds, k);
        let at = binds[k - 1].0 as int;
        assert forall|b: int|
            !(slot < textures.len() && textures[slot] is Some) && 0 <= b < k && (#[trigger] binds[b]).0
                == slot && (forall|a: int|
                0 <= a < b ==> (#[trigger] binds[a]).0 != slot) implies now[slot] == Some(binds[b].1) by {
            if b == k - 1 {
                assert(forall|a: int| 0 <= a < k - 1 ==> (#[trigger] binds[a]).0 != slot);
            } else {
                assert(before[slot] == Some(binds[b].1));
            }
        }
    }
}

/// A pass draws into the layer's picture unless it names a target that an
/// effect of the layer declares; then it draws there.
pub proof fn law_passes_write_where_they_are_told(
    ctx: ContextModel,
    survivors: Seq<SurvivorModel>,
    i: int,
    name: Seq<char>,
)
    requires
        0 <= i < survivors.len(),
    ensures
        survivors[i].target == Some(name) && ctx.names.fbos.contains(name) && !is_scene_pass(
            ctx,
            survivors,
            i,
        ) ==> output_of(ctx, survivors, i) == Output::Named(name),
        survivors[i].target is None || !ctx.names.fbos.contains(survivors[i].target->0) ==> !(output_of(
            ctx,
            survivors,
            i,
        ) is Named),
{
}

proof fn lemma_last(ctx: ContextModel, survivors: Seq<SurvivorModel>, k: int)
    requires
        0 <= k <= survivors.len(),
    ensures
        match last_composite(ctx, survivors, k) {
            Some(j) => 0 <= j < k && is_composite(ctx, survivors[j].target) && forall|i: int|
                j < i < k ==> !is_composite(ctx, (#[trigger] survivors[i]).target),
            None => forall|i: int| 0 <= i < k ==> !is_composite(ctx, (#[trigger] survivors[i]).target),
        },
    decreases k,
{
    if k > 0 {
        lemma_last(ctx, survivors, k - 1);
    }
}

/// The pass that puts a layer into the scene is the last that draws into the
/// layer's picture: what comes after it draws into declared targets only.
pub proof fn law_the_last_picture_reaches_the_scene(
    ctx: ContextModel,
    survivors: Seq<SurvivorModel>,
    i: int,
    j: int,
)
    requires
        0 <= i < survivors.len(),
        output_of(ctx, survivors, i) == Output::Scene,
        i < j < survivors.len(),
    ensures
        survivors[j].target is Some,
        ctx.names.fbos.contains(survivors[j].target->0),
        output_of(ctx, survivors, j) == Output::Named(survivors[j].target->0),
{
    lemma_last(ctx, survivors, survivors.len() as int);
}

/// The first pass of a layer reads the layer's texture, or the scene where the
/// layer stands for it; only there the unused part of the texture is cut off.
pub proof fn law_layers_begin_with_their_texture(ctx: ContextModel, survivors: Seq<SurvivorModel>, i: int)
    requires
        0 <= i < survivors.len(),
    ensures
        !ctx.layer_reads_scene ==> wired_pass(ctx, survivors, 0).input == InputSource::Layer && wired_pass(
            ctx,
            survivors,
            0,
        ).cropped,
        ctx.layer_reads_scene ==> wired_pass(ctx, survivors, 0).input == InputSource::Scene
            && !wired_pass(ctx, survivors, 0).cropped,
        i > 0 ==> !wired_pass(ctx, survivors, i).cropped && wired_pass(ctx, survivors, i).input
            != InputSource::Scene,
{
}

/// What a wired pass draws is its own pass, with its binds; a puppet is always
/// mixed with what is there, and anything else as planned.
pub proof fn law_wiring_keeps_the_pass(ctx: ContextModel, survivors: Seq<SurvivorModel>, i: int)
    requires
        0 <= i < survivors.len(),
    ensures
        ({
            let w = wired_pass(ctx, survivors, i);
            let s = survivors[i];
            &&& w.pass == (PassModel { textures: w.pass.textures, ..s.pass })
            &&& w.pass.textures == with_binds(s.pass.textures, s.binds, s.binds.len() as int)
            &&& w.effect_index == s.effect_index
            &&& s.is_puppet_base ==> w.blending == Blending::Translucent
            &&& !s.is_puppet_base ==> w.blending == s.pass.blending
            &&& w.resolutions.len() == 8
        }),
{
}

/// The shape that a pass draws: a puppet its mesh, and anything else a
/// rectangle, in the scene the one that the layer covers, or all of the screen
/// for a layer that fills it.
pub proof fn law_passes_have_their_shape(ctx: ContextModel, survivors: Seq<SurvivorModel>, i: int)
    requires
        0 <= i < survivors.len(),
    ensures
        ({
            let g = wired_pass(ctx, survivors, i).geometry;
            let to_scene = wired_pass(ctx, survivors, i).output == Output::Scene;
            &&& survivors[i].is_puppet_base && to_scene ==> g == Geometry::Puppet
            &&& survivors[i].is_puppet_base && !to_scene ==> g == Geometry::PuppetCopy
            &&& !survivors[i].is_puppet_base && to_scene && ctx.fullscreen ==> g == Geometry::Pass
            &&& !survivors[i].is_puppet_base && to_scene && !ctx.fullscreen ==> g == Geometry::Scene
            &&& !survivors[i].is_puppet_base && !to_scene && i > 0 ==> g == Geometry::Pass
            &&& !survivors[i].is_puppet_base && !to_scene && i == 0 && !ctx.layer_reads_scene ==> g
                == Geometry::Copy
        }),
{
}

/// The sizes that a shader is told: of the first slot the layer's own in its
/// first pass, of a file's the file's, and else the image's.
pub proof fn law_slots_have_their_extent(
    ctx: ContextModel,
    textures: Seq<Option<Seq<char>>>,
    i: int,
    k: int,
    n: Seq<char>,
)
    requires
        0 <= i,
        0 < k < 8,
    ensures
        extents_of(ctx, textures, i).len() == 8,
        i == 0 && !ctx.layer_reads_scene ==> extents_of(ctx, textures, i)[0] == Extent::Layer,
        i > 0 || ctx.layer_reads_scene ==> extents_of(ctx, textures, i)[0] == Extent::Image,
        k >= textures.len() || textures[k] is None ==> extents_of(ctx, textures, i)[k] == Extent::Image,
        k < textures.len() && textures[k] == Some(n) && names_file(n) && exact_place(ctx.names, n) is None
            ==> extents_of(ctx, textures, i)[k] == Extent::File(n),
        k < textures.len() && textures[k] == Some(n) && !names_file(n) ==> extents_of(
            ctx,
            textures,
            i,
        )[k] == Extent::Image,
{
}

/// A sampler shows the texture in its slot; where the slot is empty, the one
/// that the shader names itself.
pub proof fn law_samplers_show_their_slot(slot: SlotModel, textures: Seq<Option<Seq<char>>>, i: u32)
    ensures
        slot.slot == Some(i) && i < textures.len() && textures[i as int] is Some ==> slot_name(
            slot,
            textures,
        ) == textures[i as int],
        slot.slot == Some(i) && (i >= textures.len() || textures[i as int] is None) ==> slot_name(
            slot,
            textures,
        ) == slot.default_texture,
        slot.slot is None ==> slot_name(slot, textures) == slot.default_texture,
{
}

/// What a name means to a layer: a target that its effects declare, the
/// picture so far, a target of another layer, the scene, or a file.
pub proof fn law_names_mean_targets_before_files(
    slot: SlotModel,
    textures: Seq<Option<Seq<char>>>,
    names: NamesModel,
    n: Seq<char>,
)
    requires
        slot_name(slot, textures) == Some(n),
    ensures
        names.fbos.contains(n) ==> picture_of(slot, textures, names) == Picture::Target(Place::Named(n)),
        !names.fbos.contains(n) && n == "previous"@ ==> picture_of(slot, textures, names)
            == Picture::Target(Place::Front),
        !names.fbos.contains(n) && (n == composite_name(names.id, "a"@) || n == composite_name(
            names.id,
            "b"@,
        )) ==> picture_of(slot, textures, names) == Picture::Target(Place::Front),
        place_of(names, n) is None && (n == "_rt_FullFrameBuffer"@ || n == "_rt_MipMappedFrameBuffer"@)
            ==> picture_of(slot, textures, names) == Picture::Scene,
        place_of(names, n) is None && !names_scene(n) && slot.slot == Some(0u32) ==> picture_of(
            slot,
            textures,
            names,
        ) == Picture::Input,
        place_of(names, n) is None && !names_scene(n) && slot.slot != Some(0u32) && names_file(n)
            ==> picture_of(slot, textures, names) == Picture::File(n),
{
}

/// A sampler that shows nothing shows the input where it is the first, and
/// white where it is not.
pub proof fn law_empty_samplers(slot: SlotModel, textures: Seq<Option<Seq<char>>>, names: NamesModel)
    requires
        slot_name(slot, textures) is None,
    ensures
        slot.slot == Some(0u32) ==> picture_of(slot, textures, names) == Picture::Input && model_picture(
            slot,
            textures,
        ) == Picture::Input,
        slot.slot != Some(0u32) ==> picture_of(slot, textures, names) == Picture::White(None)
            && model_picture(slot, textures) == Picture::White(None),
{
}

/// A layer reads the scene where a pass of it has the scene in a slot, or a
/// sampler without a texture of its own shows it.
pub proof fn law_passes_with_the_scene_read_it(s: SurvivorModel, k: int)
    ensures
        0 <= k < bound_pass(s).textures.len() && (bound_pass(s).textures[k] == Some(
            "_rt_FullFrameBuffer"@,
        ) || bound_pass(s).textures[k] == Some("_rt_MipMappedFrameBuffer"@)) ==> pass_reads_scene(s),
        0 <= k < s.fs_samplers.len() && slot_name(s.fs_samplers[k], bound_pass(s).textures) == Some(
            "_rt_FullFrameBuffer"@,
        ) ==> pass_reads_scene(s),
        0 <= k < s.vs_samplers.len() && slot_name(s.vs_samplers[k], bound_pass(s).textures) == Some(
            "_rt_FullFrameBuffer"@,
        ) ==> pass_reads_scene(s),
{
}

/// The combos of the two stages of a shader are put together: what only one
/// has is kept, and where both have it the fragment stage's counts unless it
/// is zero.
pub proof fn law_stages_put_their_combos_together(
    vs: Map<Seq<char>, i32>,
    fs: Map<Seq<char>, i32>,
    k: Seq<char>,
)
    ensures
        merged(vs, fs).contains_key(k) <==> vs.contains_key(k) || fs.contains_key(k),
        vs.contains_key(k) && !fs.contains_key(k) ==> merged(vs, fs)[k] == vs[k],
        fs.contains_key(k) && !vs.contains_key(k) ==> merged(vs, fs)[k] == fs[k],
        fs.contains_key(k) && fs[k] != 0 ==> merged(vs, fs)[k] == fs[k],
        vs.contains_key(k) && fs.contains_key(k) && fs[k] == 0 ==> merged(vs, fs)[k] == vs[k],
{
}

/// The slots that a shader is told of are the first and every other that holds
/// a texture, in order.
pub proof fn law_slots_with_a_texture(textures: Seq<Option<Seq<char>>>, k: int)
    requires
        0 <= k <= textures.len() <= u32::MAX,
    ensures
        slots_upto(textures, k).contains(0),
        forall|i: int| 0 < i < k ==> (slots_upto(textures, k).contains(i as u32) <==> #[trigger] textures[i] is Some),
        forall|a: int, b: int|
            0 <= a < b < slots_upto(textures, k).len() ==> #[trigger] slots_upto(textures, k)[a]
                < #[trigger] slots_upto(textures, k)[b],
        forall|a: int| 0 <= a < slots_upto(textures, k).len() ==> #[trigger] slots_upto(textures, k)[a] < k || slots_upto(textures, k)[a] == 0,
    decreases k,
{
    let now = slots_upto(textures, k);
    if k <= 1 {
        assert(now[0] == 0);
    } else {
        law_slots_with_a_texture(textures, k - 1);
        let before = slots_upto(textures, k - 1);
        let z = before.index_of(0);
        assert(now[z] == 0);
        assert forall|i: int| 0 < i < k implies (now.contains(i as u32) <==> #[trigger] textures[i] is Some) by {
            if i < k - 1 {
                if before.contains(i as u32) {
                    let j = before.index_of(i as u32);
                    assert(now[j] == i as u32);
                }
                if now.contains(i as u32) {
                    let j = now.index_of(i as u32);
                    assert(before[j] == i as u32);
                }
            } else {
                if textures[i] is Some {
                    assert(now[now.len() - 1] == i as u32);
                } else if now.contains(i as u32) {
                    let j = now.index_of(i as u32);
                    assert(before[j] < k - 1 || before[j] == 0);
                }
            }
        }
    }
}

/// A combo as a shader gets it is the number itself where it fits, and its low
/// bits where it does not.
pub proof fn law_combos_keep_small_numbers(v: i64)
    ensures
        -0x8000_0000 <= v < 0x8000_0000 ==> low_bits(v) == v,
        (v - low_bits(v)) % 0x1_0000_0000 == 0,
{
}

/// A rectangle is drawn by a shader that asks for positions and texture
/// coordinates only: each is given at its own location, and anything else is
/// refused by name.
pub proof fn law_rectangles_have_places_and_coordinates(attrs: Seq<AttributeModel>, a: AttributeModel)
    ensures
        quad_inputs(attrs, attrs.len() as int) is Err ==> quad_inputs(
            attrs.push(a),
            attrs.len() as int + 1,
        ) == quad_inputs(attrs, attrs.len() as int),
        quad_inputs(attrs, attrs.len() as int) matches Ok(q) ==> {
            let r = quad_inputs(attrs.push(a), attrs.len() as int + 1);
            &&& a.name == "a_Position"@ ==> r is Ok && r->Ok_0.pos_location == a.location && r->Ok_0.uv_location
                == q.uv_location
            &&& a.name == "a_TexCoord"@ ==> r is Ok && r->Ok_0.uv_location == Some(a.location)
                && r->Ok_0.pos_location == q.pos_location
            &&& a.name != "a_Position"@ && a.name != "a_TexCoord"@ ==> r is Err && r->Err_0 == a.name
        },
{
    lemma_quad_agree(attrs.push(a), attrs, attrs.len() as int);
    assert("a_Position"@ != "a_TexCoord"@) by {
        reveal_strlit("a_Position");
        reveal_strlit("a_TexCoord");
        assert("a_Position"@[2] == 'P' && "a_TexCoord"@[2] == 'T');
    }
}

proof fn lemma_quad_agree(a: Seq<AttributeModel>, b: Seq<AttributeModel>, k: int)
    requires
        0 <= k <= a.len(),
        k <= b.len(),
        forall|i: int| 0 <= i < k ==> a[i] == b[i],
    ensures
        quad_inputs(a, k) == quad_inputs(b, k),
        model_parts(a, k) == model_parts(b, k),
    decreases k,
{
    if k > 0 {
        lemma_quad_agree(a, b, k - 1);
    }
}

/// The vertices of a model hold a position, a normal, a tangent and texture
/// coordinates, one behind the other; a shader finds each where it is, and
/// nothing else is there.
pub proof fn law_vertices_have_their_parts(a: AttributeModel)
    ensures
        a.name == "a_Position"@ ==> (model_part(a) matches Some(p) && p.offset == 0 && p.components == 3
            && p.location == a.location),
        a.name == "a_Normal"@ ==> (model_part(a) matches Some(p) && p.offset == 3 * 4 && p.components == 3
            && p.location == a.location),
        a.name == "a_Tangent4"@ ==> (model_part(a) matches Some(p) && p.offset == (3 + 3) * 4
            && p.components == 4 && p.location == a.location),
        a.name == "a_TexCoord"@ ==> (model_part(a) matches Some(p) && p.offset == (3 + 3 + 4) * 4
            && p.components == 2 && p.location == a.location),
        a.name != "a_Position"@ && a.name != "a_Normal"@ && a.name != "a_Tangent4"@ && a.name
            != "a_TexCoord"@ ==> model_part(a) is None,
{
    reveal_strlit("a_Position");
    reveal_strlit("a_Normal");
    reveal_strlit("a_Tangent4");
    reveal_strlit("a_TexCoord");
    assert("a_Position"@.len() == 10 && "a_Normal"@.len() == 8 && "a_Tangent4"@.len() == 10
        && "a_TexCoord"@.len() == 10);
    assert("a_Position"@[2] == 'P' && "a_Tangent4"@[3] == 'a' && "a_TexCoord"@[3] == 'e'
        && "a_Tangent4"@[2] == 'T' && "a_TexCoord"@[2] == 'T');
}

} // verus!
