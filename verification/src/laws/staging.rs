//! What becomes of a scene when scripts have run and properties have changed.
use vstd::prelude::*;

use crate::frame::{in_layer_order, layer_key, layer_keys, Tree};
use crate::items::{items_after, material_set, Aspect, ItemModel};
use crate::object::{AnimationLayerModel, EffectModel, KindModel, ObjectModel};
use crate::order::law_sorted_positions;
use crate::particle::ParticleSystemModel;
use crate::property::Bag;
use crate::resolve::{resolved_camera, resolved_general};
use crate::runtime::{
    after_creation, after_creations, after_sorting, layers_after, runtime_drawn, runtime_positions,
    runtime_present, runtime_shown, shown_positions, updated_layer, Level, RuntimeModel,
    RuntimeState, TemplateModel,
};
use crate::scene::GeneralModel;
use crate::script::Scripted;
use crate::scripting::{
    during_run, next_frame, noted_one, HostModel, LayerModel, PropTarget, UpdateModel,
};
use crate::setup::{particle_look, puppet_animation};
use crate::slots::names_file;
use crate::stage::{
    after_destructions, after_layer_ops, after_parents, after_properties, after_scene_ops,
    after_updates, camera_after, general_after, general_after_all, host_taken,
    items_with_properties, materials_set, reworded, tunes_bloom, widths_upto, StageModel,
};
use crate::user::{Reference, Setting};
use crate::value::Number;
use crate::visibility::{
    effect_bindings_upto, effects_as_planned, follows, object_names, EffectBindingModel,
};

verus! {

/// When scripts have run, the camera stands where they put it and the scene's
/// settings are what they made them, one request after the other; what they
/// did not ask to change stays.
pub proof fn law_scripts_change_the_stage(s: StageModel, h: HostModel)
    ensures
        ({
            let after = after_scene_ops(s, h);
            &&& after.camera == camera_after(s.camera, h.camera_op)
            &&& after.general == general_after_all(s.general, h.scene_ops, h.scene_ops.len() as int)
            &&& after.templates == s.templates && after.bindings == s.bindings && after.locals == s.locals
                && after.video_users == s.video_users && after.structural == s.structural
            &&& h.parent_updates.len() > 0 ==> after.parents.contains_key(h.parent_updates.last().0)
                && after.parents[h.parent_updates.last().0] == Some(h.parent_updates.last().1)
            &&& h.parent_updates.len() == 0 ==> after.parents == s.parents
            &&& h.destroyed.len() == 0 ==> after.visible == s.visible
        }),
{
    lemma_destructions(after_layer_ops(s, h), h.destroyed, h.destroyed.len() as int);
    let b = after_destructions(after_layer_ops(s, h), h.destroyed, h.destroyed.len() as int);
    let c = StageModel { camera: camera_after(b.camera, h.camera_op), ..b };
    lemma_parents_keep(c, h.parent_updates, h.parent_updates.len() as int);
}

proof fn lemma_destructions(s: StageModel, ids: Seq<i64>, k: int)
    ensures
        ({
            let a = after_destructions(s, ids, k);
            a.camera == s.camera && a.general == s.general && a.templates == s.templates && a.bindings
                == s.bindings && a.locals == s.locals && a.video_users == s.video_users && a.structural
                == s.structural && a.parents == s.parents && a.videos == s.videos && a.items.len()
                == s.items.len()
        }),
    decreases k,
{
    if k > 0 {
        lemma_destructions(s, ids, k - 1);
    }
}

proof fn lemma_parents_keep(s: StageModel, updates: Seq<(i64, i64)>, k: int)
    ensures
        ({
            let a = after_parents(s, updates, k);
            a.camera == s.camera && a.general == s.general && a.templates == s.templates && a.bindings
                == s.bindings && a.locals == s.locals && a.video_users == s.video_users && a.structural
                == s.structural && a.visible == s.visible && a.runtime == s.runtime
        }),
    decreases k,
{
    if k > 0 {
        lemma_parents_keep(s, updates, k - 1);
    }
}

/// What scripts asked for is done once: nothing of it is left to do again, and
/// what they see and drive stays.
pub proof fn law_requests_are_done_once(h: HostModel)
    ensures
        ({
            let after = host_taken(h);
            &&& after.created.len() == 0 && after.destroyed.len() == 0 && after.video_ops.len() == 0
                && after.material_ops.len() == 0 && after.scene_ops.len() == 0
                && after.particle_ops.len() == 0 && after.parent_updates.len() == 0
            &&& after.camera_op is None && !after.order_dirty
            &&& after.layers == h.layers && after.props == h.props && after.scene == h.scene
                && after.user_props == h.user_props && after.anim_ops == h.anim_ops
        }),
{
}

/// The scene's settings are changed one request after the other.
pub proof fn law_settings_change_in_turn(g: GeneralModel, ops: Seq<(Seq<char>, Scripted)>, name: Seq<char>, value: Scripted)
    ensures
        general_after_all(g, Seq::empty(), 0) == g,
        general_after_all(g, ops.push((name, value)), ops.len() as int + 1) == general_after(
            general_after_all(g, ops, ops.len() as int),
            name,
            value,
        ),
{
    lemma_general(g, ops.push((name, value)), ops, ops.len() as int);
}

proof fn lemma_general(g: GeneralModel, a: Seq<(Seq<char>, Scripted)>, b: Seq<(Seq<char>, Scripted)>, k: int)
    requires
        0 <= k <= a.len(),
        k <= b.len(),
        forall|i: int| 0 <= i < k ==> a[i] == b[i],
    ensures
        general_after_all(g, a, k) == general_after_all(g, b, k),
    decreases k,
{
    if k > 0 {
        lemma_general(g, a, b, k - 1);
    }
}

/// The bloom is tuned where a request names its strength or its threshold.
pub proof fn law_bloom_is_tuned(name: Seq<char>)
    ensures
        tunes_bloom("bloomstrength"@) && tunes_bloom("bloomthreshold"@),
        name != "bloomstrength"@ && name != "bloomthreshold"@ ==> !tunes_bloom(name),
{
}

/// An update reaches the layers that scripts made and the items of the scene
/// alike; the words of a text wait, and so does its tint outside a frame.
pub proof fn law_updates_reach_all_layers(s: StageModel, updates: Seq<UpdateModel>, in_frame: bool, i: int)
    requires
        updates.len() == 1,
        0 <= i < s.items.len(),
    ensures
        ({
            let after = after_updates(s, updates, in_frame);
            let u = updates[0];
            let state = crate::items::updated_item(s.items[i], u, Aspect::State);
            let placed = crate::items::updated_item(state, u, Aspect::Place);
            &&& after.items.len() == s.items.len()
            &&& !in_frame ==> after.items[i] == placed
            &&& in_frame ==> after.items[i] == crate::items::updated_item(placed, u, Aspect::Tint)
            &&& after.runtime.layers.len() == s.runtime.layers.len()
            &&& forall|l: int|
                0 <= l < s.runtime.layers.len() ==> #[trigger] after.runtime.layers[l] == updated_layer(
                    s.runtime.layers[l],
                    u,
                )
            &&& after.runtime.next == s.runtime.next
            &&& after.visible == s.visible && after.parents == s.parents && after.general == s.general
        }),
{
    reveal_with_fuel(items_after, 2);
    reveal_with_fuel(layers_after, 2);
}

/// When properties change, the camera, the general section and the constants
/// of every pass take them.
pub proof fn law_properties_reach_the_stage(s: StageModel, bag: Bag, i: int, p: int)
    requires
        0 <= i < s.items.len(),
    ensures
        after_properties(s, bag).camera == resolved_camera(s.camera, bag),
        after_properties(s, bag).general == resolved_general(s.general, bag),
        after_properties(s, bag).parents == s.parents,
        after_properties(s, bag).runtime == s.runtime,
        items_with_properties(s.items, bag).len() == s.items.len(),
        s.items[i] matches ItemModel::Image(o) ==> (items_with_properties(s.items, bag)[i] matches
            ItemModel::Image(n) && n.passes.len() == o.passes.len() && n.id == o.id && n.visible == o.visible
            && n.alpha == o.alpha && (0 <= p < o.passes.len() ==> n.passes[p].material.constants
            == crate::resolve::resolved_constants(o.passes[p].material.constants, bag)
            && n.passes[p].material.textures == o.passes[p].material.textures && n.passes[p].vs_params
            == crate::params::param_values(
            n.passes[p].material.constants,
            o.passes[p].params_vs,
            o.passes[p].params_vs.len() as int,
        ))),
        !(s.items[i] is Image) ==> items_with_properties(s.items, bag)[i] == s.items[i],
{
}

proof fn lemma_positions_hold_all(layers: Seq<RuntimeModel>, k: int, i: int)
    requires
        0 <= i < k <= layers.len(),
    ensures
        runtime_positions(layers, k).contains(i),
        runtime_positions(layers, k).len() == k,
    decreases k,
{
    let before = runtime_positions(layers, k - 1);
    let at = crate::runtime::runtime_place(before, layers, layers[k - 1], 0);
    lemma_place(before, layers, layers[k - 1], 0);
    let now = runtime_positions(layers, k);
    assert(now == before.insert(at, k - 1));
    if k > 1 {
        lemma_positions_hold_all(layers, k - 1, if i < k - 1 { i } else { 0 });
    }
    if i < k - 1 {
        let j = before.index_of(i);
        if j < at {
            assert(now[j] == i);
        } else {
            assert(now[j + 1] == i);
        }
    } else {
        assert(now[at] == i);
    }
}

proof fn lemma_place(sorted: Seq<int>, layers: Seq<RuntimeModel>, l: RuntimeModel, from: int)
    requires
        0 <= from <= sorted.len(),
    ensures
        from <= crate::runtime::runtime_place(sorted, layers, l, from) <= sorted.len(),
    decreases sorted.len() - from,
{
    if from < sorted.len() {
        lemma_place(sorted, layers, l, from + 1);
    }
}

proof fn lemma_shown(layers: Seq<RuntimeModel>, positions: Seq<int>, tree: Tree, k: int, i: int)
    requires
        0 <= i < k <= positions.len(),
    ensures
        runtime_shown(layers[positions[i]], tree) ==> shown_positions(layers, positions, tree, k).contains(positions[i]),
        forall|j: int|
            0 <= j < shown_positions(layers, positions, tree, k).len() ==> runtime_shown(
                layers[#[trigger] shown_positions(layers, positions, tree, k)[j]],
                tree,
            ),
    decreases k,
{
    let now = shown_positions(layers, positions, tree, k);
    let before = shown_positions(layers, positions, tree, k - 1);
    if k > 1 {
        lemma_shown(layers, positions, tree, k - 1, if i < k - 1 { i } else { 0 });
    }
    if runtime_shown(layers[positions[i]], tree) {
        if i < k - 1 {
            let j = before.index_of(positions[i]);
            assert(now[j] == before[j]);
        } else {
            assert(now[now.len() - 1] == positions[i]);
        }
    }
    assert forall|j: int| 0 <= j < now.len() implies runtime_shown(layers[#[trigger] now[j]], tree) by {
        if j < before.len() {
            assert(now[j] == before[j]);
        }
    }
}

/// Every layer that scripts made and that can be seen is drawn, and no other.
pub proof fn law_made_layers_are_drawn(layers: Seq<RuntimeModel>, tree: Tree, i: int, b: u32)
    requires
        0 <= i < layers.len(),
    ensures
        layers[i].visible && layers[i].alpha == Level::Single(b) && 0 < b <= 0x7f80_0000 && runtime_shown(layers[i], tree)
            ==> runtime_drawn(layers, tree).contains(i),
        forall|j: int|
            0 <= j < runtime_drawn(layers, tree).len() ==> runtime_shown(
                layers[#[trigger] runtime_drawn(layers, tree)[j]],
                tree,
            ),
{
    let n = layers.len() as int;
    let positions = runtime_positions(layers, n);
    lemma_positions_hold_all(layers, n, i);
    let at = positions.index_of(i);
    lemma_shown(layers, positions, tree, n, at);
    if layers[i].visible && layers[i].alpha == Level::Single(b) && 0 < b <= 0x7f80_0000 {
        assert(runtime_present(layers[i]));
    }
}

/// A layer that scripts made takes the place that a list of layers has for it;
/// one that is not listed keeps its place, and what is made next comes behind
/// the list.
pub proof fn law_listed_layers_take_their_place(s: RuntimeState, order: Seq<i64>, l: int, i: int)
    requires
        0 <= l < s.layers.len(),
        order.len() <= i64::MAX,
    ensures
        after_sorting(s, order).layers.len() == s.layers.len(),
        after_sorting(s, order).next == order.len(),
        0 <= i < order.len() && order[i] == s.layers[l].id && (forall|j: int|
            i < j < order.len() ==> order[j] != s.layers[l].id) ==> after_sorting(s, order).layers[l] == (
        RuntimeModel { order: i as i64, ..s.layers[l] }),
        !order.contains(s.layers[l].id) ==> after_sorting(s, order).layers[l] == s.layers[l],
{
    let id = s.layers[l].id;
    if 0 <= i < order.len() && order[i] == id && (forall|j: int| i < j < order.len() ==> order[j] != id) {
        super::drawing::law_listed_layers_have_their_last_place(order, id, order.len() as int);
        let k = layer_key(order, id, order.len() as int) as int;
        assert(i <= k && order[k] == id);
        assert(k == i);
    }
}

/// The items of a scene are put into the order of a list of layers: an item
/// that is listed before another is drawn before it.
pub proof fn law_items_follow_the_list(items: Seq<ItemModel>, order: Seq<i64>, i: int, j: int)
    requires
        0 <= i < j < items.len(),
    ensures
        in_layer_order(items, order).len() == items.len(),
        layer_key(order, in_layer_order(items, order)[i].id(), order.len() as int) <= layer_key(
            order,
            in_layer_order(items, order)[j].id(),
            order.len() as int,
        ),
        items.contains(in_layer_order(items, order)[i]),
{
    let keys = layer_keys(items, order);
    let n = items.len() as int;
    law_sorted_positions(keys, n);
    let p = crate::order::sorted_positions(keys, n);
    assert(crate::order::before(keys, p[i], p[j]));
    assert(in_layer_order(items, order)[i] == items[p[i]]);
}

/// Layers are made one after the other.
pub proof fn law_layers_are_made_in_turn(s: RuntimeState, created: Seq<(i64, Seq<char>)>, templates: Seq<TemplateModel>, id: i64, path: Seq<char>)
    ensures
        after_creations(s, Seq::empty(), templates, 0) == s,
        after_creations(s, created.push((id, path)), templates, created.len() as int + 1)
            == after_creation(after_creations(s, created, templates, created.len() as int), id, path, templates),
{
    lemma_creations(s, created.push((id, path)), created, templates, created.len() as int);
}

proof fn lemma_creations(s: RuntimeState, a: Seq<(i64, Seq<char>)>, b: Seq<(i64, Seq<char>)>, templates: Seq<TemplateModel>, k: int)
    requires
        0 <= k <= a.len(),
        k <= b.len(),
        forall|i: int| 0 <= i < k ==> a[i] == b[i],
    ensures
        after_creations(s, a, templates, k) == after_creations(s, b, templates, k),
    decreases k,
{
    if k > 0 {
        lemma_creations(s, a, b, templates, k - 1);
    }
}

/// Constants that scripts set are set one after the other.
pub proof fn law_constants_are_set_in_turn(
    items: Seq<ItemModel>,
    ops: Seq<(i64, usize, Seq<char>, Scripted)>,
    op: (i64, usize, Seq<char>, Scripted),
)
    ensures
        materials_set(items, Seq::empty(), 0) == items,
        materials_set(items, ops.push(op), ops.len() as int + 1) == material_set(
            materials_set(items, ops, ops.len() as int),
            op.0,
            op.1,
            op.2,
            op.3,
        ),
{
    lemma_materials(items, ops.push(op), ops, ops.len() as int);
}

proof fn lemma_materials(items: Seq<ItemModel>, a: Seq<(i64, usize, Seq<char>, Scripted)>, b: Seq<(i64, usize, Seq<char>, Scripted)>, k: int)
    requires
        0 <= k <= a.len(),
        k <= b.len(),
        forall|i: int| 0 <= i < k ==> a[i] == b[i],
    ensures
        materials_set(items, a, k) == materials_set(items, b, k),
    decreases k,
{
    if k > 0 {
        lemma_materials(items, a, b, k - 1);
    }
}

/// A width that an animation gives reaches the texts with the id, and no other
/// item.
pub proof fn law_widths_reach_their_text(items: Seq<ItemModel>, id: i64, width: u32, k: int, i: int)
    requires
        0 <= i < k <= items.len() <= usize::MAX,
    ensures
        items[i] is Text && items[i].id() == id ==> widths_upto(items, id, width, k).contains((i as usize, width)),
        forall|j: int|
            0 <= j < widths_upto(items, id, width, k).len() ==> ((#[trigger] widths_upto(items, id, width, k)[j]).1
                == width && items[widths_upto(items, id, width, k)[j].0 as int] is Text
                && items[widths_upto(items, id, width, k)[j].0 as int].id() == id),
    decreases k,
{
    let now = widths_upto(items, id, width, k);
    let before = widths_upto(items, id, width, k - 1);
    if k > 1 {
        law_widths_reach_their_text(items, id, width, k - 1, if i < k - 1 { i } else { 0 });
    }
    if items[i] is Text && items[i].id() == id {
        if i < k - 1 {
            let j = before.index_of((i as usize, width));
            assert(now[j] == before[j]);
        } else {
            assert(now[now.len() - 1] == (i as usize, width));
        }
    }
    assert forall|j: int| 0 <= j < now.len() implies ((#[trigger] now[j]).1 == width
        && items[now[j].0 as int] is Text && items[now[j].0 as int].id() == id) by {
        if j < before.len() {
            assert(now[j] == before[j]);
        }
    }
}

/// The texts whose words changed are set anew.
pub proof fn law_reworded_texts_are_set_anew(before: Seq<ItemModel>, now: Seq<ItemModel>, k: int, i: int)
    requires
        0 <= i < k <= before.len() <= usize::MAX,
        now.len() == before.len(),
    ensures
        before[i] matches ItemModel::Text(a) ==> now[i] matches ItemModel::Text(b) ==> a.text != b.text
            ==> reworded(before, now, k).contains(i as usize),
    decreases k,
{
    let all = reworded(before, now, k);
    let rest = reworded(before, now, k - 1);
    if i < k - 1 {
        law_reworded_texts_are_set_anew(before, now, k - 1, i);
        if rest.contains(i as usize) {
            let j = rest.index_of(i as usize);
            assert(all[j] == rest[j]);
        }
    } else if let ItemModel::Text(a) = before[i] {
        if let ItemModel::Text(b) = now[i] {
            if a.text != b.text {
                assert(all[all.len() - 1] == i as usize);
            }
        }
    }
}

/// While scripts run nothing waits to be handed over; when they have run, the
/// next frame tells them only what changes until then.
pub proof fn law_runs_take_what_changed(h: HostModel)
    ensures
        ({
            let d = during_run(h);
            let done = HostModel { has_frame: true, ..d };
            &&& d.layers == h.layers && d.scene == h.scene && d.user_props == h.user_props && d.props
                == h.props
            &&& !d.has_frame
            &&& d.overrides.len() == 0
            &&& next_frame(done).user_props is None
            &&& next_frame(done).scene is None
            &&& next_frame(done).overrides.len() == 0
        }),
{
}

/// What an animation changes in a layer scripts read in the next frame, angles
/// in degrees.
pub proof fn law_animated_layers_are_seen_by_scripts(layers: Seq<LayerModel>, u: UpdateModel, v: [u32; 3], i: int)
    requires
        0 <= i < layers.len(),
        layers[i].id == u.object_id,
        forall|j: int| 0 <= j < i ==> (#[trigger] layers[j]).id != u.object_id,
        u.value == Scripted::Vec3(v),
    ensures
        noted_one(layers, u).len() == layers.len(),
        forall|j: int| 0 <= j < layers.len() && j != i ==> #[trigger] noted_one(layers, u)[j] == layers[j],
        u.target == PropTarget::Angles && !u.in_degrees ==> noted_one(layers, u)[i].angles == Some(
            (
                Number::Degrees(Box::new(Number::Single(v[0]))),
                Number::Degrees(Box::new(Number::Single(v[1]))),
                Number::Degrees(Box::new(Number::Single(v[2]))),
            ),
        ),
        u.target == PropTarget::Origin ==> noted_one(layers, u)[i].origin == Some(
            (Number::Single(v[0]), Number::Single(v[1]), Number::Single(v[2])),
        ),
        u.target == PropTarget::Color ==> noted_one(layers, u)[i].color == Some(
            (Number::Single(v[0]), Number::Single(v[1]), Number::Single(v[2])),
        ),
{
    lemma_layer_at(layers, u.object_id, 0, i);
}

proof fn lemma_layer_at(layers: Seq<LayerModel>, id: i64, from: int, i: int)
    requires
        0 <= from <= i < layers.len(),
        layers[i].id == id,
        forall|j: int| 0 <= j < i ==> (#[trigger] layers[j]).id != id,
    ensures
        crate::scripting::layer_at(layers, id, from) == Some(i),
    decreases i - from,
{
    if from < i {
        assert(layers[from].id != id);
        lemma_layer_at(layers, id, from + 1, i);
    }
}

/// The effects whose visibility follows a property are those that are watched,
/// with what was planned for them.
pub proof fn law_effects_that_follow_are_watched(effects: Seq<EffectModel>, k: int, i: int)
    requires
        0 <= i < k <= effects.len(),
    ensures
        effects[i].visible.user is Some ==> effect_bindings_upto(effects, k).contains(
            EffectBindingModel { us: effects[i].visible, planned: effects[i].visible.value },
        ),
        forall|j: int|
            0 <= j < effect_bindings_upto(effects, k).len() ==> (#[trigger] effect_bindings_upto(
                effects,
                k,
            )[j]).us.user is Some,
    decreases k,
{
    let now = effect_bindings_upto(effects, k);
    let before = effect_bindings_upto(effects, k - 1);
    let b = EffectBindingModel { us: effects[i].visible, planned: effects[i].visible.value };
    if k > 1 {
        law_effects_that_follow_are_watched(effects, k - 1, if i < k - 1 { i } else { 0 });
    }
    if effects[i].visible.user is Some {
        if i < k - 1 {
            let j = before.index_of(b);
            assert(now[j] == before[j]);
        } else {
            assert(now[now.len() - 1] == b);
        }
    }
    assert forall|j: int| 0 <= j < now.len() implies (#[trigger] now[j]).us.user is Some by {
        if j < before.len() {
            assert(now[j] == before[j]);
        }
    }
}

/// The plan of a scene no longer holds once an effect is to be shown that was
/// planned hidden, or the other way round.
pub proof fn law_plans_hold_while_effects_stay(bindings: Seq<EffectBindingModel>, bag: Bag, i: int)
    requires
        0 <= i < bindings.len(),
    ensures
        effects_as_planned(bindings, bag, bindings.len() as int) ==> crate::resolve::resolved::<bool>(
            bindings[i].us,
            bag,
        ).value == bindings[i].planned,
        crate::resolve::resolved::<bool>(bindings[i].us, bag).value != bindings[i].planned
            ==> !effects_as_planned(bindings, bag, bindings.len() as int),
{
}

/// Whether a setting follows the property `name`, by itself or under a
/// condition.
pub open spec fn names_it<W>(s: Setting<W>, name: Seq<char>) -> bool {
    match s.user {
        Some(Reference::Name(n)) => n == name,
        Some(Reference::Conditional { name: n, condition: _ }) => n == name,
        None => false,
    }
}

/// A property that the shape of an object follows makes the scene be built
/// anew: of any object where it stands, how large it is and how it is turned;
/// of an image how it blends; of a text its words and its look; of particles
/// all that they are made with.
pub proof fn law_shapes_follow_properties(o: ObjectModel, name: Seq<char>)
    ensures
        names_it(o.base.origin, name) || names_it(o.base.scale, name) || names_it(o.base.angles, name)
            ==> object_names(o).contains(name),
        o.kind matches KindModel::Image(i) ==> (names_it(i.scale, name) || names_it(i.angles, name) || names_it(
            i.color_blend_mode,
            name,
        ) ==> object_names(o).contains(name)),
        o.kind matches KindModel::Text(t) ==> (names_it(t.text, name) || names_it(t.pointsize, name)
            || names_it(t.scale, name) || names_it(t.color, name) || names_it(t.alpha, name) || names_it(
            t.visible,
            name,
        ) ==> object_names(o).contains(name)),
        o.kind matches KindModel::Particle(p) ==> (names_it(p.scale, name) || names_it(p.angles, name)
            || names_it(p.visible, name) || names_it(p.instanceoverride.enabled, name) || names_it(
            p.instanceoverride.alpha,
            name,
        ) || names_it(p.instanceoverride.size, name) || names_it(p.instanceoverride.lifetime, name)
            || names_it(p.instanceoverride.rate, name) || names_it(p.instanceoverride.speed, name)
            || names_it(p.instanceoverride.count, name) || names_it(p.instanceoverride.color, name)
            || names_it(p.instanceoverride.colorn, name) ==> object_names(o).contains(name)),
        o.kind is Group && !names_it(o.base.origin, name) && !names_it(o.base.scale, name) && !names_it(
            o.base.angles,
            name,
        ) ==> !object_names(o).contains(name),
{
}

/// The animation that a puppet plays is that of its first visible layer.
pub proof fn law_puppets_play_their_first_visible_layer(layers: Seq<AnimationLayerModel>, i: int)
    requires
        0 <= i < layers.len(),
        layers[i].visible.value,
        forall|j: int| 0 <= j < i ==> !(#[trigger] layers[j]).visible.value,
    ensures
        0 <= layers[i].animation.value <= u32::MAX ==> puppet_animation(layers, 0) == Some(
            layers[i].animation.value as u32,
        ),
        layers[i].animation.value < 0 ==> puppet_animation(layers, 0) is None,
{
    lemma_puppet(layers, 0, i);
}

proof fn lemma_puppet(layers: Seq<AnimationLayerModel>, from: int, i: int)
    requires
        0 <= from <= i < layers.len(),
        forall|j: int| 0 <= j < i ==> !(#[trigger] layers[j]).visible.value,
    ensures
        puppet_animation(layers, from) == puppet_animation(layers, i),
    decreases i - from,
{
    if from < i {
        assert(!layers[from].visible.value);
        lemma_puppet(layers, from + 1, i);
    }
}

/// Particles have the texture and the blending of the first pass of their
/// material; without one they are drawn plain, and added.
pub proof fn law_particles_have_the_look_of_their_material(s: ParticleSystemModel, n: Seq<char>)
    ensures
        s.resolved_material is None ==> particle_look(s) == (None::<Seq<char>>, crate::material::Blending::Additive),
        s.resolved_material is Some && s.resolved_material->0.len() > 0 ==> particle_look(s).1
            == s.resolved_material->0[0].blending,
        s.resolved_material is Some && s.resolved_material->0.len() > 0 && s.resolved_material->0[0].textures.len()
            > 0 && s.resolved_material->0[0].textures[0] == Some(n) && names_file(n) ==> particle_look(s).0
            == Some(n),
{
}

} // verus!
