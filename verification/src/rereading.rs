//! Resolving a scene again is as good as reading it anew.
use vstd::prelude::*;

use crate::json::Tree;
use crate::material::{EffectFileModel, EffectPassModel, PassModel};
use crate::object::{
    AnimationLayerModel, BaseModel, EffectModel, ImageModel, KindModel, ObjectModel, OverrideModel,
    ParticleModel, TextModel,
};
use crate::particle::{InstanceOverrideModel, ParticleSystemModel, StageModel};
use crate::property::{Bag, Resolvable};
use crate::resolve::{
    resolved, resolved_base, resolved_camera, resolved_constants, resolved_effect,
    resolved_effect_pass, resolved_entry, resolved_file, resolved_general, resolved_image,
    resolved_instance, resolved_kind, resolved_layer, resolved_material, resolved_object,
    resolved_override, resolved_particle, resolved_pass, resolved_props, resolved_scene,
    resolved_stage, resolved_system, resolved_text,
};
use crate::scene::{CameraModel, GeneralModel, SceneModelView};
use crate::user::{Constants, Reference, Script, Setting};
use crate::value::{Color, DynamicValue, Scalar, Vec2, Vec3};

verus! {

/// Two sets of properties, the one that came first and the one that came last.
pub struct Bags {
    pub first: Bag,
    pub last: Bag,
}

/// Whether an entry of a script's properties ends up as if it had only been
/// resolved with the last properties. One that follows a property takes its
/// value from the first set that has it, and follows it no longer.
pub open spec fn entry_decided(t: Tree, b: Bags) -> bool {
    resolved_entry(resolved_entry(t, b.first), b.last) == resolved_entry(t, b.last)
}

/// Whether the last properties decide all entries of a script.
pub open spec fn script_decided(s: Option<Script>, b: Bags) -> bool {
    s matches Some(x) ==> forall|i: int|
        0 <= i < x.properties.len() ==> entry_decided(#[trigger] x.properties[i].1, b)
}

/// Whether the last properties decide a setting: they have the property that
/// it follows, or the first gave it no other value either.
pub open spec fn decided<T: Resolvable>(s: Setting<T::V>, b: Bags) -> bool {
    &&& s.user matches Some(Reference::Name(name)) ==> b.last.contains_key(name)
        || !b.first.contains_key(name) || T::taken(b.first[name]) == s.value
    &&& script_decided(s.script, b)
}

proof fn lemma_setting<T: Resolvable>(s: Setting<T::V>, b: Bags)
    requires
        decided::<T>(s, b),
    ensures
        resolved::<T>(resolved::<T>(s, b.first), b.last) == resolved::<T>(s, b.last),
{
    if let Some(x) = s.script {
        let m = x.properties;
        let twice = resolved_props(resolved_props(m, b.first), b.last);
        assert forall|i: int| 0 <= i < m.len() implies #[trigger] twice[i] == resolved_props(
            m,
            b.last,
        )[i] by {
            assert(entry_decided(m[i].1, b));
        }
        assert(twice =~= resolved_props(m, b.last));
    }
}

/// Whether the last properties decide all constants.
pub open spec fn constants_decided(c: Constants, b: Bags) -> bool {
    forall|k: Seq<char>| #[trigger] c.contains_key(k) ==> decided::<DynamicValue>(c[k], b)
}

proof fn lemma_constants(c: Constants, b: Bags)
    requires
        constants_decided(c, b),
    ensures
        resolved_constants(resolved_constants(c, b.first), b.last) == resolved_constants(c, b.last),
{
    assert forall|k: Seq<char>| #[trigger] c.contains_key(k) implies resolved::<DynamicValue>(
        resolved::<DynamicValue>(c[k], b.first),
        b.last,
    ) == resolved::<DynamicValue>(c[k], b.last) by {
        lemma_setting::<DynamicValue>(c[k], b);
    }
    assert(resolved_constants(resolved_constants(c, b.first), b.last) =~= resolved_constants(
        c,
        b.last,
    ));
}

/// Whether the last properties decide a pass.
pub open spec fn pass_decided(x: PassModel, b: Bags) -> bool {
    constants_decided(x.constants, b)
}

proof fn lemma_pass(x: PassModel, b: Bags)
    requires
        pass_decided(x, b),
    ensures
        resolved_pass(resolved_pass(x, b.first), b.last) == resolved_pass(x, b.last),
{
    lemma_constants(x.constants, b);
}

/// Whether the last properties decide a material.
pub open spec fn material_decided(x: Seq<PassModel>, b: Bags) -> bool {
    forall|i: int| 0 <= i < x.len() ==> pass_decided(#[trigger] x[i], b)
}

proof fn lemma_material(x: Seq<PassModel>, b: Bags)
    requires
        material_decided(x, b),
    ensures
        resolved_material(resolved_material(x, b.first), b.last) == resolved_material(x, b.last),
{
    assert forall|i: int| 0 <= i < x.len() implies resolved_pass(
        resolved_pass(#[trigger] x[i], b.first),
        b.last,
    ) == resolved_pass(x[i], b.last) by {
        lemma_pass(x[i], b);
    }
    assert(resolved_material(resolved_material(x, b.first), b.last) =~= resolved_material(x, b.last));
}

/// Whether the last properties decide a camera.
pub open spec fn camera_decided(x: CameraModel, b: Bags) -> bool {
    &&& decided::<Scalar>(x.fov, b)
}

proof fn lemma_camera(x: CameraModel, b: Bags)
    requires
        camera_decided(x, b),
    ensures
        resolved_camera(resolved_camera(x, b.first), b.last) == resolved_camera(x, b.last),
{
    lemma_setting::<Scalar>(x.fov, b);
}

/// Whether the last properties decide the general section.
pub open spec fn general_decided(x: GeneralModel, b: Bags) -> bool {
    &&& decided::<Color>(x.ambientcolor, b)
    &&& decided::<Color>(x.skylightcolor, b)
    &&& decided::<Color>(x.clearcolor, b)
    &&& decided::<bool>(x.camerafade, b)
    &&& decided::<bool>(x.bloom, b)
    &&& decided::<Scalar>(x.bloomstrength, b)
    &&& decided::<Scalar>(x.bloomthreshold, b)
    &&& decided::<bool>(x.cameraparallax, b)
    &&& decided::<Scalar>(x.cameraparallaxamount, b)
    &&& decided::<Scalar>(x.cameraparallaxdelay, b)
    &&& decided::<Scalar>(x.cameraparallaxmouseinfluence, b)
    &&& decided::<bool>(x.camerashake, b)
    &&& decided::<Scalar>(x.camerashakeamplitude, b)
    &&& decided::<Scalar>(x.camerashakeroughness, b)
    &&& decided::<Scalar>(x.camerashakespeed, b)
}

proof fn lemma_general(x: GeneralModel, b: Bags)
    requires
        general_decided(x, b),
    ensures
        resolved_general(resolved_general(x, b.first), b.last) == resolved_general(x, b.last),
{
    lemma_setting::<Color>(x.ambientcolor, b);
    lemma_setting::<Color>(x.skylightcolor, b);
    lemma_setting::<Color>(x.clearcolor, b);
    lemma_setting::<bool>(x.camerafade, b);
    lemma_setting::<bool>(x.bloom, b);
    lemma_setting::<Scalar>(x.bloomstrength, b);
    lemma_setting::<Scalar>(x.bloomthreshold, b);
    lemma_setting::<bool>(x.cameraparallax, b);
    lemma_setting::<Scalar>(x.cameraparallaxamount, b);
    lemma_setting::<Scalar>(x.cameraparallaxdelay, b);
    lemma_setting::<Scalar>(x.cameraparallaxmouseinfluence, b);
    lemma_setting::<bool>(x.camerashake, b);
    lemma_setting::<Scalar>(x.camerashakeamplitude, b);
    lemma_setting::<Scalar>(x.camerashakeroughness, b);
    lemma_setting::<Scalar>(x.camerashakespeed, b);
}

/// Whether the last properties decide a text.
pub open spec fn text_decided(x: TextModel, b: Bags) -> bool {
    &&& decided::<String>(x.text, b)
    &&& decided::<Scalar>(x.pointsize, b)
    &&& decided::<Vec3>(x.scale, b)
    &&& decided::<Color>(x.color, b)
    &&& decided::<Scalar>(x.alpha, b)
    &&& decided::<bool>(x.visible, b)
}

proof fn lemma_text(x: TextModel, b: Bags)
    requires
        text_decided(x, b),
    ensures
        resolved_text(resolved_text(x, b.first), b.last) == resolved_text(x, b.last),
{
    lemma_setting::<String>(x.text, b);
    lemma_setting::<Scalar>(x.pointsize, b);
    lemma_setting::<Vec3>(x.scale, b);
    lemma_setting::<Color>(x.color, b);
    lemma_setting::<Scalar>(x.alpha, b);
    lemma_setting::<bool>(x.visible, b);
}

/// Whether the last properties decide an animation layer.
pub open spec fn layer_decided(x: AnimationLayerModel, b: Bags) -> bool {
    &&& decided::<Scalar>(x.rate, b)
    &&& decided::<bool>(x.visible, b)
    &&& decided::<Scalar>(x.blend, b)
    &&& decided::<i64>(x.animation, b)
}

proof fn lemma_layer(x: AnimationLayerModel, b: Bags)
    requires
        layer_decided(x, b),
    ensures
        resolved_layer(resolved_layer(x, b.first), b.last) == resolved_layer(x, b.last),
{
    lemma_setting::<Scalar>(x.rate, b);
    lemma_setting::<bool>(x.visible, b);
    lemma_setting::<Scalar>(x.blend, b);
    lemma_setting::<i64>(x.animation, b);
}

/// Whether the last properties decide the override of a particle system.
pub open spec fn instance_decided(x: InstanceOverrideModel, b: Bags) -> bool {
    &&& decided::<bool>(x.enabled, b)
    &&& decided::<Scalar>(x.alpha, b)
    &&& decided::<Scalar>(x.size, b)
    &&& decided::<Scalar>(x.lifetime, b)
    &&& decided::<Scalar>(x.rate, b)
    &&& decided::<Scalar>(x.speed, b)
    &&& decided::<Scalar>(x.count, b)
    &&& decided::<Vec3>(x.color, b)
    &&& decided::<Vec3>(x.colorn, b)
}

proof fn lemma_instance(x: InstanceOverrideModel, b: Bags)
    requires
        instance_decided(x, b),
    ensures
        resolved_instance(resolved_instance(x, b.first), b.last) == resolved_instance(x, b.last),
{
    lemma_setting::<bool>(x.enabled, b);
    lemma_setting::<Scalar>(x.alpha, b);
    lemma_setting::<Scalar>(x.size, b);
    lemma_setting::<Scalar>(x.lifetime, b);
    lemma_setting::<Scalar>(x.rate, b);
    lemma_setting::<Scalar>(x.speed, b);
    lemma_setting::<Scalar>(x.count, b);
    lemma_setting::<Vec3>(x.color, b);
    lemma_setting::<Vec3>(x.colorn, b);
}

/// Whether the last properties decide what all objects have.
pub open spec fn base_decided(x: BaseModel, b: Bags) -> bool {
    &&& decided::<Vec3>(x.origin, b)
    &&& decided::<Vec3>(x.scale, b)
    &&& decided::<Vec3>(x.angles, b)
    &&& decided::<bool>(x.visible, b)
}

proof fn lemma_base(x: BaseModel, b: Bags)
    requires
        base_decided(x, b),
    ensures
        resolved_base(resolved_base(x, b.first), b.last) == resolved_base(x, b.last),
{
    lemma_setting::<Vec3>(x.origin, b);
    lemma_setting::<Vec3>(x.scale, b);
    lemma_setting::<Vec3>(x.angles, b);
    lemma_setting::<bool>(x.visible, b);
}

/// Whether the last properties decide an override of a pass.
pub open spec fn override_decided(x: OverrideModel, b: Bags) -> bool {
    constants_decided(x.constants, b)
}

proof fn lemma_override(x: OverrideModel, b: Bags)
    requires
        override_decided(x, b),
    ensures
        resolved_override(resolved_override(x, b.first), b.last) == resolved_override(x, b.last),
{
    lemma_constants(x.constants, b);
}

/// Whether the last properties decide a pass of an effect.
pub open spec fn effect_pass_decided(x: EffectPassModel, b: Bags) -> bool {
    &&& x.resolved matches Some(y) ==> material_decided(y, b)
}

proof fn lemma_effect_pass(x: EffectPassModel, b: Bags)
    requires
        effect_pass_decided(x, b),
    ensures
        resolved_effect_pass(resolved_effect_pass(x, b.first), b.last) == resolved_effect_pass(x, b.last),
{
    if let Some(y) = x.resolved {
        lemma_material(y, b);
    }
}

/// Whether the last properties decide the file of an effect.
pub open spec fn file_decided(x: EffectFileModel, b: Bags) -> bool {
    &&& forall|i: int| 0 <= i < x.passes.len() ==> effect_pass_decided(#[trigger] x.passes[i], b)
}

proof fn lemma_file(x: EffectFileModel, b: Bags)
    requires
        file_decided(x, b),
    ensures
        resolved_file(resolved_file(x, b.first), b.last) == resolved_file(x, b.last),
{
    assert forall|i: int| 0 <= i < x.passes.len() implies resolved_effect_pass(
        resolved_effect_pass(#[trigger] x.passes[i], b.first),
        b.last,
    ) == resolved_effect_pass(x.passes[i], b.last) by {
        lemma_effect_pass(x.passes[i], b);
    }
    assert(resolved_file(
        resolved_file(x, b.first),
        b.last,
    ).passes =~= resolved_file(x, b.last).passes);
}

/// Whether the last properties decide an effect.
pub open spec fn effect_decided(x: EffectModel, b: Bags) -> bool {
    &&& decided::<bool>(x.visible, b)
    &&& forall|i: int| 0 <= i < x.passes.len() ==> override_decided(#[trigger] x.passes[i], b)
    &&& x.resolved matches Some(y) ==> file_decided(y, b)
}

proof fn lemma_effect(x: EffectModel, b: Bags)
    requires
        effect_decided(x, b),
    ensures
        resolved_effect(resolved_effect(x, b.first), b.last) == resolved_effect(x, b.last),
{
    lemma_setting::<bool>(x.visible, b);
    assert forall|i: int| 0 <= i < x.passes.len() implies resolved_override(
        resolved_override(#[trigger] x.passes[i], b.first),
        b.last,
    ) == resolved_override(x.passes[i], b.last) by {
        lemma_override(x.passes[i], b);
    }
    assert(resolved_effect(
        resolved_effect(x, b.first),
        b.last,
    ).passes =~= resolved_effect(x, b.last).passes);
    if let Some(y) = x.resolved {
        lemma_file(y, b);
    }
}

/// Whether the last properties decide an image.
pub open spec fn image_decided(x: ImageModel, b: Bags) -> bool {
    &&& decided::<Vec3>(x.scale, b)
    &&& decided::<Vec3>(x.angles, b)
    &&& decided::<bool>(x.visible, b)
    &&& decided::<Scalar>(x.alpha, b)
    &&& decided::<Color>(x.color, b)
    &&& decided::<Vec2>(x.parallax_depth, b)
    &&& decided::<i64>(x.color_blend_mode, b)
    &&& decided::<Scalar>(x.brightness, b)
    &&& x.material matches Some(y) ==> material_decided(y, b)
    &&& forall|i: int| 0 <= i < x.effects.len() ==> effect_decided(#[trigger] x.effects[i], b)
    &&& forall|i: int| 0 <= i < x.animationlayers.len() ==> layer_decided(#[trigger] x.animationlayers[i], b)
}

proof fn lemma_image(x: ImageModel, b: Bags)
    requires
        image_decided(x, b),
    ensures
        resolved_image(resolved_image(x, b.first), b.last) == resolved_image(x, b.last),
{
    lemma_setting::<Vec3>(x.scale, b);
    lemma_setting::<Vec3>(x.angles, b);
    lemma_setting::<bool>(x.visible, b);
    lemma_setting::<Scalar>(x.alpha, b);
    lemma_setting::<Color>(x.color, b);
    lemma_setting::<Vec2>(x.parallax_depth, b);
    lemma_setting::<i64>(x.color_blend_mode, b);
    lemma_setting::<Scalar>(x.brightness, b);
    if let Some(y) = x.material {
        lemma_material(y, b);
    }
    assert forall|i: int| 0 <= i < x.effects.len() implies resolved_effect(
        resolved_effect(#[trigger] x.effects[i], b.first),
        b.last,
    ) == resolved_effect(x.effects[i], b.last) by {
        lemma_effect(x.effects[i], b);
    }
    assert(resolved_image(
        resolved_image(x, b.first),
        b.last,
    ).effects =~= resolved_image(x, b.last).effects);
    assert forall|i: int| 0 <= i < x.animationlayers.len() implies resolved_layer(
        resolved_layer(#[trigger] x.animationlayers[i], b.first),
        b.last,
    ) == resolved_layer(x.animationlayers[i], b.last) by {
        lemma_layer(x.animationlayers[i], b);
    }
    assert(resolved_image(
        resolved_image(x, b.first),
        b.last,
    ).animationlayers =~= resolved_image(x, b.last).animationlayers);
}

/// Whether the last properties decide a stage of a particle system.
pub open spec fn stage_decided(x: StageModel, b: Bags) -> bool {
    constants_decided(x.params, b)
}

proof fn lemma_stage(x: StageModel, b: Bags)
    requires
        stage_decided(x, b),
    ensures
        resolved_stage(resolved_stage(x, b.first), b.last) == resolved_stage(x, b.last),
{
    lemma_constants(x.params, b);
}

/// Whether the last properties decide a particle system.
pub open spec fn system_decided(x: ParticleSystemModel, b: Bags) -> bool {
    &&& forall|i: int| 0 <= i < x.initializers.len() ==> stage_decided(#[trigger] x.initializers[i], b)
    &&& forall|i: int| 0 <= i < x.operators.len() ==> stage_decided(#[trigger] x.operators[i], b)
    &&& x.resolved_material matches Some(y) ==> material_decided(y, b)
}

proof fn lemma_system(x: ParticleSystemModel, b: Bags)
    requires
        system_decided(x, b),
    ensures
        resolved_system(resolved_system(x, b.first), b.last) == resolved_system(x, b.last),
{
    assert forall|i: int| 0 <= i < x.initializers.len() implies resolved_stage(
        resolved_stage(#[trigger] x.initializers[i], b.first),
        b.last,
    ) == resolved_stage(x.initializers[i], b.last) by {
        lemma_stage(x.initializers[i], b);
    }
    assert(resolved_system(
        resolved_system(x, b.first),
        b.last,
    ).initializers =~= resolved_system(x, b.last).initializers);
    assert forall|i: int| 0 <= i < x.operators.len() implies resolved_stage(
        resolved_stage(#[trigger] x.operators[i], b.first),
        b.last,
    ) == resolved_stage(x.operators[i], b.last) by {
        lemma_stage(x.operators[i], b);
    }
    assert(resolved_system(
        resolved_system(x, b.first),
        b.last,
    ).operators =~= resolved_system(x, b.last).operators);
    if let Some(y) = x.resolved_material {
        lemma_material(y, b);
    }
}

/// Whether the last properties decide a particle object.
pub open spec fn particle_decided(x: ParticleModel, b: Bags) -> bool {
    &&& decided::<Vec3>(x.scale, b)
    &&& decided::<Vec3>(x.angles, b)
    &&& decided::<bool>(x.visible, b)
    &&& decided::<Vec2>(x.parallax_depth, b)
    &&& system_decided(x.system, b)
    &&& instance_decided(x.instanceoverride, b)
}

proof fn lemma_particle(x: ParticleModel, b: Bags)
    requires
        particle_decided(x, b),
    ensures
        resolved_particle(resolved_particle(x, b.first), b.last) == resolved_particle(x, b.last),
{
    lemma_setting::<Vec3>(x.scale, b);
    lemma_setting::<Vec3>(x.angles, b);
    lemma_setting::<bool>(x.visible, b);
    lemma_setting::<Vec2>(x.parallax_depth, b);
    lemma_system(x.system, b);
    lemma_instance(x.instanceoverride, b);
}

/// Whether the last properties decide the kind of an object.
pub open spec fn kind_decided(x: KindModel, b: Bags) -> bool {
    match x {
        KindModel::Image(i) => image_decided(i, b),
        KindModel::Particle(p) => particle_decided(p, b),
        KindModel::Text(t) => text_decided(t, b),
        _ => true,
    }
}

proof fn lemma_kind(x: KindModel, b: Bags)
    requires
        kind_decided(x, b),
    ensures
        resolved_kind(resolved_kind(x, b.first), b.last) == resolved_kind(x, b.last),
{
    match x {
        KindModel::Image(i) => lemma_image(i, b),
        KindModel::Particle(p) => lemma_particle(p, b),
        KindModel::Text(t) => lemma_text(t, b),
        _ => {},
    }
}

/// Whether the last properties decide an object.
pub open spec fn object_decided(x: ObjectModel, b: Bags) -> bool {
    &&& base_decided(x.base, b)
    &&& kind_decided(x.kind, b)
}

proof fn lemma_object(x: ObjectModel, b: Bags)
    requires
        object_decided(x, b),
    ensures
        resolved_object(resolved_object(x, b.first), b.last) == resolved_object(x, b.last),
{
    lemma_base(x.base, b);
    lemma_kind(x.kind, b);
}

/// Whether the last properties decide a scene.
pub open spec fn scene_decided(x: SceneModelView, b: Bags) -> bool {
    &&& camera_decided(x.camera, b)
    &&& general_decided(x.general, b)
    &&& forall|i: int| 0 <= i < x.objects.len() ==> object_decided(#[trigger] x.objects[i], b)
}

/// Whether two sets have the same properties, whatever the values.
pub open spec fn same_names(b: Bags) -> bool {
    forall|k: Seq<char>| #[trigger] b.first.contains_key(k) <==> b.last.contains_key(k)
}

proof fn lemma_plain_setting<T: Resolvable>(s: Setting<T::V>, b: Bags)
    requires
        s.script is None,
        same_names(b),
    ensures
        decided::<T>(s, b),
{
}

/// Whether no constant has a script.
pub open spec fn constants_unscripted(c: Constants) -> bool {
    forall|k: Seq<char>| #[trigger] c.contains_key(k) ==> c[k].script is None
}

proof fn lemma_plain_constants(c: Constants, b: Bags)
    requires
        constants_unscripted(c),
        same_names(b),
    ensures
        constants_decided(c, b),
{
    assert forall|k: Seq<char>| #[trigger] c.contains_key(k) implies decided::<DynamicValue>(
        c[k],
        b,
    ) by {
        lemma_plain_setting::<DynamicValue>(c[k], b);
    }
}

/// Whether nothing in a pass has a script.
pub open spec fn pass_unscripted(x: PassModel) -> bool {
    constants_unscripted(x.constants)
}

proof fn lemma_plain_pass(x: PassModel, b: Bags)
    requires
        pass_unscripted(x),
        same_names(b),
    ensures
        pass_decided(x, b),
{
    lemma_plain_constants(x.constants, b);
}

/// Whether nothing in a material has a script.
pub open spec fn material_unscripted(x: Seq<PassModel>) -> bool {
    forall|i: int| 0 <= i < x.len() ==> pass_unscripted(#[trigger] x[i])
}

proof fn lemma_plain_material(x: Seq<PassModel>, b: Bags)
    requires
        material_unscripted(x),
        same_names(b),
    ensures
        material_decided(x, b),
{
    assert forall|i: int| 0 <= i < x.len() implies pass_decided(#[trigger] x[i], b) by {
        lemma_plain_pass(x[i], b);
    }
}

/// Whether nothing in a camera has a script.
pub open spec fn camera_unscripted(x: CameraModel) -> bool {
    &&& x.fov.script is None
}

proof fn lemma_plain_camera(x: CameraModel, b: Bags)
    requires
        camera_unscripted(x),
        same_names(b),
    ensures
        camera_decided(x, b),
{
    lemma_plain_setting::<Scalar>(x.fov, b);
}

/// Whether nothing in the general section has a script.
pub open spec fn general_unscripted(x: GeneralModel) -> bool {
    &&& x.ambientcolor.script is None
    &&& x.skylightcolor.script is None
    &&& x.clearcolor.script is None
    &&& x.camerafade.script is None
    &&& x.bloom.script is None
    &&& x.bloomstrength.script is None
    &&& x.bloomthreshold.script is None
    &&& x.cameraparallax.script is None
    &&& x.cameraparallaxamount.script is None
    &&& x.cameraparallaxdelay.script is None
    &&& x.cameraparallaxmouseinfluence.script is None
    &&& x.camerashake.script is None
    &&& x.camerashakeamplitude.script is None
    &&& x.camerashakeroughness.script is None
    &&& x.camerashakespeed.script is None
}

proof fn lemma_plain_general(x: GeneralModel, b: Bags)
    requires
        general_unscripted(x),
        same_names(b),
    ensures
        general_decided(x, b),
{
    lemma_plain_setting::<Color>(x.ambientcolor, b);
    lemma_plain_setting::<Color>(x.skylightcolor, b);
    lemma_plain_setting::<Color>(x.clearcolor, b);
    lemma_plain_setting::<bool>(x.camerafade, b);
    lemma_plain_setting::<bool>(x.bloom, b);
    lemma_plain_setting::<Scalar>(x.bloomstrength, b);
    lemma_plain_setting::<Scalar>(x.bloomthreshold, b);
    lemma_plain_setting::<bool>(x.cameraparallax, b);
    lemma_plain_setting::<Scalar>(x.cameraparallaxamount, b);
    lemma_plain_setting::<Scalar>(x.cameraparallaxdelay, b);
    lemma_plain_setting::<Scalar>(x.cameraparallaxmouseinfluence, b);
    lemma_plain_setting::<bool>(x.camerashake, b);
    lemma_plain_setting::<Scalar>(x.camerashakeamplitude, b);
    lemma_plain_setting::<Scalar>(x.camerashakeroughness, b);
    lemma_plain_setting::<Scalar>(x.camerashakespeed, b);
}

/// Whether nothing in a text has a script.
pub open spec fn text_unscripted(x: TextModel) -> bool {
    &&& x.text.script is None
    &&& x.pointsize.script is None
    &&& x.scale.script is None
    &&& x.color.script is None
    &&& x.alpha.script is None
    &&& x.visible.script is None
}

proof fn lemma_plain_text(x: TextModel, b: Bags)
    requires
        text_unscripted(x),
        same_names(b),
    ensures
        text_decided(x, b),
{
    lemma_plain_setting::<String>(x.text, b);
    lemma_plain_setting::<Scalar>(x.pointsize, b);
    lemma_plain_setting::<Vec3>(x.scale, b);
    lemma_plain_setting::<Color>(x.color, b);
    lemma_plain_setting::<Scalar>(x.alpha, b);
    lemma_plain_setting::<bool>(x.visible, b);
}

/// Whether nothing in an animation layer has a script.
pub open spec fn layer_unscripted(x: AnimationLayerModel) -> bool {
    &&& x.rate.script is None
    &&& x.visible.script is None
    &&& x.blend.script is None
    &&& x.animation.script is None
}

proof fn lemma_plain_layer(x: AnimationLayerModel, b: Bags)
    requires
        layer_unscripted(x),
        same_names(b),
    ensures
        layer_decided(x, b),
{
    lemma_plain_setting::<Scalar>(x.rate, b);
    lemma_plain_setting::<bool>(x.visible, b);
    lemma_plain_setting::<Scalar>(x.blend, b);
    lemma_plain_setting::<i64>(x.animation, b);
}

/// Whether nothing in the override of a particle system has a script.
pub open spec fn instance_unscripted(x: InstanceOverrideModel) -> bool {
    &&& x.enabled.script is None
    &&& x.alpha.script is None
    &&& x.size.script is None
    &&& x.lifetime.script is None
    &&& x.rate.script is None
    &&& x.speed.script is None
    &&& x.count.script is None
    &&& x.color.script is None
    &&& x.colorn.script is None
}

proof fn lemma_plain_instance(x: InstanceOverrideModel, b: Bags)
    requires
        instance_unscripted(x),
        same_names(b),
    ensures
        instance_decided(x, b),
{
    lemma_plain_setting::<bool>(x.enabled, b);
    lemma_plain_setting::<Scalar>(x.alpha, b);
    lemma_plain_setting::<Scalar>(x.size, b);
    lemma_plain_setting::<Scalar>(x.lifetime, b);
    lemma_plain_setting::<Scalar>(x.rate, b);
    lemma_plain_setting::<Scalar>(x.speed, b);
    lemma_plain_setting::<Scalar>(x.count, b);
    lemma_plain_setting::<Vec3>(x.color, b);
    lemma_plain_setting::<Vec3>(x.colorn, b);
}

/// Whether nothing in what all objects have has a script.
pub open spec fn base_unscripted(x: BaseModel) -> bool {
    &&& x.origin.script is None
    &&& x.scale.script is None
    &&& x.angles.script is None
    &&& x.visible.script is None
}

proof fn lemma_plain_base(x: BaseModel, b: Bags)
    requires
        base_unscripted(x),
        same_names(b),
    ensures
        base_decided(x, b),
{
    lemma_plain_setting::<Vec3>(x.origin, b);
    lemma_plain_setting::<Vec3>(x.scale, b);
    lemma_plain_setting::<Vec3>(x.angles, b);
    lemma_plain_setting::<bool>(x.visible, b);
}

/// Whether nothing in an override of a pass has a script.
pub open spec fn override_unscripted(x: OverrideModel) -> bool {
    constants_unscripted(x.constants)
}

proof fn lemma_plain_override(x: OverrideModel, b: Bags)
    requires
        override_unscripted(x),
        same_names(b),
    ensures
        override_decided(x, b),
{
    lemma_plain_constants(x.constants, b);
}

/// Whether nothing in a pass of an effect has a script.
pub open spec fn effect_pass_unscripted(x: EffectPassModel) -> bool {
    &&& x.resolved matches Some(y) ==> material_unscripted(y)
}

proof fn lemma_plain_effect_pass(x: EffectPassModel, b: Bags)
    requires
        effect_pass_unscripted(x),
        same_names(b),
    ensures
        effect_pass_decided(x, b),
{
    if let Some(y) = x.resolved {
        lemma_plain_material(y, b);
    }
}

/// Whether nothing in the file of an effect has a script.
pub open spec fn file_unscripted(x: EffectFileModel) -> bool {
    &&& forall|i: int| 0 <= i < x.passes.len() ==> effect_pass_unscripted(#[trigger] x.passes[i])
}

proof fn lemma_plain_file(x: EffectFileModel, b: Bags)
    requires
        file_unscripted(x),
        same_names(b),
    ensures
        file_decided(x, b),
{
    assert forall|i: int| 0 <= i < x.passes.len() implies effect_pass_decided(#[trigger] x.passes[i], b) by {
        lemma_plain_effect_pass(x.passes[i], b);
    }
}

/// Whether nothing in an effect has a script.
pub open spec fn effect_unscripted(x: EffectModel) -> bool {
    &&& x.visible.script is None
    &&& forall|i: int| 0 <= i < x.passes.len() ==> override_unscripted(#[trigger] x.passes[i])
    &&& x.resolved matches Some(y) ==> file_unscripted(y)
}

proof fn lemma_plain_effect(x: EffectModel, b: Bags)
    requires
        effect_unscripted(x),
        same_names(b),
    ensures
        effect_decided(x, b),
{
    lemma_plain_setting::<bool>(x.visible, b);
    assert forall|i: int| 0 <= i < x.passes.len() implies override_decided(#[trigger] x.passes[i], b) by {
        lemma_plain_override(x.passes[i], b);
    }
    if let Some(y) = x.resolved {
        lemma_plain_file(y, b);
    }
}

/// Whether nothing in an image has a script.
pub open spec fn image_unscripted(x: ImageModel) -> bool {
    &&& x.scale.script is None
    &&& x.angles.script is None
    &&& x.visible.script is None
    &&& x.alpha.script is None
    &&& x.color.script is None
    &&& x.parallax_depth.script is None
    &&& x.color_blend_mode.script is None
    &&& x.brightness.script is None
    &&& x.material matches Some(y) ==> material_unscripted(y)
    &&& forall|i: int| 0 <= i < x.effects.len() ==> effect_unscripted(#[trigger] x.effects[i])
    &&& forall|i: int| 0 <= i < x.animationlayers.len() ==> layer_unscripted(#[trigger] x.animationlayers[i])
}

proof fn lemma_plain_image(x: ImageModel, b: Bags)
    requires
        image_unscripted(x),
        same_names(b),
    ensures
        image_decided(x, b),
{
    lemma_plain_setting::<Vec3>(x.scale, b);
    lemma_plain_setting::<Vec3>(x.angles, b);
    lemma_plain_setting::<bool>(x.visible, b);
    lemma_plain_setting::<Scalar>(x.alpha, b);
    lemma_plain_setting::<Color>(x.color, b);
    lemma_plain_setting::<Vec2>(x.parallax_depth, b);
    lemma_plain_setting::<i64>(x.color_blend_mode, b);
    lemma_plain_setting::<Scalar>(x.brightness, b);
    if let Some(y) = x.material {
        lemma_plain_material(y, b);
    }
    assert forall|i: int| 0 <= i < x.effects.len() implies effect_decided(#[trigger] x.effects[i], b) by {
        lemma_plain_effect(x.effects[i], b);
    }
    assert forall|i: int| 0 <= i < x.animationlayers.len() implies layer_decided(#[trigger] x.animationlayers[i], b) by {
        lemma_plain_layer(x.animationlayers[i], b);
    }
}

/// Whether nothing in a stage of a particle system has a script.
pub open spec fn stage_unscripted(x: StageModel) -> bool {
    constants_unscripted(x.params)
}

proof fn lemma_plain_stage(x: StageModel, b: Bags)
    requires
        stage_unscripted(x),
        same_names(b),
    ensures
        stage_decided(x, b),
{
    lemma_plain_constants(x.params, b);
}

/// Whether nothing in a particle system has a script.
pub open spec fn system_unscripted(x: ParticleSystemModel) -> bool {
    &&& forall|i: int| 0 <= i < x.initializers.len() ==> stage_unscripted(#[trigger] x.initializers[i])
    &&& forall|i: int| 0 <= i < x.operators.len() ==> stage_unscripted(#[trigger] x.operators[i])
    &&& x.resolved_material matches Some(y) ==> material_unscripted(y)
}

proof fn lemma_plain_system(x: ParticleSystemModel, b: Bags)
    requires
        system_unscripted(x),
        same_names(b),
    ensures
        system_decided(x, b),
{
    assert forall|i: int| 0 <= i < x.initializers.len() implies stage_decided(#[trigger] x.initializers[i], b) by {
        lemma_plain_stage(x.initializers[i], b);
    }
    assert forall|i: int| 0 <= i < x.operators.len() implies stage_decided(#[trigger] x.operators[i], b) by {
        lemma_plain_stage(x.operators[i], b);
    }
    if let Some(y) = x.resolved_material {
        lemma_plain_material(y, b);
    }
}

/// Whether nothing in a particle object has a script.
pub open spec fn particle_unscripted(x: ParticleModel) -> bool {
    &&& x.scale.script is None
    &&& x.angles.script is None
    &&& x.visible.script is None
    &&& x.parallax_depth.script is None
    &&& system_unscripted(x.system)
    &&& instance_unscripted(x.instanceoverride)
}

proof fn lemma_plain_particle(x: ParticleModel, b: Bags)
    requires
        particle_unscripted(x),
        same_names(b),
    ensures
        particle_decided(x, b),
{
    lemma_plain_setting::<Vec3>(x.scale, b);
    lemma_plain_setting::<Vec3>(x.angles, b);
    lemma_plain_setting::<bool>(x.visible, b);
    lemma_plain_setting::<Vec2>(x.parallax_depth, b);
    lemma_plain_system(x.system, b);
    lemma_plain_instance(x.instanceoverride, b);
}

/// Whether nothing in the kind of an object has a script.
pub open spec fn kind_unscripted(x: KindModel) -> bool {
    match x {
        KindModel::Image(i) => image_unscripted(i),
        KindModel::Particle(p) => particle_unscripted(p),
        KindModel::Text(t) => text_unscripted(t),
        _ => true,
    }
}

proof fn lemma_plain_kind(x: KindModel, b: Bags)
    requires
        kind_unscripted(x),
        same_names(b),
    ensures
        kind_decided(x, b),
{
    match x {
        KindModel::Image(i) => lemma_plain_image(i, b),
        KindModel::Particle(p) => lemma_plain_particle(p, b),
        KindModel::Text(t) => lemma_plain_text(t, b),
        _ => {},
    }
}

/// Whether nothing in an object has a script.
pub open spec fn object_unscripted(x: ObjectModel) -> bool {
    &&& base_unscripted(x.base)
    &&& kind_unscripted(x.kind)
}

proof fn lemma_plain_object(x: ObjectModel, b: Bags)
    requires
        object_unscripted(x),
        same_names(b),
    ensures
        object_decided(x, b),
{
    lemma_plain_base(x.base, b);
    lemma_plain_kind(x.kind, b);
}

/// Whether nothing in a scene has a script.
pub open spec fn scene_unscripted(x: SceneModelView) -> bool {
    &&& camera_unscripted(x.camera)
    &&& general_unscripted(x.general)
    &&& forall|i: int| 0 <= i < x.objects.len() ==> object_unscripted(#[trigger] x.objects[i])
}

/// The last properties decide a scene that has no scripts where both sets have
/// the same properties.
pub proof fn lemma_plain_scene(x: SceneModelView, b: Bags)
    requires
        scene_unscripted(x),
        same_names(b),
    ensures
        scene_decided(x, b),
{
    lemma_plain_camera(x.camera, b);
    lemma_plain_general(x.general, b);
    assert forall|i: int| 0 <= i < x.objects.len() implies object_decided(#[trigger] x.objects[i], b) by {
        lemma_plain_object(x.objects[i], b);
    }
}

/// A scene that is resolved with one set of properties and then with another
/// is the scene that the second alone gives: one that was kept with its
/// defaults and is resolved again is as good as one that is read anew, and
/// going back to the defaults brings the first back. Left out are scenes whose
/// settings follow properties that only the first set has, or whose scripts
/// have entries that follow a property which the sets do not agree on.
pub proof fn law_resolving_again_is_reading_anew(x: SceneModelView, b: Bags)
    requires
        scene_decided(x, b),
    ensures
        resolved_scene(resolved_scene(x, b.first), b.last) == resolved_scene(x, b.last),
{
    lemma_camera(x.camera, b);
    lemma_general(x.general, b);
    assert forall|i: int| 0 <= i < x.objects.len() implies resolved_object(
        resolved_object(#[trigger] x.objects[i], b.first),
        b.last,
    ) == resolved_object(x.objects[i], b.last) by {
        lemma_object(x.objects[i], b);
    }
    assert(resolved_scene(
        resolved_scene(x, b.first),
        b.last,
    ).objects =~= resolved_scene(x, b.last).objects);
}

/// A scene without scripts that is resolved with one set of properties and
/// then with another of the same names is the scene that the second alone
/// gives, and resolving it with the first again brings the first back.
pub proof fn law_properties_can_be_changed_and_changed_back(x: SceneModelView, b: Bags)
    requires
        scene_unscripted(x),
        same_names(b),
    ensures
        resolved_scene(resolved_scene(x, b.first), b.last) == resolved_scene(x, b.last),
        resolved_scene(resolved_scene(resolved_scene(x, b.first), b.last), b.first)
            == resolved_scene(x, b.first),
{
    let back = Bags { first: b.last, last: b.first };
    assert(same_names(back)) by {
        assert forall|k: Seq<char>| #[trigger] back.first.contains_key(k)
            <==> back.last.contains_key(k) by {
            assert(b.first.contains_key(k) <==> b.last.contains_key(k));
        }
    }
    lemma_plain_scene(x, b);
    lemma_plain_scene(x, back);
    law_resolving_again_is_reading_anew(x, b);
    law_resolving_again_is_reading_anew(x, back);
}

} // verus!
