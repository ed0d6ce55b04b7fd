//! What scripts see of a scene, and what they do to it.
use vstd::prelude::*;

use super::members::{holds, lacks, law_members_are_found_by_name};
use crate::json::{Members, Tree};
use crate::object::{ImageModel, KindModel, ObjectModel};
use crate::property::Property;
use crate::scene::SceneModelView;
use crate::script::{property_for_script, Scripted};
use crate::script_setup::{
    constant_scripts, dynamic_initial, first_layer, first_state, flat_props, kind_scripts,
    object_scripts, place_scripts, property_script, script_user_props, InitialModel, PendingModel,
};
use crate::scripting::{
    after_op, after_result, camera_then, layer_at, moved_layer, next_frame, recorded, state_after,
    target_of, without_layer, CameraOp, HostModel, LayerModel, Op, Progress, PropModel, PropTarget,
    StateModel,
};
use crate::user::{Constants, Script};
use crate::value::{Dynamic, Number};

verus! {

proof fn lemma_property_names()
    ensures
        "alpha"@ != "brightness"@,
        "alpha"@ != "color"@,
        "alpha"@ != "visible"@,
        "alpha"@ != "text"@,
        "alpha"@ != "rate"@,
        "alpha"@ != "origin"@,
        "alpha"@ != "scale"@,
        "alpha"@ != "angles"@,
        "alpha"@ != "parallaxDepth"@,
        "alpha"@ != "volume"@,
        "brightness"@ != "color"@,
        "brightness"@ != "visible"@,
        "brightness"@ != "text"@,
        "brightness"@ != "rate"@,
        "brightness"@ != "origin"@,
        "brightness"@ != "scale"@,
        "brightness"@ != "angles"@,
        "brightness"@ != "parallaxDepth"@,
        "brightness"@ != "volume"@,
        "color"@ != "visible"@,
        "color"@ != "text"@,
        "color"@ != "rate"@,
        "color"@ != "origin"@,
        "color"@ != "scale"@,
        "color"@ != "angles"@,
        "color"@ != "parallaxDepth"@,
        "color"@ != "volume"@,
        "visible"@ != "text"@,
        "visible"@ != "rate"@,
        "visible"@ != "origin"@,
        "visible"@ != "scale"@,
        "visible"@ != "angles"@,
        "visible"@ != "parallaxDepth"@,
        "visible"@ != "volume"@,
        "text"@ != "rate"@,
        "text"@ != "origin"@,
        "text"@ != "scale"@,
        "text"@ != "angles"@,
        "text"@ != "parallaxDepth"@,
        "text"@ != "volume"@,
        "rate"@ != "origin"@,
        "rate"@ != "scale"@,
        "rate"@ != "angles"@,
        "rate"@ != "parallaxDepth"@,
        "rate"@ != "volume"@,
        "origin"@ != "scale"@,
        "origin"@ != "angles"@,
        "origin"@ != "parallaxDepth"@,
        "origin"@ != "volume"@,
        "scale"@ != "angles"@,
        "scale"@ != "parallaxDepth"@,
        "scale"@ != "volume"@,
        "angles"@ != "parallaxDepth"@,
        "angles"@ != "volume"@,
        "parallaxDepth"@ != "volume"@,
{
    reveal_strlit("alpha");
    reveal_strlit("brightness");
    reveal_strlit("color");
    reveal_strlit("visible");
    reveal_strlit("text");
    reveal_strlit("rate");
    reveal_strlit("origin");
    reveal_strlit("scale");
    reveal_strlit("angles");
    reveal_strlit("parallaxDepth");
    reveal_strlit("volume");
    assert("alpha"@.len() == 5);
    assert("brightness"@.len() == 10);
    assert("color"@.len() == 5);
    assert("visible"@.len() == 7);
    assert("text"@.len() == 4);
    assert("rate"@.len() == 4);
    assert("origin"@.len() == 6);
    assert("scale"@.len() == 5);
    assert("angles"@.len() == 6);
    assert("parallaxDepth"@.len() == 13);
    assert("volume"@.len() == 6);
    assert("alpha"@[0] == 'a' && "color"@[0] == 'c');
    assert("alpha"@[0] == 'a' && "scale"@[0] == 's');
    assert("color"@[0] == 'c' && "scale"@[0] == 's');
    assert("text"@[0] == 't' && "rate"@[0] == 'r');
    assert("origin"@[0] == 'o' && "angles"@[0] == 'a');
    assert("origin"@[0] == 'o' && "volume"@[0] == 'v');
    assert("angles"@[0] == 'a' && "volume"@[0] == 'v');
}

proof fn lemma_setting_names()
    ensures
        "bloom"@ != "bloomstrength"@,
        "bloom"@ != "bloomthreshold"@,
        "bloom"@ != "clearenabled"@,
        "bloom"@ != "camerafade"@,
        "bloom"@ != "camerashake"@,
        "bloom"@ != "camerashakespeed"@,
        "bloom"@ != "camerashakeamplitude"@,
        "bloom"@ != "camerashakeroughness"@,
        "bloom"@ != "cameraparallax"@,
        "bloom"@ != "cameraparallaxamount"@,
        "bloom"@ != "cameraparallaxdelay"@,
        "bloom"@ != "cameraparallaxmouseinfluence"@,
        "bloom"@ != "clearcolor"@,
        "bloom"@ != "ambientcolor"@,
        "bloom"@ != "skylightcolor"@,
        "bloomstrength"@ != "bloomthreshold"@,
        "bloomstrength"@ != "clearenabled"@,
        "bloomstrength"@ != "camerafade"@,
        "bloomstrength"@ != "camerashake"@,
        "bloomstrength"@ != "camerashakespeed"@,
        "bloomstrength"@ != "camerashakeamplitude"@,
        "bloomstrength"@ != "camerashakeroughness"@,
        "bloomstrength"@ != "cameraparallax"@,
        "bloomstrength"@ != "cameraparallaxamount"@,
        "bloomstrength"@ != "cameraparallaxdelay"@,
        "bloomstrength"@ != "cameraparallaxmouseinfluence"@,
        "bloomstrength"@ != "clearcolor"@,
        "bloomstrength"@ != "ambientcolor"@,
        "bloomstrength"@ != "skylightcolor"@,
        "bloomthreshold"@ != "clearenabled"@,
        "bloomthreshold"@ != "camerafade"@,
        "bloomthreshold"@ != "camerashake"@,
        "bloomthreshold"@ != "camerashakespeed"@,
        "bloomthreshold"@ != "camerashakeamplitude"@,
        "bloomthreshold"@ != "camerashakeroughness"@,
        "bloomthreshold"@ != "cameraparallax"@,
        "bloomthreshold"@ != "cameraparallaxamount"@,
        "bloomthreshold"@ != "cameraparallaxdelay"@,
        "bloomthreshold"@ != "cameraparallaxmouseinfluence"@,
        "bloomthreshold"@ != "clearcolor"@,
        "bloomthreshold"@ != "ambientcolor"@,
        "bloomthreshold"@ != "skylightcolor"@,
        "clearenabled"@ != "camerafade"@,
        "clearenabled"@ != "camerashake"@,
        "clearenabled"@ != "camerashakespeed"@,
        "clearenabled"@ != "camerashakeamplitude"@,
        "clearenabled"@ != "camerashakeroughness"@,
        "clearenabled"@ != "cameraparallax"@,
        "clearenabled"@ != "cameraparallaxamount"@,
        "clearenabled"@ != "cameraparallaxdelay"@,
        "clearenabled"@ != "cameraparallaxmouseinfluence"@,
        "clearenabled"@ != "clearcolor"@,
        "clearenabled"@ != "ambientcolor"@,
        "clearenabled"@ != "skylightcolor"@,
        "camerafade"@ != "camerashake"@,
        "camerafade"@ != "camerashakespeed"@,
        "camerafade"@ != "camerashakeamplitude"@,
        "camerafade"@ != "camerashakeroughness"@,
        "camerafade"@ != "cameraparallax"@,
        "camerafade"@ != "cameraparallaxamount"@,
        "camerafade"@ != "cameraparallaxdelay"@,
        "camerafade"@ != "cameraparallaxmouseinfluence"@,
        "camerafade"@ != "clearcolor"@,
        "camerafade"@ != "ambientcolor"@,
        "camerafade"@ != "skylightcolor"@,
        "camerashake"@ != "camerashakespeed"@,
        "camerashake"@ != "camerashakeamplitude"@,
        "camerashake"@ != "camerashakeroughness"@,
        "camerashake"@ != "cameraparallax"@,
        "camerashake"@ != "cameraparallaxamount"@,
        "camerashake"@ != "cameraparallaxdelay"@,
        "camerashake"@ != "cameraparallaxmouseinfluence"@,
        "camerashake"@ != "clearcolor"@,
        "camerashake"@ != "ambientcolor"@,
        "camerashake"@ != "skylightcolor"@,
        "camerashakespeed"@ != "camerashakeamplitude"@,
        "camerashakespeed"@ != "camerashakeroughness"@,
        "camerashakespeed"@ != "cameraparallax"@,
        "camerashakespeed"@ != "cameraparallaxamount"@,
        "camerashakespeed"@ != "cameraparallaxdelay"@,
        "camerashakespeed"@ != "cameraparallaxmouseinfluence"@,
        "camerashakespeed"@ != "clearcolor"@,
        "camerashakespeed"@ != "ambientcolor"@,
        "camerashakespeed"@ != "skylightcolor"@,
        "camerashakeamplitude"@ != "camerashakeroughness"@,
        "camerashakeamplitude"@ != "cameraparallax"@,
        "camerashakeamplitude"@ != "cameraparallaxamount"@,
        "camerashakeamplitude"@ != "cameraparallaxdelay"@,
        "camerashakeamplitude"@ != "cameraparallaxmouseinfluence"@,
        "camerashakeamplitude"@ != "clearcolor"@,
        "camerashakeamplitude"@ != "ambientcolor"@,
        "camerashakeamplitude"@ != "skylightcolor"@,
        "camerashakeroughness"@ != "cameraparallax"@,
        "camerashakeroughness"@ != "cameraparallaxamount"@,
        "camerashakeroughness"@ != "cameraparallaxdelay"@,
        "camerashakeroughness"@ != "cameraparallaxmouseinfluence"@,
        "camerashakeroughness"@ != "clearcolor"@,
        "camerashakeroughness"@ != "ambientcolor"@,
        "camerashakeroughness"@ != "skylightcolor"@,
        "cameraparallax"@ != "cameraparallaxamount"@,
        "cameraparallax"@ != "cameraparallaxdelay"@,
        "cameraparallax"@ != "cameraparallaxmouseinfluence"@,
        "cameraparallax"@ != "clearcolor"@,
        "cameraparallax"@ != "ambientcolor"@,
        "cameraparallax"@ != "skylightcolor"@,
        "cameraparallaxamount"@ != "cameraparallaxdelay"@,
        "cameraparallaxamount"@ != "cameraparallaxmouseinfluence"@,
        "cameraparallaxamount"@ != "clearcolor"@,
        "cameraparallaxamount"@ != "ambientcolor"@,
        "cameraparallaxamount"@ != "skylightcolor"@,
        "cameraparallaxdelay"@ != "cameraparallaxmouseinfluence"@,
        "cameraparallaxdelay"@ != "clearcolor"@,
        "cameraparallaxdelay"@ != "ambientcolor"@,
        "cameraparallaxdelay"@ != "skylightcolor"@,
        "cameraparallaxmouseinfluence"@ != "clearcolor"@,
        "cameraparallaxmouseinfluence"@ != "ambientcolor"@,
        "cameraparallaxmouseinfluence"@ != "skylightcolor"@,
        "clearcolor"@ != "ambientcolor"@,
        "clearcolor"@ != "skylightcolor"@,
        "ambientcolor"@ != "skylightcolor"@,
{
    reveal_strlit("bloom");
    reveal_strlit("bloomstrength");
    reveal_strlit("bloomthreshold");
    reveal_strlit("clearenabled");
    reveal_strlit("camerafade");
    reveal_strlit("camerashake");
    reveal_strlit("camerashakespeed");
    reveal_strlit("camerashakeamplitude");
    reveal_strlit("camerashakeroughness");
    reveal_strlit("cameraparallax");
    reveal_strlit("cameraparallaxamount");
    reveal_strlit("cameraparallaxdelay");
    reveal_strlit("cameraparallaxmouseinfluence");
    reveal_strlit("clearcolor");
    reveal_strlit("ambientcolor");
    reveal_strlit("skylightcolor");
    assert("bloom"@.len() == 5);
    assert("bloomstrength"@.len() == 13);
    assert("bloomthreshold"@.len() == 14);
    assert("clearenabled"@.len() == 12);
    assert("camerafade"@.len() == 10);
    assert("camerashake"@.len() == 11);
    assert("camerashakespeed"@.len() == 16);
    assert("camerashakeamplitude"@.len() == 20);
    assert("camerashakeroughness"@.len() == 20);
    assert("cameraparallax"@.len() == 14);
    assert("cameraparallaxamount"@.len() == 20);
    assert("cameraparallaxdelay"@.len() == 19);
    assert("cameraparallaxmouseinfluence"@.len() == 28);
    assert("clearcolor"@.len() == 10);
    assert("ambientcolor"@.len() == 12);
    assert("skylightcolor"@.len() == 13);
    assert("bloomstrength"@[0] == 'b' && "skylightcolor"@[0] == 's');
    assert("bloomthreshold"@[0] == 'b' && "cameraparallax"@[0] == 'c');
    assert("clearenabled"@[0] == 'c' && "ambientcolor"@[0] == 'a');
    assert("camerafade"@[1] == 'a' && "clearcolor"@[1] == 'l');
    assert("camerashakeamplitude"@[11] == 'a' && "camerashakeroughness"@[11] == 'r');
    assert("camerashakeamplitude"@[6] == 's' && "cameraparallaxamount"@[6] == 'p');
    assert("camerashakeroughness"@[6] == 's' && "cameraparallaxamount"@[6] == 'p');
}

/// Scripts know the properties of a layer by name.
pub proof fn law_scripts_know_properties_by_name(name: Seq<char>)
    ensures
        target_of("alpha"@) == Some(PropTarget::Alpha),
        target_of("brightness"@) == Some(PropTarget::Brightness),
        target_of("color"@) == Some(PropTarget::Color),
        target_of("visible"@) == Some(PropTarget::Visible),
        target_of("text"@) == Some(PropTarget::Text),
        target_of("rate"@) == Some(PropTarget::ParticleRate),
        target_of("origin"@) == Some(PropTarget::Origin),
        target_of("scale"@) == Some(PropTarget::Scale),
        target_of("angles"@) == Some(PropTarget::Angles),
        target_of("parallaxDepth"@) == Some(PropTarget::ParallaxDepth),
        target_of("volume"@) == Some(PropTarget::Volume),
        target_of(name) is Some ==> name == "alpha"@ || name == "brightness"@ || name == "color"@ || name
            == "visible"@ || name == "text"@ || name == "rate"@ || name == "origin"@ || name == "scale"@
            || name == "angles"@ || name == "parallaxDepth"@ || name == "volume"@,
{
    lemma_property_names();
}

/// A setting of the scene that a script writes is the one that it names, and
/// the others stay; a name that is none is refused.
pub proof fn law_scripts_set_the_scene_by_name(s: StateModel, name: Seq<char>, b: bool, f: u64, v: [u32; 3])
    ensures
        state_after(s, "bloom"@, Scripted::Bool(b)) == Some(StateModel { bloom: b, ..s }),
        state_after(s, "clearenabled"@, Scripted::Bool(b)) == Some(StateModel { clearenabled: b, ..s }),
        state_after(s, "camerafade"@, Scripted::Bool(b)) == Some(StateModel { camerafade: b, ..s }),
        state_after(s, "camerashake"@, Scripted::Bool(b)) == Some(StateModel { camerashake: b, ..s }),
        state_after(s, "cameraparallax"@, Scripted::Bool(b)) == Some(StateModel { cameraparallax: b, ..s }),
        state_after(s, "bloomstrength"@, Scripted::Float(f)) == Some(StateModel { bloomstrength: Number::Real(f), ..s }),
        state_after(s, "bloomthreshold"@, Scripted::Float(f)) == Some(StateModel { bloomthreshold: Number::Real(f), ..s }),
        state_after(s, "camerashakespeed"@, Scripted::Float(f)) == Some(StateModel { camerashakespeed: Number::Real(f), ..s }),
        state_after(s, "camerashakeamplitude"@, Scripted::Float(f)) == Some(StateModel { camerashakeamplitude: Number::Real(f), ..s }),
        state_after(s, "camerashakeroughness"@, Scripted::Float(f)) == Some(StateModel { camerashakeroughness: Number::Real(f), ..s }),
        state_after(s, "cameraparallaxamount"@, Scripted::Float(f)) == Some(StateModel { cameraparallaxamount: Number::Real(f), ..s }),
        state_after(s, "cameraparallaxdelay"@, Scripted::Float(f)) == Some(StateModel { cameraparallaxdelay: Number::Real(f), ..s }),
        state_after(s, "cameraparallaxmouseinfluence"@, Scripted::Float(f)) == Some(StateModel { cameraparallaxmouseinfluence: Number::Real(f), ..s }),
        state_after(s, "clearcolor"@, Scripted::Vec3(v)) == Some(
            StateModel {
                clearcolor: (Number::Single(v[0]), Number::Single(v[1]), Number::Single(v[2])),
                ..s
            },
        ),
        state_after(s, "ambientcolor"@, Scripted::Vec3(v)) == Some(
            StateModel {
                ambientcolor: (Number::Single(v[0]), Number::Single(v[1]), Number::Single(v[2])),
                ..s
            },
        ),
        state_after(s, "skylightcolor"@, Scripted::Vec3(v)) == Some(
            StateModel {
                skylightcolor: (Number::Single(v[0]), Number::Single(v[1]), Number::Single(v[2])),
                ..s
            },
        ),
        name != "bloom"@ && name != "clearenabled"@ && name != "camerafade"@ && name != "camerashake"@ && name != "cameraparallax"@ && name != "bloomstrength"@ && name != "bloomthreshold"@ && name != "camerashakespeed"@ && name != "camerashakeamplitude"@ && name != "camerashakeroughness"@ && name != "cameraparallaxamount"@ && name != "cameraparallaxdelay"@ && name != "cameraparallaxmouseinfluence"@ && name != "clearcolor"@ && name != "ambientcolor"@ && name != "skylightcolor"@
            ==> state_after(s, name, Scripted::Bool(b)) is None,
{
    lemma_setting_names();
}

proof fn lemma_layer_at(layers: Seq<LayerModel>, id: i64, from: int)
    requires
        0 <= from <= layers.len(),
    ensures
        match layer_at(layers, id, from) {
            Some(i) => from <= i < layers.len() && layers[i].id == id && forall|j: int|
                from <= j < i ==> (#[trigger] layers[j]).id != id,
            None => forall|j: int| from <= j < layers.len() ==> (#[trigger] layers[j]).id != id,
        },
    decreases layers.len() - from,
{
    if from < layers.len() && layers[from].id != id {
        lemma_layer_at(layers, id, from + 1);
    }
}

/// What a script writes to a layer it reads back from that layer.
pub proof fn law_scripts_read_what_they_write(l: LayerModel, b: bool, f: u64, v: [u32; 3], s: Seq<char>)
    ensures
        ({
            let x = (Number::Single(v[0]), Number::Single(v[1]), Number::Single(v[2]));
            &&& recorded(l, PropTarget::Alpha, Scripted::Float(f)) == (LayerModel {
                alpha: Some(Number::Real(f)),
                ..l
            })
            &&& recorded(l, PropTarget::Color, Scripted::Vec3(v)) == (LayerModel { color: Some(x), ..l })
            &&& recorded(l, PropTarget::Visible, Scripted::Bool(b)) == (LayerModel { visible: Some(b), ..l })
            &&& recorded(l, PropTarget::Text, Scripted::Str(s)) == (LayerModel { text: Some(s), ..l })
            &&& recorded(l, PropTarget::Origin, Scripted::Vec3(v)) == (LayerModel { origin: Some(x), ..l })
            &&& recorded(l, PropTarget::Scale, Scripted::Vec3(v)) == (LayerModel { scale: Some(x), ..l })
            &&& recorded(l, PropTarget::Angles, Scripted::Vec3(v)) == (LayerModel { angles: Some(x), ..l })
            &&& recorded(l, PropTarget::ParallaxDepth, Scripted::Vec3(v)) == (LayerModel {
                parallax_depth: Some(Number::Single(v[0])),
                ..l
            })
            &&& recorded(l, PropTarget::Volume, Scripted::Float(f)) == l
            &&& recorded(l, PropTarget::Alpha, Scripted::Null) == l
        }),
{
}

/// A script that writes a property of a layer changes that layer as scripts
/// see it, and hands the change on: to the layer and the property that it
/// named, with the value that it gave, angles in degrees.
pub proof fn law_writes_are_handed_on(p: Progress, id: i64, value: Scripted, i: int)
    requires
        0 <= i < p.host.layers.len(),
        p.host.layers[i].id == id,
        forall|j: int| 0 <= j < i ==> (#[trigger] p.host.layers[j]).id != id,
    ensures
        ({
            let after = after_op(p, Op::SetProperty { layer_id: id, name: "alpha"@, value });
            &&& after.updates.len() == p.updates.len() + 1
            &&& after.updates.last().object_id == id
            &&& after.updates.last().target == PropTarget::Alpha
            &&& after.updates.last().value == value
            &&& !after.updates.last().in_degrees
            &&& after.host.layers.len() == p.host.layers.len()
            &&& after.host.layers[i] == recorded(p.host.layers[i], PropTarget::Alpha, value)
            &&& forall|j: int|
                0 <= j < p.host.layers.len() && j != i ==> #[trigger] after.host.layers[j]
                    == p.host.layers[j]
        }),
        ({
            let after = after_op(p, Op::SetProperty { layer_id: id, name: "angles"@, value });
            &&& after.updates.last().target == PropTarget::Angles
            &&& after.updates.last().value == value
            &&& after.updates.last().in_degrees
        }),
{
    lemma_property_names();
    lemma_layer_at(p.host.layers, id, 0);
}

/// What a script asks for is kept for the scene to do: commands for videos,
/// animations and particle systems, constants of effects, and layers to make
/// or to destroy, each as the script gave it, behind what was asked before.
pub proof fn law_requests_are_kept_in_order(
    p: Progress,
    id: i64,
    cmd: Seq<char>,
    amount: u64,
    track: u32,
    effect: u32,
    name: Seq<char>,
    value: Scripted,
    count: u32,
    path: Seq<char>,
    text: Option<Seq<char>>,
)
    ensures
        after_op(p, Op::VideoCommand { layer_id: id, cmd, amount }).host.video_ops
            == p.host.video_ops.push((id, cmd, amount)),
        after_op(p, Op::AnimationCommand { track, cmd, amount }).host.anim_ops == p.host.anim_ops.push(
            (track, cmd, amount),
        ),
        after_op(p, Op::SetMaterialProperty { layer_id: id, effect, name, value }).host.material_ops
            == p.host.material_ops.push((id, effect as usize, name, value)),
        after_op(p, Op::ParticleCommand { layer_id: id, cmd }).host.particle_ops
            == p.host.particle_ops.push(crate::scripting::ParticleRequest::Command { id, cmd }),
        after_op(p, Op::EmitParticles { layer_id: id, count }).host.particle_ops
            == p.host.particle_ops.push(crate::scripting::ParticleRequest::Emit { id, count }),
        after_op(p, Op::SetInstance { layer_id: id, name, value }).host.particle_ops
            == p.host.particle_ops.push(crate::scripting::ParticleRequest::Instance { id, name, value }),
        after_op(p, Op::DestroyLayer { layer_id: id }).host.destroyed == p.host.destroyed.push(id),
        path.len() > 0 ==> after_op(p, Op::CreateLayer { layer_id: id, path, text }).host.created
            == p.host.created.push((id, path)),
        path.len() == 0 ==> after_op(p, Op::CreateLayer { layer_id: id, path, text }).host.created
            == p.host.created,
{
}

/// A layer that a script makes is there for scripts at once, plain and
/// visible, with its own id, name and text.
pub proof fn law_made_layers_are_seen_by_scripts(p: Progress, id: i64, path: Seq<char>, text: Option<Seq<char>>)
    ensures
        ({
            let after = after_op(p, Op::CreateLayer { layer_id: id, path, text }).host.layers;
            let l = after.last();
            let zero = Number::Single(0);
            let one = Number::Single(0x3f80_0000);
            &&& after.len() == p.host.layers.len() + 1
            &&& after.drop_last() == p.host.layers
            &&& l.id == id && l.name == path && l.text == text && l.parent is None
            &&& l.visible == Some(true) && l.alpha == Some(one)
            &&& l.origin == Some((zero, zero, zero)) && l.angles == Some((zero, zero, zero))
            &&& l.scale == Some((one, one, one)) && l.color == Some((one, one, one))
        }),
{
    assert(after_op(p, Op::CreateLayer { layer_id: id, path, text }).host.layers.drop_last()
        =~= p.host.layers);
}

proof fn lemma_without(layers: Seq<LayerModel>, id: i64)
    ensures
        forall|i: int| 0 <= i < layers.len() && (#[trigger] layers[i]).id != id ==> without_layer(layers, id).contains(layers[i]),
        forall|i: int|
            0 <= i < without_layer(layers, id).len() ==> (#[trigger] without_layer(layers, id)[i]).id != id && layers.contains(without_layer(layers, id)[i]),
    decreases layers.len(),
{
    if layers.len() > 0 {
        let head = layers.drop_last();
        lemma_without(head, id);
        let now = without_layer(layers, id);
        let before = without_layer(head, id);
        assert forall|i: int| 0 <= i < layers.len() && (#[trigger] layers[i]).id != id implies now.contains(layers[i]) by {
            if i < head.len() {
                assert(head[i] == layers[i]);
                let j = before.index_of(layers[i]);
                assert(now[j] == layers[i]);
            } else {
                assert(now[now.len() - 1] == layers[i]);
            }
        }
        assert forall|i: int| 0 <= i < now.len() implies (#[trigger] now[i]).id != id && layers.contains(now[i]) by {
            if i < before.len() {
                assert(now[i] == before[i]);
                let j = head.index_of(before[i]);
                assert(layers[j] == now[i]);
            } else {
                assert(layers[layers.len() - 1] == now[i]);
            }
        }
    }
}

/// A layer that a script destroys is gone for scripts, and no other is.
pub proof fn law_destroyed_layers_are_gone_for_scripts(p: Progress, id: i64, i: int)
    ensures
        ({
            let after = after_op(p, Op::DestroyLayer { layer_id: id }).host.layers;
            &&& 0 <= i < after.len() ==> after[i].id != id && p.host.layers.contains(after[i])
            &&& 0 <= i < p.host.layers.len() && p.host.layers[i].id != id ==> after.contains(
                p.host.layers[i],
            )
        }),
{
    lemma_without(p.host.layers, id);
    if 0 <= i < p.host.layers.len() {
        assert(p.host.layers[i] == p.host.layers[i]);
    }
}

/// A layer that a script sorts stands at the place that it was given among the
/// others; a place behind the end, or before the beginning, is the end.
pub proof fn law_sorted_layers_stand_where_told(layers: Seq<LayerModel>, id: i64, index: i64, i: int)
    requires
        0 <= i < layers.len(),
        layers[i].id == id,
        forall|j: int| 0 <= j < i ==> (#[trigger] layers[j]).id != id,
    ensures
        0 <= index < layers.len() ==> moved_layer(layers, id, index)[index as int] == layers[i],
        index < 0 || index >= layers.len() ==> moved_layer(layers, id, index).last() == layers[i],
        moved_layer(layers, id, index).len() == layers.len(),
{
    lemma_layer_at(layers, id, 0);
}

/// Of two moves of the camera the later counts, part by part.
pub proof fn law_later_camera_moves_count(a: CameraOp, b: CameraOp)
    ensures
        ({
            let c = camera_then(Some(a), b);
            &&& c.eye == if b.eye is Some { b.eye } else { a.eye }
            &&& c.center == if b.center is Some { b.center } else { a.center }
            &&& c.up == if b.up is Some { b.up } else { a.up }
            &&& c.fov == if b.fov is Some { b.fov } else { a.fov }
            &&& c.zoom == if b.zoom is Some { b.zoom } else { a.zoom }
        }),
        camera_then(None, b) == b,
{
}

/// What a script returns goes to the property that it drives: of its layer, or
/// of the effect's constant.
pub proof fn law_results_reach_their_property(p: Progress, key: Seq<char>, value: Scripted, i: int)
    requires
        0 <= i < p.host.props.len(),
        p.host.props[i].key == key,
        forall|j: int| 0 <= j < i ==> (#[trigger] p.host.props[j]).key != key,
    ensures
        ({
            let prop = p.host.props[i];
            let after = after_result(p, key, value);
            &&& prop.effect_constant is None ==> after.updates.len() == p.updates.len() + 1
                && after.updates.last().object_id == prop.object_id && after.updates.last().target
                == prop.target && after.updates.last().value == value && after.host.material_ops
                == p.host.material_ops
            &&& prop.effect_constant matches Some(c) ==> after.updates == p.updates
                && after.host.material_ops == p.host.material_ops.push(
                (prop.object_id, c.0, c.1, value),
            )
        }),
{
    lemma_prop_at(p.host.props, key, 0, i);
}

proof fn lemma_prop_at(props: Seq<PropModel>, key: Seq<char>, from: int, i: int)
    requires
        0 <= from <= i < props.len(),
        props[i].key == key,
        forall|j: int| 0 <= j < i ==> (#[trigger] props[j]).key != key,
    ensures
        crate::scripting::prop_at(props, key, from) == Some(i),
    decreases i - from,
{
    if from < i {
        assert(props[from].key != key);
        lemma_prop_at(props, key, from + 1, i);
    }
}

/// Scripts are handed the layers in every frame, and the properties and the
/// scene where they changed or nothing has been handed over yet.
pub proof fn law_frames_tell_what_changed(h: HostModel)
    ensures
        next_frame(h).layers == h.layers,
        next_frame(h).overrides == h.overrides,
        !h.has_frame || h.user_props_dirty ==> next_frame(h).user_props == Some(h.user_props),
        h.has_frame && !h.user_props_dirty ==> next_frame(h).user_props is None,
        !h.has_frame || h.scene_dirty ==> next_frame(h).scene == Some(h.scene),
        h.has_frame && !h.scene_dirty ==> next_frame(h).scene is None,
{
}

/// A user property is a flag, a number, a colour or a text to scripts, as it
/// is to the user.
pub proof fn law_properties_as_scripts_see_them(b: bool, bits: u64, x: u32, shown: Seq<char>, rgba: [u32; 4])
    ensures
        property_for_script(Property::Bool(b)) == Scripted::Bool(b),
        property_for_script(Property::Number { bits, single: x, shown }) == Scripted::Float(bits),
        property_for_script(Property::Color { rgba, shown }) matches Scripted::Vec3(v) && v[0] == rgba[0]
            && v[1] == rgba[1] && v[2] == rgba[2],
        property_for_script(Property::Combo { text: shown, single: x }) == Scripted::Str(shown),
        property_for_script(Property::Text { text: shown, single: x }) == Scripted::Str(shown),
{
}

/// Scripts find the properties under their names; of two of one name, the
/// later.
pub proof fn law_scripts_find_properties(props: Seq<(Seq<char>, Property)>, k: int, i: int)
    requires
        0 <= i < k <= props.len(),
        forall|j: int| i < j < k ==> (#[trigger] props[j]).0 != props[i].0,
    ensures
        script_user_props(props, k).contains_key(props[i].0),
        script_user_props(props, k)[props[i].0] == property_for_script(props[i].1),
    decreases k,
{
    if i < k - 1 {
        assert(props[k - 1].0 != props[i].0);
        law_scripts_find_properties(props, k - 1, i);
    }
}

/// Scripts first see a layer as the scene has it: where it stands, its angles
/// in degrees, its look, and whether it is visible.
pub proof fn law_scripts_see_layers_as_they_are(o: ObjectModel)
    ensures
        ({
            let l = first_layer(o);
            let b = o.base;
            &&& l.id == b.id && l.name == b.name && l.parent == b.parent
            &&& l.origin == Some(b.origin.value)
            &&& l.scale == Some(b.scale.value)
            &&& l.angles == Some(
                (
                    Number::Degrees(Box::new(b.angles.value.0)),
                    Number::Degrees(Box::new(b.angles.value.1)),
                    Number::Degrees(Box::new(b.angles.value.2)),
                ),
            )
            &&& o.kind matches KindModel::Image(i) ==> {
                &&& l.alpha == Some(i.alpha.value)
                &&& l.color == Some((i.color.value.0, i.color.value.1, i.color.value.2))
                &&& l.visible == Some(i.visible.value && b.visible.value)
                &&& l.size == Some(i.size)
                &&& l.text is None && l.point_size is None
                &&& l.effects is Some && l.effects->0.len() == i.effects.len()
                &&& forall|k: int|
                    0 <= k < i.effects.len() ==> (#[trigger] l.effects->0[k]).0 == i.effects[k].name
            }
            &&& o.kind matches KindModel::Text(t) ==> {
                &&& l.alpha == Some(t.alpha.value)
                &&& l.color == Some((t.color.value.0, t.color.value.1, t.color.value.2))
                &&& l.visible == Some(t.visible.value && b.visible.value)
                &&& l.size == Some(t.size)
                &&& l.text == Some(t.text.value)
                &&& l.point_size == Some(t.pointsize.value)
            }
            &&& !(o.kind is Image) && !(o.kind is Text) ==> l.visible == Some(b.visible.value)
                && l.alpha is None && l.color is None && l.text is None
            &&& lacks(o.extra, "solid"@) ==> l.solid is None
            &&& forall|s: bool| #[trigger] holds(o.extra, "solid"@, Tree::Bool(s)) ==> l.solid == Some(s)
        }),
{
    law_members_are_found_by_name(o.extra, "solid"@);
}

/// Scripts first see the scene's settings and its camera as they are.
pub proof fn law_scripts_see_the_scene_as_it_is(s: SceneModelView, clearenabled: bool)
    ensures
        ({
            let x = first_state(s, clearenabled);
            let g = s.general;
            &&& x.clearcolor == (g.clearcolor.value.0, g.clearcolor.value.1, g.clearcolor.value.2)
            &&& x.ambientcolor == (g.ambientcolor.value.0, g.ambientcolor.value.1, g.ambientcolor.value.2)
            &&& x.skylightcolor == (
                g.skylightcolor.value.0,
                g.skylightcolor.value.1,
                g.skylightcolor.value.2,
            )
            &&& x.bloom == g.bloom.value
            &&& x.bloomstrength == g.bloomstrength.value
            &&& x.bloomthreshold == g.bloomthreshold.value
            &&& x.clearenabled == clearenabled
            &&& x.camerafade == g.camerafade.value
            &&& x.camerashake == g.camerashake.value
            &&& x.camerashakespeed == g.camerashakespeed.value
            &&& x.camerashakeamplitude == g.camerashakeamplitude.value
            &&& x.camerashakeroughness == g.camerashakeroughness.value
            &&& x.cameraparallax == g.cameraparallax.value
            &&& x.cameraparallaxamount == g.cameraparallaxamount.value
            &&& x.cameraparallaxdelay == g.cameraparallaxdelay.value
            &&& x.cameraparallaxmouseinfluence == g.cameraparallaxmouseinfluence.value
            &&& x.nearz == s.camera.nearz && x.farz == s.camera.farz
            &&& x.fov == s.camera.fov.value && x.camera.fov == s.camera.fov.value
            &&& x.camera.eye == s.camera.eye && x.camera.center == s.camera.center && x.camera.up
                == s.camera.up
        }),
{
}

/// Whether a list of scripts has the one of a property: for the layer and the
/// property in question, with its own source, and the value that it starts
/// from.
pub open spec fn runs(
    list: Seq<PendingModel>,
    id: i64,
    target: PropTarget,
    script: Script,
    initial: InitialModel,
) -> bool {
    exists|i: int|
        0 <= i < list.len() && (#[trigger] list[i]).prop.object_id == id && list[i].prop.target == target
            && list[i].prop.effect_constant is None && list[i].source == script.source && list[i].initial
            == initial && list[i].script_props == flat_props(script.properties)
}

proof fn lemma_runs_in_sum(a: Seq<PendingModel>, b: Seq<PendingModel>, id: i64, target: PropTarget, script: Script, initial: InitialModel)
    ensures
        runs(a, id, target, script, initial) ==> runs(a + b, id, target, script, initial),
        runs(b, id, target, script, initial) ==> runs(a + b, id, target, script, initial),
{
    let s = a + b;
    if runs(a, id, target, script, initial) {
        let i = choose|i: int|
            0 <= i < a.len() && (#[trigger] a[i]).prop.object_id == id && a[i].prop.target == target
                && a[i].prop.effect_constant is None && a[i].source == script.source && a[i].initial
                == initial && a[i].script_props == flat_props(script.properties);
        assert(s[i] == a[i]);
    }
    if runs(b, id, target, script, initial) {
        let i = choose|i: int|
            0 <= i < b.len() && (#[trigger] b[i]).prop.object_id == id && b[i].prop.target == target
                && b[i].prop.effect_constant is None && b[i].source == script.source && b[i].initial
                == initial && b[i].script_props == flat_props(script.properties);
        assert(s[i + a.len()] == b[i]);
    }
}

proof fn lemma_property_runs(id: i64, field: Seq<char>, target: PropTarget, script: Script, initial: InitialModel)
    requires
        target_of(field) == Some(target),
    ensures
        runs(property_script(id, field, Some(script), initial), id, target, script, initial),
{
    let list = property_script(id, field, Some(script), initial);
    assert(list[0].prop.object_id == id);
}

/// The scripts that drive where an object stands are run, each for its own
/// property, from the value that the property has; angles are degrees.
pub proof fn law_scripts_of_a_place_are_run(o: ObjectModel, bag: crate::property::Bag, s: Script)
    ensures
        ({
            let list = object_scripts(o, bag);
            let b = o.base;
            let v = |x: (Number, Number, Number)| InitialModel::Vec(seq![x.0, x.1, x.2]);
            &&& b.origin.script == Some(s) ==> runs(list, b.id, PropTarget::Origin, s, v(b.origin.value))
            &&& b.scale.script == Some(s) ==> runs(list, b.id, PropTarget::Scale, s, v(b.scale.value))
            &&& b.angles.script == Some(s) ==> runs(
                list,
                b.id,
                PropTarget::Angles,
                s,
                v(
                    (
                        Number::Degrees(Box::new(b.angles.value.0)),
                        Number::Degrees(Box::new(b.angles.value.1)),
                        Number::Degrees(Box::new(b.angles.value.2)),
                    ),
                ),
            )
        }),
{
    lemma_property_names();
    let b = o.base;
    let v = |x: (Number, Number, Number)| InitialModel::Vec(seq![x.0, x.1, x.2]);
    let degrees = crate::scripting::in_degrees(b.angles.value);
    let a = property_script(b.id, "origin"@, b.origin.script, v(b.origin.value));
    let c = property_script(b.id, "scale"@, b.scale.script, v(b.scale.value));
    let d = property_script(b.id, "angles"@, b.angles.script, v(degrees));
    let rest = kind_scripts(o, bag);
    assert(place_scripts(b) == a + c + d);
    if b.origin.script == Some(s) {
        let x = v(b.origin.value);
        lemma_property_runs(b.id, "origin"@, PropTarget::Origin, s, x);
        lemma_runs_in_sum(a, c, b.id, PropTarget::Origin, s, x);
        lemma_runs_in_sum(a + c, d, b.id, PropTarget::Origin, s, x);
        lemma_runs_in_sum(a + c + d, rest, b.id, PropTarget::Origin, s, x);
    }
    if b.scale.script == Some(s) {
        let x = v(b.scale.value);
        lemma_property_runs(b.id, "scale"@, PropTarget::Scale, s, x);
        lemma_runs_in_sum(a, c, b.id, PropTarget::Scale, s, x);
        lemma_runs_in_sum(a + c, d, b.id, PropTarget::Scale, s, x);
        lemma_runs_in_sum(a + c + d, rest, b.id, PropTarget::Scale, s, x);
    }
    if b.angles.script == Some(s) {
        let x = v(degrees);
        lemma_property_runs(b.id, "angles"@, PropTarget::Angles, s, x);
        lemma_runs_in_sum(a + c, d, b.id, PropTarget::Angles, s, x);
        lemma_runs_in_sum(a + c + d, rest, b.id, PropTarget::Angles, s, x);
    }
}

/// The scripts that drive the look of an image are run, each for its own
/// property, from the value that the property has.
pub proof fn law_scripts_of_an_image_are_run(o: ObjectModel, bag: crate::property::Bag, i: ImageModel, s: Script)
    requires
        o.kind == KindModel::Image(i),
    ensures
        ({
            let list = object_scripts(o, bag);
            let id = o.base.id;
            &&& i.alpha.script == Some(s) ==> runs(list, id, PropTarget::Alpha, s, InitialModel::Float(i.alpha.value))
            &&& i.brightness.script == Some(s) ==> runs(
                list,
                id,
                PropTarget::Brightness,
                s,
                InitialModel::Float(i.brightness.value),
            )
            &&& i.color.script == Some(s) ==> runs(
                list,
                id,
                PropTarget::Color,
                s,
                InitialModel::Vec(seq![i.color.value.0, i.color.value.1, i.color.value.2]),
            )
            &&& i.visible.script == Some(s) ==> runs(
                list,
                id,
                PropTarget::Visible,
                s,
                InitialModel::Bool(i.visible.value),
            )
        }),
{
    lemma_property_names();
    let id = o.base.id;
    let n = i.effects.len() as int;
    let a = crate::script_setup::alpha_script(id, i.alpha);
    let b = property_script(id, "brightness"@, i.brightness.script, InitialModel::Float(i.brightness.value));
    let c = crate::script_setup::color_script(id, i.color);
    let d = crate::script_setup::visible_script(id, i.visible);
    let e = crate::script_setup::effect_scripts(id, i.effects, n);
    let place = place_scripts(o.base);
    let all = a + b + c + d + e;
    assert(kind_scripts(o, bag) == all);
    if i.alpha.script == Some(s) {
        let x = InitialModel::Float(i.alpha.value);
        lemma_property_runs(id, "alpha"@, PropTarget::Alpha, s, x);
        lemma_runs_in_sum(a, b, id, PropTarget::Alpha, s, x);
        lemma_runs_in_sum(a + b, c, id, PropTarget::Alpha, s, x);
        lemma_runs_in_sum(a + b + c, d, id, PropTarget::Alpha, s, x);
        lemma_runs_in_sum(a + b + c + d, e, id, PropTarget::Alpha, s, x);
        lemma_runs_in_sum(place, all, id, PropTarget::Alpha, s, x);
    }
    if i.brightness.script == Some(s) {
        let x = InitialModel::Float(i.brightness.value);
        lemma_property_runs(id, "brightness"@, PropTarget::Brightness, s, x);
        lemma_runs_in_sum(a, b, id, PropTarget::Brightness, s, x);
        lemma_runs_in_sum(a + b, c, id, PropTarget::Brightness, s, x);
        lemma_runs_in_sum(a + b + c, d, id, PropTarget::Brightness, s, x);
        lemma_runs_in_sum(a + b + c + d, e, id, PropTarget::Brightness, s, x);
        lemma_runs_in_sum(place, all, id, PropTarget::Brightness, s, x);
    }
    if i.color.script == Some(s) {
        let x = InitialModel::Vec(seq![i.color.value.0, i.color.value.1, i.color.value.2]);
        lemma_property_runs(id, "color"@, PropTarget::Color, s, x);
        lemma_runs_in_sum(a + b, c, id, PropTarget::Color, s, x);
        lemma_runs_in_sum(a + b + c, d, id, PropTarget::Color, s, x);
        lemma_runs_in_sum(a + b + c + d, e, id, PropTarget::Color, s, x);
        lemma_runs_in_sum(place, all, id, PropTarget::Color, s, x);
    }
    if i.visible.script == Some(s) {
        let x = InitialModel::Bool(i.visible.value);
        lemma_property_runs(id, "visible"@, PropTarget::Visible, s, x);
        lemma_runs_in_sum(a + b + c, d, id, PropTarget::Visible, s, x);
        lemma_runs_in_sum(a + b + c + d, e, id, PropTarget::Visible, s, x);
        lemma_runs_in_sum(place, all, id, PropTarget::Visible, s, x);
    }
}

/// The properties of a script are handed over by name, each with its value.
pub proof fn law_scripts_get_their_properties(m: Members, i: int, o: Members, t: Tree)
    requires
        0 <= i < m.len(),
    ensures
        flat_props(m).len() == m.len(),
        flat_props(m)[i].0 == m[i].0,
        !(m[i].1 is Table) ==> flat_props(m)[i].1 == m[i].1,
        m[i].1 == Tree::Table(o) && holds(o, "value"@, t) ==> flat_props(m)[i].1 == t,
        m[i].1 == Tree::Table(o) && lacks(o, "value"@) ==> flat_props(m)[i].1 == m[i].1,
{
    law_members_are_found_by_name(o, "value"@);
}

/// The value that a script of a constant starts from is the constant's.
pub proof fn law_scripts_start_from_their_value(b: bool, i: i64, f: Number, s: Seq<char>, v: Seq<Number>, c: (Number, Number, Number, Number))
    ensures
        dynamic_initial(Dynamic::Bool(b)) == InitialModel::Bool(b),
        dynamic_initial(Dynamic::Int(i)) == InitialModel::Int(i),
        dynamic_initial(Dynamic::Float(f)) == InitialModel::Float(f),
        dynamic_initial(Dynamic::Str(s)) == InitialModel::Str(s),
        2 <= v.len() <= 4 ==> dynamic_initial(Dynamic::Vec(v)) == InitialModel::Vec(v),
        dynamic_initial(Dynamic::Color(c)) == InitialModel::Vec(seq![c.0, c.1, c.2, c.3]),
        dynamic_initial(Dynamic::Null) == InitialModel::Null,
{
}

/// The script of an effect's constant drives the constant of that name in that
/// effect of that layer.
pub proof fn law_scripts_of_constants_are_run(
    id: i64,
    effect: usize,
    constants: Constants,
    names: Seq<Seq<char>>,
    k: int,
    i: int,
)
    requires
        0 <= i < k <= names.len(),
        constants[names[i]].script is Some,
    ensures
        exists|j: int|
            0 <= j < constant_scripts(id, effect, constants, names, k).len() && (
            #[trigger] constant_scripts(id, effect, constants, names, k)[j]).prop.object_id == id
                && constant_scripts(id, effect, constants, names, k)[j].prop.effect_constant == Some(
                (effect, names[i]),
            ) && constant_scripts(id, effect, constants, names, k)[j].source
                == constants[names[i]].script->0.source && constant_scripts(
                id,
                effect,
                constants,
                names,
                k,
            )[j].initial == dynamic_initial(constants[names[i]].value),
    decreases k,
{
    let now = constant_scripts(id, effect, constants, names, k);
    let before = constant_scripts(id, effect, constants, names, k - 1);
    if i < k - 1 {
        law_scripts_of_constants_are_run(id, effect, constants, names, k - 1, i);
        let j = choose|j: int|
            0 <= j < before.len() && (#[trigger] before[j]).prop.object_id == id
                && before[j].prop.effect_constant == Some((effect, names[i])) && before[j].source
                == constants[names[i]].script->0.source && before[j].initial == dynamic_initial(
                constants[names[i]].value,
            );
        assert(now[j] == before[j]);
    } else {
        assert(now[now.len() - 1].prop.object_id == id);
    }
}

} // verus!
