//! What scripts, animations and properties do to a scene while it runs.
use vstd::prelude::*;

use super::drawing::{hidden_above, lemma_no_hidden_parent};
use super::resolving::{follows as setting_follows, one, zero};
use crate::frame::{Tree, VideoState};
use crate::items::{
    constant_of, items_after, material_set, updated_item, Aspect, ImageItemModel, ItemModel,
    ModelItemModel, ParticleItemModel, TextItemModel,
};
use crate::object::{KindModel, ObjectModel};
use crate::orders::{act_of, calls_upto, ordered_video, Act};
use crate::params::param_values;
use crate::property::Bag;
use crate::runtime::{
    after_creation, after_removal, runtime_at, runtime_shown, template_at, updated_layer, Level,
    RuntimeModel, RuntimeState, TemplateModel,
};
use crate::scene::{CameraModel, GeneralModel, Projection};
use crate::script::{colour_of, flag_of, number_of, vector_of, Scripted};
use crate::scripting::{CameraOp, ParticleRequest, PropTarget, UpdateModel};
use crate::setup::{base_visible_upto, is_donor_id, parents_upto, scene_size, visible_upto};
use crate::stage::{
    after_destruction, after_parents, after_properties, asked_zoom, camera_after, general_after,
    visible_after, visible_rebound, StageModel,
};
use crate::transforms::{is_moved, place_line, places_after, LocalModel};
use crate::user::Setting;
use crate::value::{Dynamic, Number};
use crate::visibility::{binding_shows, visibility_bound, BindingModel};

verus! {

/// What a script's value is as a number, a vector, a colour and a flag. The
/// parts of a vector keep their order.
pub proof fn law_script_values_stand_for(b: bool, i: i64, f: u64, p: [u32; 2], v: [u32; 3], q: [u32; 4], s: Seq<char>)
    ensures
        number_of(Scripted::Float(f)) == Some(Number::Real(f)),
        number_of(Scripted::Int(i)) == Some(Number::Int(i)),
        number_of(Scripted::Bool(b)) == Some(if b {
            one()
        } else {
            zero()
        }),
        number_of(Scripted::Str(s)) is None && number_of(Scripted::Vec3(v)) is None && number_of(
            Scripted::Null,
        ) is None,
        vector_of(Scripted::Vec3(v)) == Some(
            (Number::Single(v[0]), Number::Single(v[1]), Number::Single(v[2])),
        ),
        vector_of(Scripted::Vec2(p)) == Some((Number::Single(p[0]), Number::Single(p[1]), zero())),
        vector_of(Scripted::Float(f)) == Some((Number::Real(f), Number::Real(f), Number::Real(f))),
        vector_of(Scripted::Str(s)) is None && vector_of(Scripted::Bool(b)) is None && vector_of(
            Scripted::Null,
        ) is None && vector_of(Scripted::Vec4(q)) is None && vector_of(Scripted::Int(i)) is None,
        colour_of(Scripted::Vec4(q)) == Some(
            (Number::Single(q[0]), Number::Single(q[1]), Number::Single(q[2])),
        ),
        colour_of(Scripted::Vec3(v)) == vector_of(Scripted::Vec3(v)),
        flag_of(Scripted::Bool(b)) == Some(b),
        flag_of(Scripted::Int(i)) == Some(i != 0),
        flag_of(Scripted::Float(0)) == Some(false),
        f >= 0x3ff0_0000_0000_0000 && f < 0x8000_0000_0000_0000 ==> flag_of(Scripted::Float(f)) == Some(true),
        constant_of(Scripted::Float(f)) == Some(Dynamic::Float(Number::Real(f))),
        constant_of(Scripted::Int(i)) == Some(Dynamic::Int(i)),
        constant_of(Scripted::Vec3(v)) == Some(
            Dynamic::Vec(seq![Number::Single(v[0]), Number::Single(v[1]), Number::Single(v[2])]),
        ),
        constant_of(Scripted::Vec4(q)) == Some(
            Dynamic::Vec(
                seq![
                    Number::Single(q[0]),
                    Number::Single(q[1]),
                    Number::Single(q[2]),
                    Number::Single(q[3]),
                ],
            ),
        ),
        constant_of(Scripted::Vec2(p)) == Some(
            Dynamic::Vec(seq![Number::Single(p[0]), Number::Single(p[1])]),
        ),
{
}

/// An update of a layer reaches the property that it names, and leaves the
/// others: numbers its alpha and brightness, colours its colour, flags its
/// visibility, and the first two numbers of a vector its parallax.
pub proof fn law_updates_reach_layers(o: ImageItemModel, u: UpdateModel, f: u64, v: [u32; 3], b: bool)
    requires
        u.object_id == o.id,
        !u.in_degrees,
    ensures
        ({
            let after = updated_item(ItemModel::Image(o), u, Aspect::State);
            &&& u.target == PropTarget::Alpha && u.value == Scripted::Float(f) ==> after
                == ItemModel::Image(ImageItemModel { alpha: Number::Real(f), ..o })
            &&& u.target == PropTarget::Brightness && u.value == Scripted::Float(f) ==> after
                == ItemModel::Image(ImageItemModel { brightness: Number::Real(f), ..o })
            &&& u.target == PropTarget::Color && u.value == Scripted::Vec3(v) ==> after
                == ItemModel::Image(
                ImageItemModel {
                    color: (Number::Single(v[0]), Number::Single(v[1]), Number::Single(v[2])),
                    ..o
                },
            )
            &&& u.target == PropTarget::Visible && u.value == Scripted::Bool(b) ==> after
                == ItemModel::Image(ImageItemModel { visible: b, ..o })
            &&& u.target == PropTarget::ParallaxDepth && u.value == Scripted::Vec3(v) ==> after
                == ItemModel::Image(
                ImageItemModel { parallax_depth: (Number::Single(v[0]), Number::Single(v[1])), ..o },
            )
            &&& u.target == PropTarget::Text || u.target == PropTarget::Volume || u.value
                == Scripted::Null ==> after == ItemModel::Image(o)
        }),
{
}

/// An update of a text reaches what it names: its words, its place, its size,
/// its colour, its alpha or its visibility.
pub proof fn law_updates_reach_texts(t: TextItemModel, u: UpdateModel, f: u64, v: [u32; 3], b: bool, s: Seq<char>)
    requires
        u.object_id == t.id,
        !u.in_degrees,
    ensures
        u.target == PropTarget::Visible && u.value == Scripted::Bool(b) ==> updated_item(
            ItemModel::Text(t),
            u,
            Aspect::State,
        ) == ItemModel::Text(TextItemModel { visible: b, ..t }),
        u.target == PropTarget::Origin && u.value == Scripted::Vec3(v) ==> updated_item(
            ItemModel::Text(t),
            u,
            Aspect::Place,
        ) == ItemModel::Text(
            TextItemModel { origin: (Number::Single(v[0]), Number::Single(v[1])), ..t },
        ),
        u.target == PropTarget::Scale && u.value == Scripted::Vec3(v) ==> updated_item(
            ItemModel::Text(t),
            u,
            Aspect::Place,
        ) == ItemModel::Text(
            TextItemModel { scale: (Number::Single(v[0]), Number::Single(v[1])), ..t },
        ),
        u.target == PropTarget::Color && u.value == Scripted::Vec3(v) ==> updated_item(
            ItemModel::Text(t),
            u,
            Aspect::Tint,
        ) == ItemModel::Text(
            TextItemModel {
                tint: (Number::Single(v[0]), Number::Single(v[1]), Number::Single(v[2])),
                ..t
            },
        ),
        u.target == PropTarget::Alpha && u.value == Scripted::Float(f) ==> updated_item(
            ItemModel::Text(t),
            u,
            Aspect::Tint,
        ) == ItemModel::Text(TextItemModel { alpha: Number::Real(f), ..t }),
        u.target == PropTarget::Text && u.value == Scripted::Str(s) ==> updated_item(
            ItemModel::Text(t),
            u,
            Aspect::Words,
        ) == ItemModel::Text(TextItemModel { text: s, ..t }),
{
}

/// An update of a particle system reaches its rate or its visibility, and one
/// of a model its place, its size, its angles or its visibility.
pub proof fn law_updates_reach_particles_and_models(
    p: ParticleItemModel,
    m: ModelItemModel,
    u: UpdateModel,
    f: u64,
    v: [u32; 3],
    b: bool,
)
    requires
        u.object_id == p.id,
        u.object_id == m.id,
        !u.in_degrees,
    ensures
        u.target == PropTarget::ParticleRate && u.value == Scripted::Float(f) ==> updated_item(
            ItemModel::Particle(p),
            u,
            Aspect::State,
        ) == ItemModel::Particle(ParticleItemModel { rate: Some(Number::Real(f)), ..p }),
        u.target == PropTarget::Visible && u.value == Scripted::Bool(b) ==> updated_item(
            ItemModel::Particle(p),
            u,
            Aspect::State,
        ) == ItemModel::Particle(ParticleItemModel { visible: b, ..p }) && updated_item(
            ItemModel::Model(m),
            u,
            Aspect::State,
        ) == ItemModel::Model(ModelItemModel { visible: b, ..m }),
        u.value == Scripted::Vec3(v) ==> {
            let x = (Number::Single(v[0]), Number::Single(v[1]), Number::Single(v[2]));
            let after = updated_item(ItemModel::Model(m), u, Aspect::State);
            &&& u.target == PropTarget::Origin ==> after == ItemModel::Model(
                ModelItemModel { origin: x, ..m },
            )
            &&& u.target == PropTarget::Scale ==> after == ItemModel::Model(
                ModelItemModel { scale: x, ..m },
            )
            &&& u.target == PropTarget::Angles ==> after == ItemModel::Model(
                ModelItemModel { angles: x, ..m },
            )
        },
{
}

/// Angles that a script gives are degrees, and become radians before they
/// reach a layer.
pub proof fn law_scripted_angles_are_degrees(u: UpdateModel, v: [u32; 3])
    requires
        u.value == Scripted::Vec3(v),
    ensures
        u.in_degrees ==> u.vector() == Some(
            (
                Number::Radians(Box::new(Number::Single(v[0]))),
                Number::Radians(Box::new(Number::Single(v[1]))),
                Number::Radians(Box::new(Number::Single(v[2]))),
            ),
        ),
        !u.in_degrees ==> u.vector() == Some(
            (Number::Single(v[0]), Number::Single(v[1]), Number::Single(v[2])),
        ),
{
}

/// Updates are made one after the other, so that the last of several counts;
/// no item is lost or moved.
pub proof fn law_updates_are_made_in_turn(
    items: Seq<ItemModel>,
    updates: Seq<UpdateModel>,
    u: UpdateModel,
    aspect: Aspect,
    i: int,
)
    requires
        0 <= i < items.len(),
    ensures
        items_after(items, Seq::empty(), aspect, 0) == items,
        items_after(items, updates.push(u), aspect, updates.len() as int + 1).len() == items.len(),
        items_after(items, updates.push(u), aspect, updates.len() as int + 1)[i] == updated_item(
            items_after(items, updates, aspect, updates.len() as int)[i],
            u,
            aspect,
        ),
{
    lemma_items_after(items, updates.push(u), updates, aspect, updates.len() as int);
}

proof fn lemma_items_after(items: Seq<ItemModel>, a: Seq<UpdateModel>, b: Seq<UpdateModel>, aspect: Aspect, k: int)
    requires
        0 <= k <= a.len(),
        k <= b.len(),
        forall|i: int| 0 <= i < k ==> a[i] == b[i],
    ensures
        items_after(items, a, aspect, k) == items_after(items, b, aspect, k),
        items_after(items, a, aspect, k).len() == items.len(),
    decreases k,
{
    if k > 0 {
        lemma_items_after(items, a, b, aspect, k - 1);
    }
}

/// A constant that a script sets reaches the passes of the layer's effect that
/// it names, under its name, and nothing else; the values that the shaders
/// get are worked out anew.
pub proof fn law_scripted_constants_reach_their_effect(
    items: Seq<ItemModel>,
    layer: i64,
    effect: usize,
    name: Seq<char>,
    value: Scripted,
    i: int,
    p: int,
    other: Seq<char>,
)
    requires
        0 <= i < items.len(),
        constant_of(value) is Some,
    ensures
        material_set(items, layer, effect, name, value).len() == items.len(),
        items[i].id() != layer || !(items[i] is Image) ==> material_set(items, layer, effect, name, value)[i] == items[i],
        items[i] matches ItemModel::Image(o) ==> o.id == layer ==> (material_set(
            items,
            layer,
            effect,
            name,
            value,
        )[i] matches ItemModel::Image(n) && n == (ImageItemModel { passes: n.passes, ..o })
            && n.passes.len() == o.passes.len() && (0 <= p < o.passes.len() ==> {
            let was = o.passes[p];
            let now = n.passes[p];
            &&& was.effect_index != Some(effect) ==> now == was
            &&& was.effect_index == Some(effect) ==> {
                &&& now.material.constants.contains_key(name)
                &&& now.material.constants[name].value == constant_of(value)->0
                &&& now.material.constants[name].user is None
                &&& now.material.constants[name].script is None
                &&& other != name && was.material.constants.contains_key(other)
                    ==> now.material.constants[other] == was.material.constants[other]
                &&& now.material.textures == was.material.textures
                &&& now.material.combos == was.material.combos
                &&& now.material.shader == was.material.shader
                &&& now.vs_params == param_values(
                    now.material.constants,
                    was.params_vs,
                    was.params_vs.len() as int,
                )
                &&& now.fs_params == param_values(
                    now.material.constants,
                    was.params_fs,
                    was.params_fs.len() as int,
                )
                &&& now.effect_index == was.effect_index
            }
        })),
{
}

/// A property of the scene that a script sets is the one that it names: the
/// value goes there, and the others stay.
pub proof fn law_scripted_scenes_change_what_is_named(g: GeneralModel, name: Seq<char>, b: bool, f: u64, v: [u32; 3])
    ensures
        ({
            let n = Number::Real(f);
            let c = (Number::Single(v[0]), Number::Single(v[1]), Number::Single(v[2]), one());
            let flag = |x: Seq<char>| general_after(g, x, Scripted::Bool(b));
            let number = |x: Seq<char>| general_after(g, x, Scripted::Float(f));
            let color = |x: Seq<char>| general_after(g, x, Scripted::Vec3(v));
            &&& flag("bloom"@) == (GeneralModel { bloom: Setting { value: b, ..g.bloom }, ..g })
            &&& flag("camerafade"@) == (GeneralModel {
                camerafade: Setting { value: b, ..g.camerafade },
                ..g
            })
            &&& flag("camerashake"@) == (GeneralModel {
                camerashake: Setting { value: b, ..g.camerashake },
                ..g
            })
            &&& flag("cameraparallax"@) == (GeneralModel {
                cameraparallax: Setting { value: b, ..g.cameraparallax },
                ..g
            })
            &&& number("bloomstrength"@) == (GeneralModel {
                bloomstrength: Setting { value: n, ..g.bloomstrength },
                ..g
            })
            &&& number("bloomthreshold"@) == (GeneralModel {
                bloomthreshold: Setting { value: n, ..g.bloomthreshold },
                ..g
            })
            &&& number("camerashakespeed"@) == (GeneralModel {
                camerashakespeed: Setting { value: n, ..g.camerashakespeed },
                ..g
            })
            &&& number("camerashakeamplitude"@) == (GeneralModel {
                camerashakeamplitude: Setting { value: n, ..g.camerashakeamplitude },
                ..g
            })
            &&& number("camerashakeroughness"@) == (GeneralModel {
                camerashakeroughness: Setting { value: n, ..g.camerashakeroughness },
                ..g
            })
            &&& number("cameraparallaxamount"@) == (GeneralModel {
                cameraparallaxamount: Setting { value: n, ..g.cameraparallaxamount },
                ..g
            })
            &&& number("cameraparallaxdelay"@) == (GeneralModel {
                cameraparallaxdelay: Setting { value: n, ..g.cameraparallaxdelay },
                ..g
            })
            &&& number("cameraparallaxmouseinfluence"@) == (GeneralModel {
                cameraparallaxmouseinfluence: Setting { value: n, ..g.cameraparallaxmouseinfluence },
                ..g
            })
            &&& color("clearcolor"@) == (GeneralModel {
                clearcolor: Setting { value: c, ..g.clearcolor },
                ..g
            })
            &&& color("ambientcolor"@) == (GeneralModel {
                ambientcolor: Setting { value: c, ..g.ambientcolor },
                ..g
            })
            &&& color("skylightcolor"@) == (GeneralModel {
                skylightcolor: Setting { value: c, ..g.skylightcolor },
                ..g
            })
        }),
        general_after(g, name, Scripted::Null) == g,
{
    lemma_scene_names();
}

proof fn lemma_scene_names()
    ensures
        "bloom"@ != "bloomstrength"@,
        "bloom"@ != "bloomthreshold"@,
        "bloom"@ != "camerafade"@,
        "bloom"@ != "camerashake"@,
        "bloom"@ != "camerashakespeed"@,
        "bloom"@ != "camerashakeamplitude"@,
        "bloom"@ != "camerashakeroughness"@,
        "bloom"@ != "cameraparallax"@,
        "bloom"@ != "cameraparallaxamount"@,
        "bloom"@ != "cameraparallaxdelay"@,
        "bloom"@ != "cameraparallaxmouseinfluence"@,
        "bloom"@ != "clearcolor"@,
        "bloom"@ != "ambientcolor"@,
        "bloom"@ != "skylightcolor"@,
        "bloomstrength"@ != "bloomthreshold"@,
        "bloomstrength"@ != "camerafade"@,
        "bloomstrength"@ != "camerashake"@,
        "bloomstrength"@ != "camerashakespeed"@,
        "bloomstrength"@ != "camerashakeamplitude"@,
        "bloomstrength"@ != "camerashakeroughness"@,
        "bloomstrength"@ != "cameraparallax"@,
        "bloomstrength"@ != "cameraparallaxamount"@,
        "bloomstrength"@ != "cameraparallaxdelay"@,
        "bloomstrength"@ != "cameraparallaxmouseinfluence"@,
        "bloomstrength"@ != "clearcolor"@,
        "bloomstrength"@ != "ambientcolor"@,
        "bloomstrength"@ != "skylightcolor"@,
        "bloomthreshold"@ != "camerafade"@,
        "bloomthreshold"@ != "camerashake"@,
        "bloomthreshold"@ != "camerashakespeed"@,
        "bloomthreshold"@ != "camerashakeamplitude"@,
        "bloomthreshold"@ != "camerashakeroughness"@,
        "bloomthreshold"@ != "cameraparallax"@,
        "bloomthreshold"@ != "cameraparallaxamount"@,
        "bloomthreshold"@ != "cameraparallaxdelay"@,
        "bloomthreshold"@ != "cameraparallaxmouseinfluence"@,
        "bloomthreshold"@ != "clearcolor"@,
        "bloomthreshold"@ != "ambientcolor"@,
        "bloomthreshold"@ != "skylightcolor"@,
        "camerafade"@ != "camerashake"@,
        "camerafade"@ != "camerashakespeed"@,
        "camerafade"@ != "camerashakeamplitude"@,
        "camerafade"@ != "camerashakeroughness"@,
        "camerafade"@ != "cameraparallax"@,
        "camerafade"@ != "cameraparallaxamount"@,
        "camerafade"@ != "cameraparallaxdelay"@,
        "camerafade"@ != "cameraparallaxmouseinfluence"@,
        "camerafade"@ != "clearcolor"@,
        "camerafade"@ != "ambientcolor"@,
        "camerafade"@ != "skylightcolor"@,
        "camerashake"@ != "camerashakespeed"@,
        "camerashake"@ != "camerashakeamplitude"@,
        "camerashake"@ != "camerashakeroughness"@,
        "camerashake"@ != "cameraparallax"@,
        "camerashake"@ != "cameraparallaxamount"@,
        "camerashake"@ != "cameraparallaxdelay"@,
        "camerashake"@ != "cameraparallaxmouseinfluence"@,
        "camerashake"@ != "clearcolor"@,
        "camerashake"@ != "ambientcolor"@,
        "camerashake"@ != "skylightcolor"@,
        "camerashakespeed"@ != "camerashakeamplitude"@,
        "camerashakespeed"@ != "camerashakeroughness"@,
        "camerashakespeed"@ != "cameraparallax"@,
        "camerashakespeed"@ != "cameraparallaxamount"@,
        "camerashakespeed"@ != "cameraparallaxdelay"@,
        "camerashakespeed"@ != "cameraparallaxmouseinfluence"@,
        "camerashakespeed"@ != "clearcolor"@,
        "camerashakespeed"@ != "ambientcolor"@,
        "camerashakespeed"@ != "skylightcolor"@,
        "camerashakeamplitude"@ != "camerashakeroughness"@,
        "camerashakeamplitude"@ != "cameraparallax"@,
        "camerashakeamplitude"@ != "cameraparallaxamount"@,
        "camerashakeamplitude"@ != "cameraparallaxdelay"@,
        "camerashakeamplitude"@ != "cameraparallaxmouseinfluence"@,
        "camerashakeamplitude"@ != "clearcolor"@,
        "camerashakeamplitude"@ != "ambientcolor"@,
        "camerashakeamplitude"@ != "skylightcolor"@,
        "camerashakeroughness"@ != "cameraparallax"@,
        "camerashakeroughness"@ != "cameraparallaxamount"@,
        "camerashakeroughness"@ != "cameraparallaxdelay"@,
        "camerashakeroughness"@ != "cameraparallaxmouseinfluence"@,
        "camerashakeroughness"@ != "clearcolor"@,
        "camerashakeroughness"@ != "ambientcolor"@,
        "camerashakeroughness"@ != "skylightcolor"@,
        "cameraparallax"@ != "cameraparallaxamount"@,
        "cameraparallax"@ != "cameraparallaxdelay"@,
        "cameraparallax"@ != "cameraparallaxmouseinfluence"@,
        "cameraparallax"@ != "clearcolor"@,
        "cameraparallax"@ != "ambientcolor"@,
        "cameraparallax"@ != "skylightcolor"@,
        "cameraparallaxamount"@ != "cameraparallaxdelay"@,
        "cameraparallaxamount"@ != "cameraparallaxmouseinfluence"@,
        "cameraparallaxamount"@ != "clearcolor"@,
        "cameraparallaxamount"@ != "ambientcolor"@,
        "cameraparallaxamount"@ != "skylightcolor"@,
        "cameraparallaxdelay"@ != "cameraparallaxmouseinfluence"@,
        "cameraparallaxdelay"@ != "clearcolor"@,
        "cameraparallaxdelay"@ != "ambientcolor"@,
        "cameraparallaxdelay"@ != "skylightcolor"@,
        "cameraparallaxmouseinfluence"@ != "clearcolor"@,
        "cameraparallaxmouseinfluence"@ != "ambientcolor"@,
        "cameraparallaxmouseinfluence"@ != "skylightcolor"@,
        "clearcolor"@ != "ambientcolor"@,
        "clearcolor"@ != "skylightcolor"@,
        "ambientcolor"@ != "skylightcolor"@,
{
    reveal_strlit("bloom");
    reveal_strlit("bloomstrength");
    reveal_strlit("bloomthreshold");
    reveal_strlit("camerafade");
    reveal_strlit("camerashake");
    reveal_strlit("camerashakespeed");
    reveal_strlit("camerashakeamplitude");
    reveal_strlit("camerashakeroughness");
    reveal_strlit("cameraparallax");
    reveal_strlit("cameraparallaxamount");
    reveal_strlit("cameraparallaxdelay");
    reveal_strlit("cameraparallaxmouseinfluence");
    reveal_strlit("clearcolor");
    reveal_strlit("ambientcolor");
    reveal_strlit("skylightcolor");
    assert("bloom"@.len() == 5);
    assert("bloomstrength"@.len() == 13);
    assert("bloomthreshold"@.len() == 14);
    assert("camerafade"@.len() == 10);
    assert("camerashake"@.len() == 11);
    assert("camerashakespeed"@.len() == 16);
    assert("camerashakeamplitude"@.len() == 20);
    assert("camerashakeroughness"@.len() == 20);
    assert("cameraparallax"@.len() == 14);
    assert("cameraparallaxamount"@.len() == 20);
    assert("cameraparallaxdelay"@.len() == 19);
    assert("cameraparallaxmouseinfluence"@.len() == 28);
    assert("clearcolor"@.len() == 10);
    assert("ambientcolor"@.len() == 12);
    assert("skylightcolor"@.len() == 13);
    assert("bloomstrength"@[0] == 'b' && "skylightcolor"@[0] == 's');
    assert("bloomthreshold"@[0] == 'b' && "cameraparallax"@[0] == 'c');
    assert("camerafade"@[1] == 'a' && "clearcolor"@[1] == 'l');
    assert("camerashakeamplitude"@[11] == 'a' && "camerashakeroughness"@[11] == 'r');
    assert("camerashakeamplitude"@[6] == 's' && "cameraparallaxamount"@[6] == 'p');
    assert("camerashakeroughness"@[6] == 's' && "cameraparallaxamount"@[6] == 'p');
}

/// A camera that a script moves goes where the script says, and keeps what the
/// script does not say.
pub proof fn law_scripted_cameras_move(c: CameraModel, op: CameraOp, v: [u32; 3], f: u32)
    ensures
        camera_after(c, None) == c,
        ({
            let x = (Number::Single(v[0]), Number::Single(v[1]), Number::Single(v[2]));
            let after = camera_after(c, Some(op));
            &&& op.eye == Some(v) ==> after.eye == x
            &&& op.center == Some(v) ==> after.center == x
            &&& op.up == Some(v) ==> after.up == x
            &&& op.fov == Some(f) ==> after.fov.value == Number::Single(f) && after.fov.user == c.fov.user
            &&& op.eye is None ==> after.eye == c.eye
            &&& op.center is None ==> after.center == c.center
            &&& op.up is None ==> after.up == c.up
            &&& op.fov is None ==> after.fov == c.fov
            &&& after.nearz == c.nearz && after.farz == c.farz && after.projection == c.projection
        }),
        op.zoom == Some(f) && 0 < f <= 0x7f80_0000 ==> asked_zoom(Some(op)) == Some(f),
        op.zoom is None || op.zoom == Some(0u32) ==> asked_zoom(Some(op)) is None,
        asked_zoom(None) is None,
{
}

/// A layer that a script destroys is gone where scripts made it, and hidden
/// for good where the scene had it; no other layer is touched.
pub proof fn law_destroyed_layers_leave_the_others(s: StageModel, id: i64, other: i64, i: int)
    requires
        0 <= i < s.items.len(),
    ensures
        ({
            let after = after_destruction(s, id);
            &&& after.items.len() == s.items.len()
            &&& s.items[i].id() != id ==> after.items[i] == s.items[i]
            &&& (forall|l: int| 0 <= l < s.runtime.layers.len() ==> (#[trigger] s.runtime.layers[l]).id != id)
                ==> {
                &&& after.visible.contains_key(id) && !after.visible[id]
                &&& other != id && s.visible.contains_key(other) ==> after.visible[other]
                    == s.visible[other]
                &&& s.items[i].id() == id ==> !after.items[i].visible()
                &&& after.runtime == s.runtime
            }
            &&& after.parents == s.parents && after.general == s.general && after.camera == s.camera
        }),
{
    lemma_runtime_at(s.runtime.layers, id, 0);
}

proof fn lemma_runtime_at(layers: Seq<RuntimeModel>, id: i64, from: int)
    requires
        0 <= from <= layers.len(),
    ensures
        match runtime_at(layers, id, from) {
            Some(i) => from <= i < layers.len() && layers[i].id == id && forall|j: int|
                from <= j < i ==> (#[trigger] layers[j]).id != id,
            None => forall|j: int| from <= j < layers.len() ==> (#[trigger] layers[j]).id != id,
        },
    decreases layers.len() - from,
{
    if from < layers.len() && layers[from].id != id {
        lemma_runtime_at(layers, id, from + 1);
    }
}

/// A layer that a script makes is behind all others, where the scene begins,
/// in its own size, white, opaque and visible, with the texture and the tint
/// of its template.
pub proof fn law_made_layers_start_plain(
    s: RuntimeState,
    id: i64,
    path: Seq<char>,
    templates: Seq<TemplateModel>,
    i: int,
)
    requires
        forall|l: int| 0 <= l < s.layers.len() ==> (#[trigger] s.layers[l]).id != id,
        s.next < i64::MAX,
    ensures
        ({
            let after = after_creation(s, id, path, templates);
            let l = after.layers.last();
            &&& after.layers.len() == s.layers.len() + 1
            &&& 0 <= i < s.layers.len() ==> after.layers[i] == s.layers[i]
            &&& after.next == s.next + 1
            &&& l.id == id && l.order == s.next && l.visible
            &&& l.origin == (zero(), zero(), zero())
            &&& l.scale == (one(), one(), one())
            &&& l.angles == (zero(), zero(), zero())
            &&& l.color == (one(), one(), one())
            &&& l.alpha == Level::Single(0x3f80_0000)
            &&& 0 <= i < templates.len() && templates[i].path == path && (forall|j: int|
                0 <= j < i ==> (#[trigger] templates[j]).path != path) ==> l.texture
                == templates[i].texture && l.tint == templates[i].tint && l.tint_alpha
                == templates[i].alpha
            &&& templates.len() == 0 ==> l.texture is None && l.tint == (one(), one(), one())
                && l.tint_alpha == one()
        }),
{
    lemma_runtime_at(s.layers, id, 0);
    if 0 <= i < templates.len() && templates[i].path == path && (forall|j: int|
        0 <= j < i ==> (#[trigger] templates[j]).path != path) {
        lemma_template_at(templates, path, 0, i);
    }
}

proof fn lemma_template_at(templates: Seq<TemplateModel>, path: Seq<char>, from: int, i: int)
    requires
        0 <= from <= i < templates.len(),
        templates[i].path == path,
        forall|j: int| 0 <= j < i ==> (#[trigger] templates[j]).path != path,
    ensures
        template_at(templates, path, from) == Some(i),
    decreases i - from,
{
    if from < i {
        assert(templates[from].path != path);
        lemma_template_at(templates, path, from + 1, i);
    }
}

/// A layer that is removed is gone, and the others keep their order.
pub proof fn law_removed_layers_are_gone(s: RuntimeState, id: i64, i: int)
    requires
        0 <= i < s.layers.len(),
        s.layers[i].id == id,
        forall|a: int, b: int|
            0 <= a < b < s.layers.len() ==> (#[trigger] s.layers[a]).id != (#[trigger] s.layers[b]).id,
    ensures
        after_removal(s, id).layers.len() == s.layers.len() - 1,
        forall|j: int|
            0 <= j < after_removal(s, id).layers.len() ==> (#[trigger] after_removal(s, id).layers[j]).id
                != id,
        forall|j: int| 0 <= j < i ==> #[trigger] after_removal(s, id).layers[j] == s.layers[j],
        forall|j: int| i <= j < s.layers.len() - 1 ==> #[trigger] after_removal(s, id).layers[j] == s.layers[j + 1],
        after_removal(s, id).next == s.next,
{
    lemma_runtime_at(s.layers, id, 0);
    let at = runtime_at(s.layers, id, 0)->0;
    assert(at == i) by {
        if at < i {
            assert(s.layers[at].id != s.layers[i].id);
        } else if i < at {
            assert(s.layers[i].id != s.layers[at].id);
        }
    }
}

/// An update of a layer that a script made reaches the property that it names,
/// and no other layer.
pub proof fn law_updates_reach_made_layers(l: RuntimeModel, u: UpdateModel, f: u64, v: [u32; 3], b: bool)
    ensures
        l.id != u.object_id ==> updated_layer(l, u) == l,
        l.id == u.object_id ==> {
            let x = (Number::Single(v[0]), Number::Single(v[1]), Number::Single(v[2]));
            let after = updated_layer(l, u);
            &&& u.value == Scripted::Vec3(v) ==> {
                &&& u.target == PropTarget::Origin ==> after == (RuntimeModel { origin: x, ..l })
                &&& u.target == PropTarget::Scale ==> after == (RuntimeModel { scale: x, ..l })
                &&& u.target == PropTarget::Angles ==> after == (RuntimeModel { angles: x, ..l })
                &&& u.target == PropTarget::Color ==> after == (RuntimeModel { color: x, ..l })
            }
            &&& u.target == PropTarget::Alpha && u.value == Scripted::Float(f) ==> after == (
            RuntimeModel { alpha: Level::Real(f), ..l })
            &&& u.target == PropTarget::Visible && u.value == Scripted::Bool(b) ==> after == (
            RuntimeModel { visible: b, ..l })
        },
{
}

/// A layer that a script made is seen where it is visible, not see-through,
/// and none of the objects above it is hidden.
pub proof fn law_made_layers_are_seen(l: RuntimeModel, tree: Tree, b: u32)
    ensures
        !l.visible ==> !runtime_shown(l, tree),
        l.alpha == Level::Single(0) || l.alpha == Level::Int(0) || l.alpha == Level::Real(0)
            ==> !runtime_shown(l, tree),
        l.visible && l.alpha == Level::Single(b) && 0 < b <= 0x7f80_0000 ==> (runtime_shown(l, tree)
            <==> (forall|n: nat|
            0 < n <= 64 ==> !#[trigger] hidden_above(tree.parents@, tree.visible@, Some(l.id), n))),
{
    lemma_no_hidden_parent(tree, l.id);
}

/// A video runs as a script tells it: `play` lets it run, `pause` and `stop`
/// hold it, and any other word changes nothing.
pub proof fn law_videos_do_as_they_are_told(v: VideoState, cmd: Seq<char>)
    ensures
        !ordered_video(v, "play"@).script_paused,
        ordered_video(v, "pause"@).script_paused,
        ordered_video(v, "stop"@).script_paused,
        cmd != "play"@ && cmd != "pause"@ && cmd != "stop"@ ==> ordered_video(v, cmd) == v,
        ordered_video(v, cmd).paused == v.paused,
{
    reveal_strlit("play");
    reveal_strlit("pause");
    reveal_strlit("stop");
    assert("play"@[0] == 'p' && "stop"@[0] == 's' && "play"@.len() == 4 && "pause"@.len() == 5
        && "stop"@.len() == 4);
}

/// What a script asks of a particle system is what the system is told.
pub proof fn law_particle_systems_do_as_they_are_told(id: i64, n: u32, f: u64, v: [u32; 3], name: Seq<char>, cmd: Seq<char>)
    ensures
        act_of(ParticleRequest::Command { id, cmd: "play"@ }) == Some(Act::Play),
        act_of(ParticleRequest::Command { id, cmd: "pause"@ }) == Some(Act::Pause),
        act_of(ParticleRequest::Command { id, cmd: "stop"@ }) == Some(Act::Stop),
        cmd != "play"@ && cmd != "pause"@ && cmd != "stop"@ ==> act_of(
            ParticleRequest::Command { id, cmd },
        ) is None,
        act_of(ParticleRequest::Emit { id, count: n }) == Some(Act::Emit(n)),
        act_of(ParticleRequest::Instance { id, name: "colorn"@, value: Scripted::Vec3(v) }) == Some(
            Act::Color((Number::Single(v[0]), Number::Single(v[1]), Number::Single(v[2]))),
        ),
        name.len() < 12 && name != "colorn"@ ==> act_of(
            ParticleRequest::Instance { id, name, value: Scripted::Float(f) },
        ) == Some(Act::Scalar { name, value: Number::Real(f) }),
{
    reveal_strlit("play");
    reveal_strlit("pause");
    reveal_strlit("stop");
    reveal_strlit("colorn");
    reveal_strlit("controlpoint");
    assert("play"@[0] == 'p' && "stop"@[0] == 's' && "play"@.len() == 4 && "pause"@.len() == 5
        && "stop"@.len() == 4 && "colorn"@.len() == 6 && "controlpoint"@.len() == 12);
}

/// What is asked of an object goes to the particle systems with its id, and to
/// them alone.
pub proof fn law_orders_reach_their_system(items: Seq<ItemModel>, id: i64, act: Act, k: int, i: int)
    requires
        0 <= k <= items.len() <= usize::MAX,
        0 <= i < k,
    ensures
        items[i] is Particle && items[i].id() == id ==> calls_upto(items, id, act, k).contains((i as usize, act)),
        forall|c: int|
            0 <= c < calls_upto(items, id, act, k).len() ==> ((#[trigger] calls_upto(items, id, act, k)[c]).0
                < k && calls_upto(items, id, act, k)[c].1 == act && items[calls_upto(items, id, act, k)[c].0 as int] is Particle
                && items[calls_upto(items, id, act, k)[c].0 as int].id() == id),
    decreases k,
{
    let now = calls_upto(items, id, act, k);
    let before = calls_upto(items, id, act, k - 1);
    if i < k - 1 {
        law_orders_reach_their_system(items, id, act, k - 1, i);
        if items[i] is Particle && items[i].id() == id {
            let j = before.index_of((i as usize, act));
            assert(now[j] == before[j]);
        }
    } else {
        if items[i] is Particle && items[i].id() == id {
            assert(now[now.len() - 1] == (i as usize, act));
        }
        if k > 1 {
            law_orders_reach_their_system(items, id, act, k - 1, 0);
        }
    }
    assert forall|c: int| 0 <= c < now.len() implies ((#[trigger] now[c]).0 < k && now[c].1 == act
        && items[now[c].0 as int] is Particle && items[now[c].0 as int].id() == id) by {
        if c < before.len() {
            assert(now[c] == before[c]);
        }
    }
}

/// What a script shows or hides is so from then on; the last word counts.
pub proof fn law_scripts_show_and_hide(visible: Map<i64, bool>, updates: Seq<UpdateModel>, u: UpdateModel, b: bool, id: i64)
    ensures
        ({
            let n = updates.len() as int;
            let before = visible_after(visible, updates, n);
            let after = visible_after(visible, updates.push(u), n + 1);
            &&& u.target == PropTarget::Visible && u.value == Scripted::Bool(b) ==> after.contains_key(
                u.object_id,
            ) && after[u.object_id] == b
            &&& id != u.object_id ==> (after.contains_key(id) <==> before.contains_key(id)) && (
            before.contains_key(id) ==> after[id] == before[id])
            &&& u.target != PropTarget::Visible ==> after == before
        }),
        visible_after(visible, Seq::empty(), 0) == visible,
{
    lemma_visible_after(visible, updates.push(u), updates, updates.len() as int);
}

proof fn lemma_visible_after(visible: Map<i64, bool>, a: Seq<UpdateModel>, b: Seq<UpdateModel>, k: int)
    requires
        0 <= k <= a.len(),
        k <= b.len(),
        forall|i: int| 0 <= i < k ==> a[i] == b[i],
    ensures
        visible_after(visible, a, k) == visible_after(visible, b, k),
    decreases k,
{
    if k > 0 {
        lemma_visible_after(visible, a, b, k - 1);
    }
}

/// An object hangs from the one that a script hangs it from.
pub proof fn law_scripts_hang_objects(s: StageModel, updates: Seq<(i64, i64)>, i: int)
    requires
        updates.len() > 0,
        0 <= i < s.items.len(),
    ensures
        ({
            let n = updates.len() as int;
            let after = after_parents(s, updates, n);
            let before = after_parents(s, updates, n - 1);
            let u = updates[n - 1];
            &&& after.parents.contains_key(u.0) && after.parents[u.0] == Some(u.1)
            &&& after.items.len() == s.items.len()
            &&& forall|id: i64| #[trigger] before.parents.contains_key(id) && id != u.0 ==> after.parents[id] == before.parents[id]
            &&& before.items[i] matches ItemModel::Image(o) ==> after.items[i] == ItemModel::Image(
                ImageItemModel {
                    parent: if o.id == u.0 {
                        Some(u.1)
                    } else {
                        o.parent
                    },
                    ..o
                },
            )
            &&& !(before.items[i] is Image) ==> after.items[i] == before.items[i]
            &&& after.visible == s.visible && after.runtime == s.runtime
        }),
{
    lemma_after_parents(s, updates, updates.len() as int);
    lemma_after_parents(s, updates, updates.len() - 1);
}

proof fn lemma_after_parents(s: StageModel, updates: Seq<(i64, i64)>, k: int)
    ensures
        after_parents(s, updates, k).items.len() == s.items.len(),
        after_parents(s, updates, k).visible == s.visible,
        after_parents(s, updates, k).runtime == s.runtime,
    decreases k,
{
    if k > 0 {
        lemma_after_parents(s, updates, k - 1);
    }
}

/// An object whose visibility follows a property is shown again or hidden when
/// the properties change: where its own setting and that of its image are on.
pub proof fn law_properties_show_and_hide(s: StageModel, bag: Bag, k: int)
    requires
        0 <= k < s.bindings.len(),
        forall|j: int| k < j < s.bindings.len() ==> (#[trigger] s.bindings[j]).id != s.bindings[k].id,
    ensures
        ({
            let after = after_properties(s, bag);
            let b = s.bindings[k];
            let now = after.bindings[k];
            &&& after.bindings.len() == s.bindings.len()
            &&& now.id == b.id
            &&& setting_follows::<bool>(b.base, now.base, bag)
            &&& (now.image is Some <==> b.image is Some)
            &&& b.image is Some ==> setting_follows::<bool>(b.image->0, now.image->0, bag)
            &&& after.visible.contains_key(b.id)
            &&& after.visible[b.id] == (now.base.value && (now.image is Some ==> now.image->0.value))
        }),
{
    let after = after_properties(s, bag);
    assert forall|j: int| k < j < after.bindings.len() implies (#[trigger] after.bindings[j]).id
        != after.bindings[k].id by {
        assert(s.bindings[j].id != s.bindings[k].id);
    }
    lemma_visible_rebound(s.visible, after.bindings, k, after.bindings.len() as int);
}

proof fn lemma_visible_rebound(visible: Map<i64, bool>, bindings: Seq<BindingModel>, i: int, k: int)
    requires
        0 <= i < k <= bindings.len(),
        forall|j: int| i < j < k ==> (#[trigger] bindings[j]).id != bindings[i].id,
    ensures
        visible_rebound(visible, bindings, k).contains_key(bindings[i].id),
        visible_rebound(visible, bindings, k)[bindings[i].id] == binding_shows(bindings[i]),
    decreases k,
{
    if i < k - 1 {
        assert(bindings[k - 1].id != bindings[i].id);
        lemma_visible_rebound(visible, bindings, i, k - 1);
    }
}

/// The objects whose visibility follows a property are those of which the own
/// setting or that of the image names one.
pub proof fn law_bindings_name_a_property(o: ObjectModel)
    ensures
        o.base.visible.user is Some ==> visibility_bound(o),
        o.kind matches KindModel::Image(i) ==> i.visible.user is Some ==> visibility_bound(o),
        o.base.visible.user is None && !(o.kind is Image) ==> !visibility_bound(o),
        o.base.visible.user is None && (o.kind matches KindModel::Image(i) && i.visible.user is None) ==> !visibility_bound(o),
{
}

/// A scene knows of every object what it hangs from, and whether it is
/// visible: by its own setting, and for an image by the image's too.
pub proof fn law_scenes_know_their_tree(objects: Seq<ObjectModel>, i: int)
    requires
        0 <= i < objects.len(),
        forall|a: int, b: int|
            0 <= a < b < objects.len() ==> (#[trigger] objects[a]).base.id != (#[trigger] objects[b]).base.id,
    ensures
        ({
            let n = objects.len() as int;
            let id = objects[i].base.id;
            &&& parents_upto(objects, n).contains_key(id)
            &&& parents_upto(objects, n)[id] == objects[i].base.parent
            &&& visible_upto(objects, n).contains_key(id)
            &&& visible_upto(objects, n)[id] == (objects[i].base.visible.value && (objects[i].kind matches
                KindModel::Image(x) ==> x.visible.value))
        }),
{
    let n = objects.len() as int;
    lemma_parents(objects, i, n);
    lemma_visible(objects, i, n);
}

proof fn lemma_parents(objects: Seq<ObjectModel>, i: int, k: int)
    requires
        0 <= i < k <= objects.len(),
        forall|a: int, b: int|
            0 <= a < b < objects.len() ==> (#[trigger] objects[a]).base.id != (#[trigger] objects[b]).base.id,
    ensures
        parents_upto(objects, k).contains_key(objects[i].base.id),
        parents_upto(objects, k)[objects[i].base.id] == objects[i].base.parent,
        base_visible_upto(objects, k).contains_key(objects[i].base.id),
        base_visible_upto(objects, k)[objects[i].base.id] == objects[i].base.visible.value,
    decreases k,
{
    if i < k - 1 {
        assert(objects[i].base.id != objects[k - 1].base.id);
        lemma_parents(objects, i, k - 1);
    }
}

proof fn lemma_visible(objects: Seq<ObjectModel>, i: int, k: int)
    requires
        0 <= i < objects.len(),
        0 <= k <= objects.len(),
        forall|a: int, b: int|
            0 <= a < b < objects.len() ==> (#[trigger] objects[a]).base.id != (#[trigger] objects[b]).base.id,
    ensures
        visible_upto(objects, k).contains_key(objects[i].base.id),
        visible_upto(objects, k)[objects[i].base.id] == (objects[i].base.visible.value && (i < k ==> (
        objects[i].kind matches KindModel::Image(x) ==> x.visible.value))),
    decreases k,
{
    if k <= 0 {
        lemma_parents(objects, i, objects.len() as int);
    } else {
        lemma_visible(objects, i, k - 1);
        if i < k - 1 {
            assert(objects[i].base.id != objects[k - 1].base.id);
        } else if i > k - 1 {
            assert(objects[k - 1].base.id != objects[i].base.id);
        }
    }
}

/// A layer is drawn for the sake of others where it is an image that another
/// object depends on.
pub proof fn law_layers_that_others_need(objects: Seq<ObjectModel>, a: int, b: int, id: i64)
    requires
        0 <= a < objects.len(),
        0 <= b < objects.len(),
    ensures
        objects[a].base.id == id && objects[a].kind is Image && objects[b].base.id != id
            && objects[b].base.dependencies.contains(id) ==> is_donor_id(objects, id),
        (forall|i: int| 0 <= i < objects.len() ==> !(#[trigger] objects[i]).base.dependencies.contains(id))
            ==> !is_donor_id(objects, id),
{
}

/// The size of a scene is the one that it states; one that states none has the
/// size of its largest content, else of the screen, else 1920 by 1080.
pub proof fn law_scenes_have_their_size(width: i64, height: i64, extent: (u32, u32), output: (u32, u32))
    ensures
        0 < width <= u32::MAX && 0 < height <= u32::MAX ==> scene_size(
            Projection::Orthogonal { width, height },
            extent,
            output,
        ) == (width as u32, height as u32),
        width <= 0 || height <= 0 ==> scene_size(
            Projection::Orthogonal { width, height },
            extent,
            output,
        ) == scene_size(Projection::Auto, extent, output),
        extent.0 > 0 && extent.1 > 0 ==> scene_size(Projection::Auto, extent, output) == extent,
        (extent.0 == 0 || extent.1 == 0) && output.0 > 0 && output.1 > 0 ==> scene_size(
            Projection::Auto,
            extent,
            output,
        ) == output,
        (extent.0 == 0 || extent.1 == 0) && (output.0 == 0 || output.1 == 0) ==> scene_size(
            Projection::Auto,
            extent,
            output,
        ) == (1920u32, 1080u32),
{
}

/// An object that a script moves, scales or turns stands as the script says;
/// what it hangs from, and the other objects, stay.
pub proof fn law_moved_objects_stand_where_told(
    m: Map<i64, LocalModel>,
    updates: Seq<UpdateModel>,
    u: UpdateModel,
    v: [u32; 3],
    id: i64,
)
    requires
        u.value == Scripted::Vec3(v),
        !u.in_degrees,
    ensures
        ({
            let n = updates.len() as int;
            let before = places_after(m, updates, n);
            let after = places_after(m, updates.push(u), n + 1);
            let x = (Number::Single(v[0]), Number::Single(v[1]));
            &&& after.dom() == before.dom()
            &&& id != u.object_id && before.contains_key(id) ==> after[id] == before[id]
            &&& before.contains_key(u.object_id) ==> {
                let was = before[u.object_id];
                let now = after[u.object_id];
                &&& u.target == PropTarget::Origin ==> now == (LocalModel { origin: x, ..was })
                &&& u.target == PropTarget::Scale ==> now == (LocalModel { scale: x, ..was })
                &&& u.target == PropTarget::Angles ==> now == (LocalModel {
                    angle_z: Number::Single(v[2]),
                    ..was
                })
                &&& u.target == PropTarget::Alpha || u.target == PropTarget::Color || u.target == PropTarget::Visible ==> now == was
            }
        }),
        places_after(m, Seq::empty(), 0) == m,
{
    lemma_places_after(m, updates.push(u), updates, updates.len() as int);
    assert(places_after(m, updates.push(u), updates.len() as int + 1).dom() =~= places_after(m, updates, updates.len() as int).dom());
}

proof fn lemma_places_after(m: Map<i64, LocalModel>, a: Seq<UpdateModel>, b: Seq<UpdateModel>, k: int)
    requires
        0 <= k <= a.len(),
        k <= b.len(),
        forall|i: int| 0 <= i < k ==> a[i] == b[i],
    ensures
        places_after(m, a, k) == places_after(m, b, k),
    decreases k,
{
    if k > 0 {
        lemma_places_after(m, a, b, k - 1);
    }
}

/// An object moves where it was moved itself, or the object that it hangs
/// from was.
pub proof fn law_objects_move_with_their_parents(m: Map<i64, LocalModel>, ids: Seq<i64>, id: i64, parent: i64)
    ensures
        ids.contains(id) ==> is_moved(m, ids, id),
        m.contains_key(id) && m[id].parent == Some(parent) && ids.contains(parent) ==> is_moved(m, ids, id),
        !ids.contains(id) && (!m.contains_key(id) || m[id].parent is None) ==> !is_moved(m, ids, id),
{
}

/// The places from an object up to the one that hangs from nothing are its
/// own, its parent's, and so on.
pub proof fn law_places_from_the_object_upwards(m: Map<i64, LocalModel>, id: i64, steps: nat)
    requires
        m.contains_key(id),
        steps > 0,
    ensures
        place_line(m, Some(id), steps).len() > 0,
        place_line(m, Some(id), steps)[0] == m[id],
        place_line(m, Some(id), steps).skip(1) == place_line(m, m[id].parent, (steps - 1) as nat),
        place_line(m, None, steps).len() == 0,
{
    let line = place_line(m, Some(id), steps);
    let rest = place_line(m, m[id].parent, (steps - 1) as nat);
    assert(line == seq![m[id]] + rest);
    assert(line.skip(1) =~= rest);
}

} // verus!
