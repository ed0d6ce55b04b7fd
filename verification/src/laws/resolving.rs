//! What user properties make of the settings that follow them.
use vstd::prelude::*;

use super::members::{holds, lacks, law_members_are_found_by_name};
use crate::json::{Members, Tree};
use crate::material::PassModel;
use crate::object::{EffectModel, ImageModel, KindModel, ParticleModel, TextModel};
use crate::property::{
    channels_of, declared_upto, reread, Bag, Property, PropertyKind, Resolvable, TextReading,
};
use crate::resolve::{
    resolved, resolved_camera, resolved_constants, resolved_effect, resolved_entry,
    resolved_general, resolved_image, resolved_material, resolved_particle, resolved_props,
    resolved_scene, resolved_text,
};
use crate::scene::{CameraModel, GeneralModel, SceneModelView};
use crate::user::{Constants, Reference, Setting};
use crate::value::{trimmed, Color, Dynamic, DynamicValue, Number, Scalar, Vec2, Vec3};

verus! {

/// The single 1.
pub open spec fn one() -> Number {
    Number::Single(0x3f80_0000)
}

/// The single 0.
pub open spec fn zero() -> Number {
    Number::Single(0)
}

/// Whether a property, written out, is the text `t`.
pub open spec fn written(p: Property, t: Seq<char>) -> bool {
    match p {
        Property::Bool(true) => t == "true"@,
        Property::Bool(false) => t == "false"@,
        Property::Number { bits: _, single: _, shown } => t == shown,
        Property::Color { rgba: _, shown } => t == shown,
        Property::Combo { text, single: _ } => t == text,
        Property::Text { text, single: _ } => t == text,
    }
}

/// Whether a condition holds: there is the property, and its text is the one
/// that the condition names.
pub open spec fn met(bag: Bag, name: Seq<char>, condition: Seq<char>) -> bool {
    bag.contains_key(name) && written(bag[name], condition)
}

/// A setting under a condition is on where the property has the text that the
/// condition names, and off where it has another or where there is none.
pub proof fn law_conditions_switch_settings(
    bag: Bag,
    name: Seq<char>,
    condition: Seq<char>,
    flag: Setting<bool>,
    number: Setting<Number>,
    whole: Setting<i64>,
    text: Setting<Seq<char>>,
    pair: Setting<(Number, Number)>,
    triple: Setting<(Number, Number, Number)>,
    color: Setting<(Number, Number, Number, Number)>,
    value: Setting<Dynamic>,
)
    requires
        flag.user == Some(Reference::Conditional { name, condition }),
        number.user == flag.user,
        whole.user == flag.user,
        text.user == flag.user,
        pair.user == flag.user,
        triple.user == flag.user,
        color.user == flag.user,
        value.user == flag.user,
    ensures
        resolved::<bool>(flag, bag).value <==> met(bag, name, condition),
        met(bag, name, condition) ==> {
            &&& resolved::<Scalar>(number, bag).value == one()
            &&& resolved::<i64>(whole, bag).value == 1
            &&& resolved::<String>(text, bag).value == "true"@
            &&& resolved::<Vec2>(pair, bag).value == (one(), one())
            &&& resolved::<Vec3>(triple, bag).value == (one(), one(), one())
            &&& resolved::<Color>(color, bag).value == (one(), one(), one(), one())
            &&& resolved::<DynamicValue>(value, bag).value == Dynamic::Bool(true)
        },
        !met(bag, name, condition) ==> {
            &&& resolved::<Scalar>(number, bag).value == zero()
            &&& resolved::<i64>(whole, bag).value == 0
            &&& resolved::<String>(text, bag).value == "false"@
            &&& resolved::<Vec2>(pair, bag).value == (zero(), zero())
            &&& resolved::<Vec3>(triple, bag).value == (zero(), zero(), zero())
            &&& resolved::<Color>(color, bag).value == (zero(), zero(), zero(), one())
            &&& resolved::<DynamicValue>(value, bag).value == Dynamic::Bool(false)
        },
{
}

/// The number that the bits of a single are.
pub open spec fn single(bits: u32) -> Number {
    Number::Single(bits)
}

/// A setting that follows a property takes the property's value in its own
/// kind: a number from a slider, a colour from a colour, a flag from a flag,
/// a text from anything.
pub proof fn law_settings_take_their_property(
    bag: Bag,
    name: Seq<char>,
    flag: Setting<bool>,
    number: Setting<Number>,
    text: Setting<Seq<char>>,
    pair: Setting<(Number, Number)>,
    triple: Setting<(Number, Number, Number)>,
    color: Setting<(Number, Number, Number, Number)>,
    value: Setting<Dynamic>,
)
    requires
        bag.contains_key(name),
        flag.user == Some(Reference::Name(name)),
        number.user == flag.user,
        text.user == flag.user,
        pair.user == flag.user,
        triple.user == flag.user,
        color.user == flag.user,
        value.user == flag.user,
    ensures
        written(bag[name], resolved::<String>(text, bag).value),
        forall|b: bool|
            bag[name] == Property::Bool(b) ==> {
                &&& resolved::<bool>(flag, bag).value == b
                &&& resolved::<Scalar>(number, bag).value == (if b {
                    one()
                } else {
                    zero()
                })
                &&& resolved::<DynamicValue>(value, bag).value == Dynamic::Bool(b)
            },
        forall|bits: u64, x: u32, shown: Seq<char>|
            bag[name] == (Property::Number { bits, single: x, shown }) ==> {
                &&& resolved::<bool>(flag, bag).value == (x != 0 && x != 0x8000_0000)
                &&& resolved::<Scalar>(number, bag).value == single(x)
                &&& resolved::<Vec2>(pair, bag).value == (single(x), single(x))
                &&& resolved::<Vec3>(triple, bag).value == (single(x), single(x), single(x))
                &&& resolved::<Color>(color, bag).value == (single(x), single(x), single(x), one())
                &&& resolved::<DynamicValue>(value, bag).value == Dynamic::Float(Number::Real(bits))
            },
        forall|rgba: [u32; 4], shown: Seq<char>|
            bag[name] == (Property::Color { rgba, shown }) ==> {
                &&& resolved::<Scalar>(number, bag).value == single(rgba[0])
                &&& resolved::<Vec2>(pair, bag).value == (single(rgba[0]), single(rgba[1]))
                &&& resolved::<Vec3>(triple, bag).value == (
                    single(rgba[0]),
                    single(rgba[1]),
                    single(rgba[2]),
                )
                &&& resolved::<Color>(color, bag).value == (
                    single(rgba[0]),
                    single(rgba[1]),
                    single(rgba[2]),
                    single(rgba[3]),
                )
                &&& resolved::<DynamicValue>(value, bag).value == Dynamic::Color(
                    (single(rgba[0]), single(rgba[1]), single(rgba[2]), single(rgba[3])),
                )
            },
        forall|t: Seq<char>, x: u32|
            bag[name] == (Property::Combo { text: t, single: x }) || bag[name] == (Property::Text {
                text: t,
                single: x,
            }) ==> {
                &&& resolved::<bool>(flag, bag).value == (t == "1"@ || t == "true"@ || t == "True"@ || t
                    == "TRUE"@)
                &&& resolved::<Scalar>(number, bag).value == single(x)
                &&& resolved::<DynamicValue>(value, bag).value == Dynamic::Str(t)
            },
{
}

/// Whether one setting is what the bag makes of another: it keeps what drives
/// it, and its value changes only where a property decides it.
pub open spec fn follows<T: Resolvable>(before: Setting<T::V>, after: Setting<T::V>, bag: Bag) -> bool {
    &&& after.user == before.user
    &&& before.script is Some <==> after.script is Some
    &&& before.script is Some ==> {
        &&& after.script->0.source == before.script->0.source
        &&& after.script->0.properties == resolved_props(before.script->0.properties, bag)
    }
    &&& match before.user {
        None => after.value == before.value,
        Some(Reference::Name(name)) => if bag.contains_key(name) {
            after.value == T::taken(bag[name])
        } else {
            after.value == before.value
        },
        Some(Reference::Conditional { name, condition }) => if met(bag, name, condition) {
            after.value == T::judged(true)
        } else {
            after.value == T::judged(false)
        },
    }
}

/// Resolving a setting gives it what its property or its condition asks for.
pub proof fn law_settings_follow<T: Resolvable>(s: Setting<T::V>, bag: Bag)
    ensures
        follows::<T>(s, resolved::<T>(s, bag), bag),
{
}

/// The properties of a script keep their names and places. One with a value
/// and a property takes the property's value, one under a condition is whether
/// the condition holds, and without the property the value stands.
pub proof fn law_script_properties_follow(m: Members, bag: Bag, i: int, o: Members, fallback: Tree)
    requires
        0 <= i < m.len(),
    ensures
        resolved_props(m, bag).len() == m.len(),
        resolved_props(m, bag)[i].0 == m[i].0,
        !(m[i].1 is Table) ==> resolved_props(m, bag)[i].1 == m[i].1,
        m[i].1 == Tree::Table(o) && lacks(o, "value"@) ==> resolved_props(m, bag)[i].1 == m[i].1,
        m[i].1 == Tree::Table(o) && holds(o, "value"@, fallback) ==> {
            let after = resolved_props(m, bag)[i].1;
            &&& lacks(o, "user"@) ==> after == fallback
            &&& forall|name: Seq<char>| #[trigger]
                holds(o, "user"@, Tree::Text(name)) ==> (if bag.contains_key(name) {
                    match bag[name] {
                        Property::Bool(b) => after == Tree::Bool(b),
                        Property::Number { bits, single: _, shown: _ } => after == Tree::Null || after
                            == Tree::Real(bits),
                        Property::Color { rgba: _, shown } => after == Tree::Text(shown),
                        Property::Combo { text, single: _ } => after == Tree::Text(text),
                        Property::Text { text, single: _ } => after == Tree::Text(text),
                    }
                } else {
                    after == fallback
                })
            &&& forall|u: Members, name: Seq<char>, condition: Seq<char>|
                #![trigger holds(o, "user"@, Tree::Table(u)), holds(u, "name"@, Tree::Text(name)), holds(u, "condition"@, Tree::Text(condition))]
                holds(o, "user"@, Tree::Table(u)) && holds(u, "name"@, Tree::Text(name)) && holds(
                    u,
                    "condition"@,
                    Tree::Text(condition),
                ) ==> after == (if bag.contains_key(name) {
                    Tree::Bool(met(bag, name, condition))
                } else {
                    fallback
                })
        },
{
    law_members_are_found_by_name(o, "value"@);
    law_members_are_found_by_name(o, "user"@);
    assert forall|u: Members, name: Seq<char>, condition: Seq<char>|
        #![trigger holds(o, "user"@, Tree::Table(u)), holds(u, "name"@, Tree::Text(name)), holds(u, "condition"@, Tree::Text(condition))]
        m[i].1 == Tree::Table(o) && holds(o, "value"@, fallback) && holds(o, "user"@, Tree::Table(u))
            && holds(u, "name"@, Tree::Text(name)) && holds(
            u,
            "condition"@,
            Tree::Text(condition),
        ) implies resolved_props(m, bag)[i].1 == (if bag.contains_key(name) {
        Tree::Bool(met(bag, name, condition))
    } else {
        fallback
    }) by {
        law_members_are_found_by_name(u, "name"@);
        law_members_are_found_by_name(u, "condition"@);
    }
}

/// A number that a script is given is the number itself where it is finite,
/// and null where it is not.
pub proof fn law_numbers_reach_scripts(o: Members, bag: Bag, name: Seq<char>, fallback: Tree, bits: u64, x: u32, shown: Seq<char>)
    requires
        holds(o, "value"@, fallback),
        holds(o, "user"@, Tree::Text(name)),
        bag.contains_key(name),
        bag[name] == (Property::Number { bits, single: x, shown }),
    ensures
        (bits / 0x10_0000_0000_0000) % 2048 < 2047 ==> resolved_entry(Tree::Table(o), bag)
            == Tree::Real(bits),
        (bits / 0x10_0000_0000_0000) % 2048 == 2047 ==> resolved_entry(Tree::Table(o), bag) == Tree::Null,
{
    law_members_are_found_by_name(o, "value"@);
    law_members_are_found_by_name(o, "user"@);
}

/// The constants of a pass keep their names, and each of them follows.
pub open spec fn constants_follow(before: Constants, after: Constants, bag: Bag) -> bool {
    &&& after.dom() == before.dom()
    &&& forall|name: Seq<char>|
        before.contains_key(name) ==> follows::<DynamicValue>(
            before[name],
            #[trigger] after[name],
            bag,
        )
}

/// Whether the passes of a material keep everything but their constants, which
/// follow.
pub open spec fn passes_follow(before: Seq<PassModel>, after: Seq<PassModel>, bag: Bag) -> bool {
    &&& after.len() == before.len()
    &&& forall|i: int|
        0 <= i < before.len() ==> {
            let a = #[trigger] after[i];
            let b = before[i];
            &&& constants_follow(b.constants, a.constants, bag)
            &&& a.shader == b.shader
            &&& a.blending == b.blending
            &&& a.cullmode == b.cullmode
            &&& a.depthtest == b.depthtest
            &&& a.depthwrite == b.depthwrite
            &&& a.textures == b.textures
            &&& a.usertextures == b.usertextures
            &&& a.combos == b.combos
        }
}

/// The constants of every pass of a material follow the properties.
pub proof fn law_materials_follow(m: Seq<PassModel>, bag: Bag)
    ensures
        passes_follow(m, resolved_material(m, bag), bag),
{
    assert forall|i: int| 0 <= i < m.len() implies constants_follow(
        m[i].constants,
        (#[trigger] resolved_material(m, bag)[i]).constants,
        bag,
    ) by {
        lemma_constants_follow(m[i].constants, bag);
    }
}

proof fn lemma_constants_follow(c: Constants, bag: Bag)
    ensures
        constants_follow(c, resolved_constants(c, bag), bag),
{
    assert(resolved_constants(c, bag).dom() =~= c.dom());
}

/// The settings of an effect follow: whether it is visible, the constants that
/// the image gives its passes, and the constants of its own materials.
pub proof fn law_effects_follow(e: EffectModel, bag: Bag, i: int)
    ensures
        ({
            let after = resolved_effect(e, bag);
            &&& after.file == e.file && after.id == e.id && after.name == e.name
            &&& follows::<bool>(e.visible, after.visible, bag)
            &&& after.passes.len() == e.passes.len()
            &&& 0 <= i < e.passes.len() ==> {
                &&& constants_follow(e.passes[i].constants, after.passes[i].constants, bag)
                &&& after.passes[i].combos == e.passes[i].combos
                &&& after.passes[i].textures == e.passes[i].textures
                &&& after.passes[i].id == e.passes[i].id
            }
            &&& (after.resolved is Some <==> e.resolved is Some)
            &&& e.resolved is Some ==> {
                let f = e.resolved->0;
                let g = after.resolved->0;
                &&& g.fbos == f.fbos && g.name == f.name
                &&& g.passes.len() == f.passes.len()
                &&& 0 <= i < f.passes.len() ==> {
                    &&& g.passes[i].bind == f.passes[i].bind
                    &&& g.passes[i].command == f.passes[i].command
                    &&& g.passes[i].source == f.passes[i].source
                    &&& g.passes[i].target == f.passes[i].target
                    &&& (g.passes[i].resolved is Some <==> f.passes[i].resolved is Some)
                    &&& f.passes[i].resolved is Some ==> passes_follow(
                        f.passes[i].resolved->0,
                        g.passes[i].resolved->0,
                        bag,
                    )
                }
            }
        }),
{
    if 0 <= i < e.passes.len() {
        lemma_constants_follow(e.passes[i].constants, bag);
    }
    if e.resolved is Some {
        let f = e.resolved->0;
        if 0 <= i < f.passes.len() && f.passes[i].resolved is Some {
            law_materials_follow(f.passes[i].resolved->0, bag);
        }
    }
}

/// Every setting of an image follows, and what is no setting stays.
pub proof fn law_images_follow(x: ImageModel, bag: Bag, i: int)
    ensures
        ({
            let after = resolved_image(x, bag);
            &&& follows::<Vec3>(x.scale, after.scale, bag)
            &&& follows::<Vec3>(x.angles, after.angles, bag)
            &&& follows::<bool>(x.visible, after.visible, bag)
            &&& follows::<Scalar>(x.alpha, after.alpha, bag)
            &&& follows::<Color>(x.color, after.color, bag)
            &&& follows::<Vec2>(x.parallax_depth, after.parallax_depth, bag)
            &&& follows::<i64>(x.color_blend_mode, after.color_blend_mode, bag)
            &&& follows::<Scalar>(x.brightness, after.brightness, bag)
            &&& after.image == x.image && after.model == x.model && after.alignment == x.alignment
                && after.size == x.size && after.instance == x.instance
            &&& (after.material is Some <==> x.material is Some)
            &&& x.material is Some ==> passes_follow(x.material->0, after.material->0, bag)
            &&& after.effects.len() == x.effects.len()
            &&& 0 <= i < x.effects.len() ==> after.effects[i] == resolved_effect(x.effects[i], bag)
            &&& after.animationlayers.len() == x.animationlayers.len()
            &&& 0 <= i < x.animationlayers.len() ==> {
                let l = x.animationlayers[i];
                let m = after.animationlayers[i];
                &&& m.id == l.id
                &&& follows::<Scalar>(l.rate, m.rate, bag)
                &&& follows::<bool>(l.visible, m.visible, bag)
                &&& follows::<Scalar>(l.blend, m.blend, bag)
                &&& follows::<i64>(l.animation, m.animation, bag)
            }
        }),
{
    if x.material is Some {
        law_materials_follow(x.material->0, bag);
    }
}

/// Every setting of a text follows, and what is no setting stays.
pub proof fn law_texts_follow(x: TextModel, bag: Bag)
    ensures
        ({
            let after = resolved_text(x, bag);
            &&& follows::<String>(x.text, after.text, bag)
            &&& follows::<Scalar>(x.pointsize, after.pointsize, bag)
            &&& follows::<Vec3>(x.scale, after.scale, bag)
            &&& follows::<Color>(x.color, after.color, bag)
            &&& follows::<Scalar>(x.alpha, after.alpha, bag)
            &&& follows::<bool>(x.visible, after.visible, bag)
            &&& after.font == x.font && after.size == x.size && after.horizontalalign
                == x.horizontalalign && after.verticalalign == x.verticalalign && after.padding
                == x.padding && after.limitwidth == x.limitwidth && after.maxwidth == x.maxwidth
        }),
{
}

/// Every setting of a particle system follows, and so do the constants of its
/// stages and of its material.
pub proof fn law_particles_follow(x: ParticleModel, bag: Bag, i: int)
    ensures
        ({
            let after = resolved_particle(x, bag);
            let s = x.system;
            let t = after.system;
            let o = x.instanceoverride;
            let p = after.instanceoverride;
            &&& follows::<Vec3>(x.scale, after.scale, bag)
            &&& follows::<Vec3>(x.angles, after.angles, bag)
            &&& follows::<bool>(x.visible, after.visible, bag)
            &&& follows::<Vec2>(x.parallax_depth, after.parallax_depth, bag)
            &&& after.particle_file == x.particle_file
            &&& follows::<bool>(o.enabled, p.enabled, bag)
            &&& follows::<Scalar>(o.alpha, p.alpha, bag)
            &&& follows::<Scalar>(o.size, p.size, bag)
            &&& follows::<Scalar>(o.lifetime, p.lifetime, bag)
            &&& follows::<Scalar>(o.rate, p.rate, bag)
            &&& follows::<Scalar>(o.speed, p.speed, bag)
            &&& follows::<Scalar>(o.count, p.count, bag)
            &&& follows::<Vec3>(o.color, p.color, bag)
            &&& follows::<Vec3>(o.colorn, p.colorn, bag)
            &&& t.emitters == s.emitters
            &&& t.initializers.len() == s.initializers.len()
            &&& t.operators.len() == s.operators.len()
            &&& 0 <= i < s.initializers.len() ==> t.initializers[i].name == s.initializers[i].name
                && constants_follow(s.initializers[i].params, t.initializers[i].params, bag)
            &&& 0 <= i < s.operators.len() ==> t.operators[i].name == s.operators[i].name
                && constants_follow(s.operators[i].params, t.operators[i].params, bag)
            &&& (t.resolved_material is Some <==> s.resolved_material is Some)
            &&& s.resolved_material is Some ==> passes_follow(
                s.resolved_material->0,
                t.resolved_material->0,
                bag,
            )
        }),
{
    let s = x.system;
    if 0 <= i < s.initializers.len() {
        lemma_constants_follow(s.initializers[i].params, bag);
    }
    if 0 <= i < s.operators.len() {
        lemma_constants_follow(s.operators[i].params, bag);
    }
    if s.resolved_material is Some {
        law_materials_follow(s.resolved_material->0, bag);
    }
}

/// The settings of the camera and of the general section follow.
pub proof fn law_the_stage_follows(c: CameraModel, g: GeneralModel, bag: Bag)
    ensures
        follows::<Scalar>(c.fov, resolved_camera(c, bag).fov, bag),
        ({
            let after = resolved_general(g, bag);
            &&& follows::<Color>(g.ambientcolor, after.ambientcolor, bag)
            &&& follows::<Color>(g.skylightcolor, after.skylightcolor, bag)
            &&& follows::<Color>(g.clearcolor, after.clearcolor, bag)
            &&& follows::<bool>(g.camerafade, after.camerafade, bag)
            &&& follows::<bool>(g.bloom, after.bloom, bag)
            &&& follows::<Scalar>(g.bloomstrength, after.bloomstrength, bag)
            &&& follows::<Scalar>(g.bloomthreshold, after.bloomthreshold, bag)
            &&& follows::<bool>(g.cameraparallax, after.cameraparallax, bag)
            &&& follows::<Scalar>(g.cameraparallaxamount, after.cameraparallaxamount, bag)
            &&& follows::<Scalar>(g.cameraparallaxdelay, after.cameraparallaxdelay, bag)
            &&& follows::<Scalar>(
                g.cameraparallaxmouseinfluence,
                after.cameraparallaxmouseinfluence,
                bag,
            )
            &&& follows::<bool>(g.camerashake, after.camerashake, bag)
            &&& follows::<Scalar>(g.camerashakeamplitude, after.camerashakeamplitude, bag)
            &&& follows::<Scalar>(g.camerashakeroughness, after.camerashakeroughness, bag)
            &&& follows::<Scalar>(g.camerashakespeed, after.camerashakespeed, bag)
        }),
{
}

/// Resolving a scene keeps its objects in their places, with their kinds; and
/// where an object stands, how it is turned and scaled, and whether it is
/// visible follow.
pub proof fn law_objects_follow(s: SceneModelView, bag: Bag, i: int)
    requires
        0 <= i < s.objects.len(),
    ensures
        resolved_scene(s, bag).objects.len() == s.objects.len(),
        ({
            let b = s.objects[i];
            let a = resolved_scene(s, bag).objects[i];
            &&& a.extra == b.extra
            &&& a.base.id == b.base.id && a.base.name == b.base.name && a.base.parent == b.base.parent
                && a.base.sortorder == b.base.sortorder && a.base.dependencies == b.base.dependencies
                && a.base.attachment == b.base.attachment && a.base.angles_animation
                == b.base.angles_animation
            &&& follows::<Vec3>(b.base.origin, a.base.origin, bag)
            &&& follows::<Vec3>(b.base.scale, a.base.scale, bag)
            &&& follows::<Vec3>(b.base.angles, a.base.angles, bag)
            &&& follows::<bool>(b.base.visible, a.base.visible, bag)
            &&& forall|x: ImageModel|
                b.kind == KindModel::Image(x) ==> a.kind == KindModel::Image(resolved_image(x, bag))
            &&& forall|x: ParticleModel|
                b.kind == KindModel::Particle(x) ==> a.kind == KindModel::Particle(
                    resolved_particle(x, bag),
                )
            &&& forall|x: TextModel|
                b.kind == KindModel::Text(x) ==> a.kind == KindModel::Text(resolved_text(x, bag))
            &&& !(b.kind is Image) && !(b.kind is Particle) && !(b.kind is Text) ==> a.kind == b.kind
        }),
{
}

/// What a project declares is in the bag, under its name, with the value that
/// it starts with; of two declarations of one name, the later.
pub proof fn law_declared_properties_start(entries: Seq<(String, PropertyKind)>, k: int, i: int)
    requires
        0 <= i < k <= entries.len(),
        forall|j: int| i < j < k ==> (#[trigger] entries[j]).0@ != entries[i].0@,
    ensures
        declared_upto(entries, k).contains_key(entries[i].0@),
        ({
            let p = declared_upto(entries, k)[entries[i].0@];
            match entries[i].1 {
                PropertyKind::Bool { on } => p == Property::Bool(on),
                PropertyKind::Slider { bits, single, shown } => p == (Property::Number {
                    bits,
                    single,
                    shown: shown@,
                }),
                PropertyKind::Color { rgb, shown } => p matches Property::Color {
                    rgba,
                    shown: written,
                } && written == shown@ && rgba[0] == rgb[0] && rgba[1] == rgb[1] && rgba[2] == rgb[2]
                    && rgba[3] == 0x3f80_0000,
                PropertyKind::Combo { value, single } => p == (Property::Combo { text: value@, single }),
                PropertyKind::Text => p == (Property::Text { text: Seq::empty(), single: 0 }),
                PropertyKind::TextInput { value, single } => p == (Property::Text {
                    text: value@,
                    single,
                }),
                PropertyKind::UserShortcut { value, single } => p == (Property::Text {
                    text: value@,
                    single,
                }),
                PropertyKind::File { value, single } => p == (Property::Text { text: value@, single }),
                PropertyKind::Directory { value, single } => p == (Property::Text {
                    text: value@,
                    single,
                }),
                PropertyKind::SceneTexture { value, single } => p == (Property::Text {
                    text: value@,
                    single,
                }),
            }
        }),
    decreases k,
{
    if i < k - 1 {
        assert(entries[k - 1].0@ != entries[i].0@);
        law_declared_properties_start(entries, k - 1, i);
    }
}

/// Nothing is in the bag that the project does not declare.
pub proof fn law_only_declared_properties(entries: Seq<(String, PropertyKind)>, k: int, name: Seq<char>)
    requires
        0 <= k <= entries.len(),
        forall|j: int| 0 <= j < k ==> (#[trigger] entries[j]).0@ != name,
    ensures
        !declared_upto(entries, k).contains_key(name),
    decreases k,
{
    if k > 0 {
        law_only_declared_properties(entries, k - 1, name);
        assert(entries[k - 1].0@ != name);
    }
}

/// A text gives a property a value of the kind that the property has: a flag
/// is on for the four words that mean it, a number and a colour are what the
/// text reads as, a choice is the text without the space around it, and a text
/// is the text itself.
pub proof fn law_texts_are_read_in_kind(current: Property, raw: Seq<char>, reading: TextReading)
    ensures
        current is Bool ==> reread(current, raw, reading) == Some(
            Property::Bool(
                trimmed(raw) == "1"@ || trimmed(raw) == "true"@ || trimmed(raw) == "True"@ || trimmed(
                    raw,
                ) == "TRUE"@,
            ),
        ),
        current is Number ==> (reread(current, raw, reading) is Some <==> reading.number is Some),
        current is Number && reading.number is Some ==> reread(current, raw, reading) == Some(
            Property::Number {
                bits: reading.number->0.bits,
                single: reading.number->0.single,
                shown: reading.number->0.shown@,
            },
        ),
        current is Combo ==> reread(current, raw, reading) == Some(
            Property::Combo { text: trimmed(raw), single: reading.trimmed_single },
        ),
        current is Text ==> reread(current, raw, reading) == Some(
            Property::Text { text: raw, single: reading.single },
        ),
{
}

/// A colour needs at least one number, and no word among the first four that
/// is none. The words are red, green, blue and alpha; what is missing is black
/// and opaque.
pub proof fn law_colors_are_read_in_order(current: Property, raw: Seq<char>, reading: TextReading, i: int)
    requires
        current is Color,
    ensures
        reading.channels@.len() == 0 ==> reread(current, raw, reading) is None,
        0 <= i < 4 && i < reading.channels@.len() && reading.channels@[i] is None ==> reread(
            current,
            raw,
            reading,
        ) is None,
        reading.channels@.len() > 0 && (forall|j: int|
            0 <= j < 4 && j < reading.channels@.len() ==> (#[trigger] reading.channels@[j]) is Some)
            ==> (reread(current, raw, reading) matches Some(Property::Color { rgba, shown }) && shown
            == reading.color_shown@ && (0 <= i < 4 ==> rgba[i] == (if i < reading.channels@.len() {
            reading.channels@[i]->0
        } else if i < 3 {
            0
        } else {
            0x3f80_0000
        }))),
{
    let words = reading.channels@;
    if words.len() > 0 && (forall|j: int|
        0 <= j < 4 && j < words.len() ==> (#[trigger] words[j]) is Some) {
        assert(channels_of(words) is Some);
        assert(0 <= i < 4 ==> i == 0 || i == 1 || i == 2 || i == 3);
    }
}

} // verus!
