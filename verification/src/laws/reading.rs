//! What the members of a document give the fields that are read from it.
use vstd::prelude::*;

use super::members::{
    holds, lacks, law_lists_give_their_tables, law_members_are_found_by_name,
    law_texts_or_their_default,
};
use super::resolving::single;
use crate::json::{lookup, tables, text_of_tree, text_or, texts_in, Members, Tree};
use crate::material::{
    combos_of, combos_upto, effect_file_of, effect_pass_of, fbo_of, flag_or, material_of,
    model_file_of, number_or, pass_of, slots_of, whole_in, whole_or, Blending, CullMode, DepthMode,
    PassCommand,
};
use crate::object::{
    animation_layer_of, animation_layers_upto, base_of, effect_of, effects_upto, image_of, kind_of,
    object_of, particle_of, pass_override_of, text_object_of, track_of, AnimMode, KindModel,
};
use crate::particle::{
    broad_vec2, broad_vec3, child_of, control_point_of, emitter_of, override_from, renderer_of,
    stage_of, stage_params, system_of, u32_or,
};
use crate::scene::{camera_of, general_of, objects_upto, scene_of, Projection};
use crate::user::{
    constants_of, constants_upto, setting_of, Constants, Readable, Reference, Setting,
};
use crate::value::{vec_numbers, Color, Dynamic, DynamicValue, Number, Scalar, Vec2, Vec3};

verus! {

/// The single 1.
pub open spec fn one() -> Number {
    Number::Single(0x3f80_0000)
}

/// The single 0.
pub open spec fn zero() -> Number {
    Number::Single(0)
}

/// Whether a setting is what the member `key` says: the value alone, or a
/// table with the value, the property that it follows and the script that
/// drives it. Without a value that can be read, it is the default.
#[verifier::opaque]
pub open spec fn says<T: Readable>(m: Members, key: Seq<char>, s: Setting<T::V>, default: T::V) -> bool {
    &&& lacks(m, key) ==> s.value == default && s.user is None && s.script is None
    &&& forall|t: Tree| #[trigger]
        holds(m, key, t) && !(t is Table) ==> s.user is None && s.script is None && s.value == (
        match T::reading(t) {
            Some(x) => if t is Null {
                default
            } else {
                x
            },
            None => default,
        })
    &&& forall|o: Members| #[trigger]
        holds(m, key, Tree::Table(o)) ==> {
            &&& lacks(o, "value"@) ==> s.value == default
            &&& forall|t: Tree| #[trigger]
                holds(o, "value"@, t) ==> s.value == (match T::reading(t) {
                    Some(x) => x,
                    None => default,
                })
            &&& lacks(o, "user"@) ==> s.user is None
            &&& forall|name: Seq<char>| #[trigger]
                holds(o, "user"@, Tree::Text(name)) ==> s.user == Some(Reference::Name(name))
            &&& forall|u: Members, name: Seq<char>, condition: Seq<char>|
                #![trigger holds(o, "user"@, Tree::Table(u)), holds(u, "name"@, Tree::Text(name)), holds(u, "condition"@, Tree::Text(condition))]
                holds(o, "user"@, Tree::Table(u)) && holds(u, "name"@, Tree::Text(name)) && holds(
                    u,
                    "condition"@,
                    Tree::Text(condition),
                ) ==> s.user == Some(Reference::Conditional { name, condition })
            &&& lacks(o, "script"@) ==> s.script is None
            &&& forall|source: Seq<char>| #[trigger]
                holds(o, "script"@, Tree::Text(source)) ==> s.script is Some
                    && s.script->0.source == source && (forall|p: Members| #[trigger]
                    holds(o, "scriptproperties"@, Tree::Table(p)) ==> s.script->0.properties == p) && (
                lacks(o, "scriptproperties"@) ==> s.script->0.properties.len() == 0)
        }
}

/// A setting is read from its own member, and from no other.
pub proof fn law_settings_are_read<T: Readable>(m: Members, key: Seq<char>, default: T::V)
    ensures
        says::<T>(m, key, setting_of::<T>(m, key, default), default),
{
    reveal(says);
    law_members_are_found_by_name(m, key);
    let s = setting_of::<T>(m, key, default);
    assert forall|o: Members| #[trigger] holds(m, key, Tree::Table(o)) implies {
        &&& lacks(o, "value"@) ==> s.value == default
        &&& forall|t: Tree| #[trigger]
            holds(o, "value"@, t) ==> s.value == (match T::reading(t) {
                Some(x) => x,
                None => default,
            })
        &&& lacks(o, "user"@) ==> s.user is None
        &&& forall|name: Seq<char>| #[trigger]
            holds(o, "user"@, Tree::Text(name)) ==> s.user == Some(Reference::Name(name))
        &&& forall|u: Members, name: Seq<char>, condition: Seq<char>|
            #![trigger holds(o, "user"@, Tree::Table(u)), holds(u, "name"@, Tree::Text(name)), holds(u, "condition"@, Tree::Text(condition))]
            holds(o, "user"@, Tree::Table(u)) && holds(u, "name"@, Tree::Text(name)) && holds(
                u,
                "condition"@,
                Tree::Text(condition),
            ) ==> s.user == Some(Reference::Conditional { name, condition })
        &&& lacks(o, "script"@) ==> s.script is None
        &&& forall|source: Seq<char>| #[trigger]
            holds(o, "script"@, Tree::Text(source)) ==> s.script is Some && s.script->0.source
                == source && (forall|p: Members| #[trigger]
                holds(o, "scriptproperties"@, Tree::Table(p)) ==> s.script->0.properties == p) && (
            lacks(o, "scriptproperties"@) ==> s.script->0.properties.len() == 0)
    } by {
        law_members_are_found_by_name(o, "value"@);
        law_members_are_found_by_name(o, "user"@);
        law_members_are_found_by_name(o, "script"@);
        law_members_are_found_by_name(o, "scriptproperties"@);
        assert forall|u: Members, name: Seq<char>, condition: Seq<char>|
            #![trigger holds(o, "user"@, Tree::Table(u)), holds(u, "name"@, Tree::Text(name)), holds(u, "condition"@, Tree::Text(condition))]
            holds(o, "user"@, Tree::Table(u)) && holds(u, "name"@, Tree::Text(name)) && holds(
                u,
                "condition"@,
                Tree::Text(condition),
            ) implies s.user == Some(Reference::Conditional { name, condition }) by {
            law_members_are_found_by_name(u, "name"@);
            law_members_are_found_by_name(u, "condition"@);
        }
    }
}

/// Whether a number is what the member `key` says.
#[verifier::opaque]
pub open spec fn says_number(m: Members, key: Seq<char>, n: Number, default: u32) -> bool {
    &&& lacks(m, key) ==> n == Number::Single(default)
    &&& forall|i: i64| #[trigger] holds(m, key, Tree::Int(i)) ==> n == Number::Int(i)
    &&& forall|u: u64| #[trigger] holds(m, key, Tree::UInt(u)) ==> n == Number::UInt(u)
    &&& forall|b: u64| #[trigger] holds(m, key, Tree::Real(b)) ==> n == Number::Real(b)
}

/// Whether a flag is what the member `key` says.
#[verifier::opaque]
pub open spec fn says_flag(m: Members, key: Seq<char>, f: bool, default: bool) -> bool {
    &&& lacks(m, key) ==> f == default
    &&& forall|b: bool| #[trigger] holds(m, key, Tree::Bool(b)) ==> f == b
    &&& forall|i: i64| #[trigger] holds(m, key, Tree::Int(i)) ==> f == (i != 0)
}

/// Whether a whole number is what the member `key` says.
#[verifier::opaque]
pub open spec fn says_whole(m: Members, key: Seq<char>, w: i64, default: int) -> bool {
    &&& lacks(m, key) ==> w == default
    &&& forall|i: i64| #[trigger] holds(m, key, Tree::Int(i)) ==> w == i
}

/// Whether a whole number without a sign is what the member `key` says: what
/// does not fit becomes the nearest that does.
#[verifier::opaque]
pub open spec fn says_u32(m: Members, key: Seq<char>, w: u32, default: u32) -> bool {
    &&& lacks(m, key) ==> w == default
    &&& forall|i: i64| #[trigger] holds(m, key, Tree::Int(i)) ==> w == (if i < 0 {
        0
    } else if i > 0xffff_ffff {
        0xffff_ffff
    } else {
        i as int
    })
}

/// Whether a text is what the member `key` says.
#[verifier::opaque]
pub open spec fn says_text(m: Members, key: Seq<char>, s: Seq<char>, default: Seq<char>) -> bool {
    &&& lacks(m, key) ==> s == default
    &&& forall|t: Seq<char>| #[trigger] holds(m, key, Tree::Text(t)) ==> s == t
}

/// Whether a text that may be missing is what the member `key` says.
#[verifier::opaque]
pub open spec fn says_text_if_any(m: Members, key: Seq<char>, s: Option<Seq<char>>) -> bool {
    &&& lacks(m, key) ==> s is None
    &&& forall|t: Tree| #[trigger] holds(m, key, t) && !(t is Text) ==> s is None
    &&& forall|t: Seq<char>| #[trigger] holds(m, key, Tree::Text(t)) ==> s == Some(t)
}

/// Whether a whole number that may be missing is what the member `key` says.
#[verifier::opaque]
pub open spec fn says_whole_if_any(m: Members, key: Seq<char>, w: Option<i64>) -> bool {
    &&& lacks(m, key) ==> w is None
    &&& forall|i: i64| #[trigger] holds(m, key, Tree::Int(i)) ==> w == Some(i)
}

/// Whether the slots of a pass are what the member `key` says: one for each
/// entry of the list, empty where the entry names no texture.
#[verifier::opaque]
pub open spec fn says_slots(m: Members, key: Seq<char>, slots: Seq<Option<Seq<char>>>) -> bool {
    &&& lacks(m, key) ==> slots.len() == 0
    &&& forall|list: Seq<Tree>|
        #[trigger] holds(m, key, Tree::List(list)) ==> slots.len() == list.len() && forall|i: int|
            0 <= i < list.len() ==> (match #[trigger] list[i] {
                Tree::Text(s) => slots[i] == (if s.len() == 0 {
                    None
                } else {
                    Some(s)
                }),
                Tree::Table(o) => says_text_if_any(o, "name"@, slots[i]),
                _ => slots[i] is None,
            })
}

/// Whether the combos of a pass are what the member `key` says: every name of
/// the table, with its number.
#[verifier::opaque]
pub open spec fn says_combos(m: Members, key: Seq<char>, combos: Map<Seq<char>, i64>) -> bool {
    &&& lacks(m, key) ==> forall|name: Seq<char>| !combos.contains_key(name)
    &&& forall|o: Members, name: Seq<char>|
        #![trigger holds(m, key, Tree::Table(o)), combos.contains_key(name)]
        holds(m, key, Tree::Table(o)) ==> (combos.contains_key(name) <==> !lacks(o, name)) && (
        forall|i: i64| #[trigger] holds(o, name, Tree::Int(i)) ==> combos[name] == i)
}

/// Whether the constants of a pass are what the member `key` says: every name
/// of the table, with its setting.
#[verifier::opaque]
pub open spec fn says_constants(m: Members, key: Seq<char>, constants: Constants) -> bool {
    &&& lacks(m, key) ==> forall|name: Seq<char>| !constants.contains_key(name)
    &&& forall|o: Members, name: Seq<char>|
        #![trigger holds(m, key, Tree::Table(o)), constants.contains_key(name)]
        holds(m, key, Tree::Table(o)) ==> (constants.contains_key(name) <==> !lacks(o, name)) && (
        (exists|t: Tree| holds(o, name, t)) ==> says::<DynamicValue>(
            o,
            name,
            constants[name],
            Dynamic::Null,
        ))
}

/// Whether a number is the one at a place of a list, or the default where the
/// list ends before.
pub open spec fn listed(list: Seq<Tree>, i: int, n: Number, default: Number) -> bool {
    &&& i >= list.len() ==> n == default
    &&& i < list.len() ==> (match list[i] {
        Tree::Int(x) => n == Number::Int(x),
        Tree::UInt(x) => n == Number::UInt(x),
        Tree::Real(x) => n == Number::Real(x),
        Tree::Null => n == default,
        _ => true,
    })
}

/// Whether a whole number stands at a place of a list.
pub open spec fn in_slot(list: Seq<Tree>, i: int, a: i64) -> bool {
    0 <= i < list.len() && list[i] == Tree::Int(a)
}

/// Whether a vector of three is what the member `key` says: a list of numbers,
/// a text of three numbers, or one number for all three.
#[verifier::opaque]
pub open spec fn says_vec3(
    m: Members,
    key: Seq<char>,
    v: (Number, Number, Number),
    default: (Number, Number, Number),
) -> bool {
    &&& lacks(m, key) ==> v == default
    &&& forall|b: u64|
        #[trigger] holds(m, key, Tree::Real(b)) ==> v == (
            Number::Real(b),
            Number::Real(b),
            Number::Real(b),
        )
    &&& forall|list: Seq<Tree>| #[trigger]
        holds(m, key, Tree::List(list)) ==> listed(list, 0, v.0, default.0) && listed(
            list,
            1,
            v.1,
            default.1,
        ) && listed(list, 2, v.2, default.2)
    &&& forall|s: Seq<char>|
        #[trigger] holds(m, key, Tree::Text(s)) ==> v == (if vec_numbers(s).len() == 3 {
            (vec_numbers(s)[0], vec_numbers(s)[1], vec_numbers(s)[2])
        } else {
            default
        })
}

/// Whether a vector of two is what the member `key` says.
#[verifier::opaque]
pub open spec fn says_vec2(
    m: Members,
    key: Seq<char>,
    v: (Number, Number),
    default: (Number, Number),
) -> bool {
    &&& lacks(m, key) ==> v == default
    &&& forall|list: Seq<Tree>| #[trigger]
        holds(m, key, Tree::List(list)) ==> listed(list, 0, v.0, default.0) && listed(
            list,
            1,
            v.1,
            default.1,
        )
    &&& forall|s: Seq<char>|
        #[trigger] holds(m, key, Tree::Text(s)) ==> v == (if vec_numbers(s).len() == 2 {
            (vec_numbers(s)[0], vec_numbers(s)[1])
        } else {
            default
        })
}

/// A flag, a number, a whole number or a text without more is read from its
/// own member, and from no other.
pub proof fn law_plain_members_are_read(m: Members, key: Seq<char>)
    ensures
        forall|d: u32| says_number(m, key, #[trigger] number_or(m, key, d), d),
        forall|d: bool| says_flag(m, key, #[trigger] flag_or(m, key, d), d),
        forall|d: i64| says_whole(m, key, #[trigger] whole_or(m, key, d), d as int),
        forall|d: u32| says_u32(m, key, #[trigger] u32_or(m, key, d), d),
        forall|d: Seq<char>| says_text(m, key, #[trigger] text_or(m, key, d), d),
        says_text_if_any(m, key, text_of_tree(lookup(m, key))),
        says_whole_if_any(m, key, whole_in(m, key)),
{
    reveal(says_number);
    reveal(says_flag);
    reveal(says_whole);
    reveal(says_u32);
    reveal(says_text);
    reveal(says_text_if_any);
    reveal(says_whole_if_any);
    law_members_are_found_by_name(m, key);
}

/// Vectors are read from their own member: a list gives its numbers in order,
/// a text the numbers that it spells, and a number stands for all three.
pub proof fn law_vectors_are_read(m: Members, key: Seq<char>)
    ensures
        forall|d: (Number, Number, Number)|
            says_vec3(m, key, #[trigger] broad_vec3(lookup(m, key), d), d),
        forall|d: (Number, Number)| says_vec2(m, key, #[trigger] broad_vec2(lookup(m, key), d), d),
{
    reveal(says_vec3);
    reveal(says_vec2);
    law_members_are_found_by_name(m, key);
}

proof fn lemma_combos(m: Members, k: int, name: Seq<char>)
    requires
        0 <= k <= m.len(),
    ensures
        combos_upto(m, k).contains_key(name) <==> exists|i: int| 0 <= i < k && (#[trigger] m[i]).0 == name,
        forall|w: i64|
            combos_upto(m, k).contains_key(name) && #[trigger] holds(m, name, Tree::Int(w)) ==> combos_upto(
                m,
                k,
            )[name] == w,
    decreases k,
{
    if k > 0 {
        lemma_combos(m, k - 1, name);
        if combos_upto(m, k).contains_key(name) && m[k - 1].0 != name {
            assert(combos_upto(m, k - 1).contains_key(name));
        }
        if exists|i: int| 0 <= i < k && (#[trigger] m[i]).0 == name {
            let i = choose|i: int| 0 <= i < k && (#[trigger] m[i]).0 == name;
            assert(i == k - 1 || i < k - 1);
        }
        if m[k - 1].0 == name {
            assert(m[k - 1].0 == name);
        }
    }
}

proof fn lemma_constants(m: Members, k: int, name: Seq<char>)
    requires
        0 <= k <= m.len(),
    ensures
        constants_upto(m, k).contains_key(name) <==> exists|i: int|
            0 <= i < k && (#[trigger] m[i]).0 == name,
        constants_upto(m, k).contains_key(name) && (exists|t: Tree| holds(m, name, t))
            ==> constants_upto(m, k)[name] == setting_of::<DynamicValue>(m, name, Dynamic::Null),
    decreases k,
{
    if k > 0 {
        lemma_constants(m, k - 1, name);
        law_members_are_found_by_name(m, name);
        if constants_upto(m, k).contains_key(name) && m[k - 1].0 != name {
            assert(constants_upto(m, k - 1).contains_key(name));
        }
        if exists|i: int| 0 <= i < k && (#[trigger] m[i]).0 == name {
            let i = choose|i: int| 0 <= i < k && (#[trigger] m[i]).0 == name;
            assert(i == k - 1 || i < k - 1);
        }
        if m[k - 1].0 == name {
            assert(m[k - 1].0 == name);
            if exists|t: Tree| holds(m, name, t) {
                let t = choose|t: Tree| holds(m, name, t);
                assert(m[k - 1].1 == t);
            }
        }
    }
}

/// The tables of a pass are read from their own members: every name that a
/// table has, and no other.
pub proof fn law_tables_are_read(m: Members, key: Seq<char>)
    ensures
        says_slots(m, key, slots_of(lookup(m, key))),
        says_combos(m, key, combos_of(lookup(m, key))),
        says_constants(m, key, constants_of(lookup(m, key))),
{
    reveal(says_slots);
    reveal(says_combos);
    reveal(says_constants);
    law_members_are_found_by_name(m, key);
    let slots = slots_of(lookup(m, key));
    assert forall|list: Seq<Tree>, i: int|
        #[trigger] holds(m, key, Tree::List(list)) && 0 <= i < list.len() implies (match
        #[trigger] list[i] {
        Tree::Text(s) => slots[i] == (if s.len() == 0 {
            None
        } else {
            Some(s)
        }),
        Tree::Table(o) => says_text_if_any(o, "name"@, slots[i]),
        _ => slots[i] is None,
    }) by {
        if let Tree::Table(o) = list[i] {
            law_plain_members_are_read(o, "name"@);
        }
    }
    let combos = combos_of(lookup(m, key));
    assert forall|o: Members, name: Seq<char>|
        #![trigger holds(m, key, Tree::Table(o)), combos.contains_key(name)]
        holds(m, key, Tree::Table(o)) implies (combos.contains_key(name) <==> !lacks(o, name)) && (
    forall|i: i64| #[trigger] holds(o, name, Tree::Int(i)) ==> combos[name] == i) by {
        lemma_combos(o, o.len() as int, name);
        assert forall|i: i64| #[trigger] holds(o, name, Tree::Int(i)) implies combos[name] == i by {
            let j = o.index_of((name, Tree::Int(i)));
            assert(o[j].0 == name);
        }
    }
    let constants = constants_of(lookup(m, key));
    assert forall|o: Members, name: Seq<char>|
        #![trigger holds(m, key, Tree::Table(o)), constants.contains_key(name)]
        holds(m, key, Tree::Table(o)) implies (constants.contains_key(name) <==> !lacks(o, name)) && ((
    exists|t: Tree| holds(o, name, t)) ==> says::<DynamicValue>(
        o,
        name,
        constants[name],
        Dynamic::Null,
    )) by {
        lemma_constants(o, o.len() as int, name);
        law_settings_are_read::<DynamicValue>(o, name, Dynamic::Null);
        if exists|t: Tree| holds(o, name, t) {
            let t = choose|t: Tree| holds(o, name, t);
            let j = o.index_of((name, t));
            assert(o[j].0 == name);
        }
    }
}

/// An object has the id, the order, the place and the visibility that its own
/// members say.
pub proof fn law_objects_say_where_they_stand(m: Members)
    ensures
        ({
            let x = base_of(m);
            &&& says_whole(m, "id"@, x.id, -1)
            &&& says_whole(m, "sortorder"@, x.sortorder, 0)
            &&& says::<Vec3>(m, "origin"@, x.origin, (zero(), zero(), zero()))
            &&& says::<Vec3>(m, "scale"@, x.scale, (one(), one(), one()))
            &&& says::<Vec3>(m, "angles"@, x.angles, (zero(), zero(), zero()))
            &&& says::<bool>(m, "visible"@, x.visible, true)
            &&& says_whole_if_any(m, "parent"@, x.parent)
        }),
        says_whole_if_any(m, "parent"@, base_of(m).parent),
        forall|s: Seq<char>| #[trigger] holds(m, "name"@, Tree::Text(s)) ==> base_of(m).name == s,
        lacks(m, "name"@) ==> base_of(m).name == "unknown"@,
        forall|s: Seq<char>|
            #[trigger] holds(m, "attachment"@, Tree::Text(s)) ==> base_of(m).attachment == (if s.len()
                == 0 {
                None
            } else {
                Some(s)
            }),
        lacks(m, "attachment"@) ==> base_of(m).attachment is None,
{
    law_settings_are_read::<Vec3>(m, "origin"@, (zero(), zero(), zero()));
    law_settings_are_read::<Vec3>(m, "scale"@, (one(), one(), one()));
    law_settings_are_read::<Vec3>(m, "angles"@, (zero(), zero(), zero()));
    law_settings_are_read::<bool>(m, "visible"@, true);
    law_plain_members_are_read(m, "id"@);
    law_plain_members_are_read(m, "parent"@);
    law_plain_members_are_read(m, "sortorder"@);
    law_plain_members_are_read(m, "parent"@);
    law_members_are_found_by_name(m, "name"@);
    law_members_are_found_by_name(m, "attachment"@);
}

/// Every field of an image is what its own member says, and no other member
/// has a part in it.
pub proof fn law_images_say_their_fields(m: Members)
    ensures
        ({
            let x = image_of(m);
            &&& says_text(m, "image"@, x.image, Seq::empty())
            &&& says::<Vec3>(m, "scale"@, x.scale, (one(), one(), one()))
            &&& says::<Vec3>(m, "angles"@, x.angles, (zero(), zero(), zero()))
            &&& says::<bool>(m, "visible"@, x.visible, true)
            &&& says::<Scalar>(m, "alpha"@, x.alpha, one())
            &&& says::<Color>(m, "color"@, x.color, (one(), one(), one(), one()))
            &&& says::<Vec2>(m, "parallaxDepth"@, x.parallax_depth, (zero(), zero()))
            &&& says::<i64>(m, "colorBlendMode"@, x.color_blend_mode, 0)
            &&& says::<Scalar>(m, "brightness"@, x.brightness, one())
        }),
        lacks(m, "size"@) ==> image_of(m).size == (zero(), zero()),
        forall|s: Seq<char>|
            #[trigger] holds(m, "size"@, Tree::Text(s)) && vec_numbers(s).len() == 2 ==> image_of(m).size
                == (vec_numbers(s)[0], vec_numbers(s)[1]),
        image_of(m).model is None && image_of(m).material is None,
        lacks(m, "instance"@) ==> image_of(m).instance is None,
        forall|o: Members| #[trigger]
            holds(m, "instance"@, Tree::Table(o)) ==> image_of(m).instance is Some && says_slots(
                o,
                "textures"@,
                image_of(m).instance->0.textures,
            ) && says_slots(o, "usertextures"@, image_of(m).instance->0.usertextures),
{
    law_settings_are_read::<Vec3>(m, "scale"@, (one(), one(), one()));
    law_settings_are_read::<Vec3>(m, "angles"@, (zero(), zero(), zero()));
    law_settings_are_read::<bool>(m, "visible"@, true);
    law_settings_are_read::<Scalar>(m, "alpha"@, one());
    law_settings_are_read::<Color>(m, "color"@, (one(), one(), one(), one()));
    law_settings_are_read::<Vec2>(m, "parallaxDepth"@, (zero(), zero()));
    law_settings_are_read::<i64>(m, "colorBlendMode"@, 0);
    law_settings_are_read::<Scalar>(m, "brightness"@, one());
    law_plain_members_are_read(m, "image"@);
    law_members_are_found_by_name(m, "size"@);
    law_members_are_found_by_name(m, "instance"@);
    assert forall|o: Members| #[trigger] holds(m, "instance"@, Tree::Table(o)) implies says_slots(
        o,
        "textures"@,
        image_of(m).instance->0.textures,
    ) && says_slots(o, "usertextures"@, image_of(m).instance->0.usertextures) by {
        law_tables_are_read(o, "textures"@);
        law_tables_are_read(o, "usertextures"@);
    }
}

/// Every field of a text is what its own member says, and no other member has
/// a part in it.
pub proof fn law_texts_say_their_fields(m: Members)
    ensures
        ({
            let x = text_object_of(m);
            &&& says::<String>(m, "text"@, x.text, Seq::empty())
            &&& says_text(m, "font"@, x.font, Seq::empty())
            &&& says::<Scalar>(m, "pointsize"@, x.pointsize, single(0x4200_0000))
            &&& says::<Vec3>(m, "scale"@, x.scale, (one(), one(), one()))
            &&& says::<Color>(m, "color"@, x.color, (one(), one(), one(), one()))
            &&& says::<Scalar>(m, "alpha"@, x.alpha, one())
            &&& says::<bool>(m, "visible"@, x.visible, true)
            &&& says_text(m, "verticalalign"@, x.verticalalign, "center"@)
            &&& says_whole(m, "padding"@, x.padding, 0)
        }),
        lacks(m, "size"@) ==> text_object_of(m).size == (zero(), zero()),
        forall|s: Seq<char>|
            #[trigger] holds(m, "size"@, Tree::Text(s)) && vec_numbers(s).len() == 2 ==> text_object_of(
                m,
            ).size == (vec_numbers(s)[0], vec_numbers(s)[1]),
        forall|b: bool|
            #[trigger] holds(m, "limitwidth"@, Tree::Bool(b)) ==> text_object_of(m).limitwidth == b,
        lacks(m, "limitwidth"@) ==> !text_object_of(m).limitwidth,
        says_number(m, "maxwidth"@, text_object_of(m).maxwidth, 0x43fa_0000),
{
    law_settings_are_read::<String>(m, "text"@, Seq::empty());
    law_settings_are_read::<Scalar>(m, "pointsize"@, single(0x4200_0000));
    law_settings_are_read::<Vec3>(m, "scale"@, (one(), one(), one()));
    law_settings_are_read::<Color>(m, "color"@, (one(), one(), one(), one()));
    law_settings_are_read::<Scalar>(m, "alpha"@, one());
    law_settings_are_read::<bool>(m, "visible"@, true);
    law_plain_members_are_read(m, "font"@);
    law_plain_members_are_read(m, "padding"@);
    law_plain_members_are_read(m, "verticalalign"@);
    law_members_are_found_by_name(m, "size"@);
    law_members_are_found_by_name(m, "limitwidth"@);
    law_members_are_found_by_name(m, "maxwidth"@);
    reveal(says_number);
}

/// Every field of a particle object is what its own member says, and no other
/// member has a part in it.
pub proof fn law_particles_say_their_fields(m: Members)
    ensures
        ({
            let x = particle_of(m);
            &&& says::<Vec3>(m, "scale"@, x.scale, (one(), one(), one()))
            &&& says::<Vec3>(m, "angles"@, x.angles, (zero(), zero(), zero()))
            &&& says::<bool>(m, "visible"@, x.visible, true)
            &&& says::<Vec2>(m, "parallaxDepth"@, x.parallax_depth, (zero(), zero()))
        }),
        says_text_if_any(m, "particle"@, particle_of(m).particle_file),
        forall|o: Members| #[trigger]
            holds(m, "particle"@, Tree::Table(o)) ==> particle_of(m).system == system_of(Tree::Table(o)),
        forall|o: Members| #[trigger]
            holds(m, "instanceoverride"@, Tree::Table(o)) ==> particle_of(m).instanceoverride
                == override_from(o),
{
    law_settings_are_read::<Vec3>(m, "scale"@, (one(), one(), one()));
    law_settings_are_read::<Vec3>(m, "angles"@, (zero(), zero(), zero()));
    law_settings_are_read::<bool>(m, "visible"@, true);
    law_settings_are_read::<Vec2>(m, "parallaxDepth"@, (zero(), zero()));
    law_plain_members_are_read(m, "particle"@);
    law_members_are_found_by_name(m, "particle"@);
    law_members_are_found_by_name(m, "instanceoverride"@);
}

/// What an image changes in a pass is what the members of the override say.
pub proof fn law_overrides_say_their_fields(m: Members)
    ensures
        ({
            let x = pass_override_of(m);
            &&& says_whole(m, "id"@, x.id, -1)
            &&& says_combos(m, "combos"@, x.combos)
            &&& says_constants(m, "constantshadervalues"@, x.constants)
            &&& says_slots(m, "textures"@, x.textures)
            &&& says_slots(m, "usertextures"@, x.usertextures)
        }),
{
    law_tables_are_read(m, "combos"@);
    law_tables_are_read(m, "constantshadervalues"@);
    law_tables_are_read(m, "textures"@);
    law_tables_are_read(m, "usertextures"@);
    law_plain_members_are_read(m, "id"@);
}

/// An effect is one that names its file; its fields are what its own members
/// say.
pub proof fn law_effects_say_their_fields(m: Members)
    ensures
        (effect_of(m) is Some) <==> (exists|s: Seq<char>| lookup(m, "file"@) == Some(Tree::Text(s))),
        effect_of(m) matches Some(x) ==> {
            &&& says_whole(m, "id"@, x.id, -1)
            &&& says_text(m, "name"@, x.name, "Effect without name"@)
            &&& says::<bool>(m, "visible"@, x.visible, true)
        },
        effect_of(m) matches Some(x) ==> says_text(m, "file"@, x.file, Seq::empty()) && x.resolved is None
            && x.passes.len() == tables(m, "passes"@).len() && forall|i: int|
            0 <= i < x.passes.len() ==> #[trigger] x.passes[i] == pass_override_of(tables(m, "passes"@)[i]),
{
    law_settings_are_read::<bool>(m, "visible"@, true);
    law_plain_members_are_read(m, "id"@);
    law_plain_members_are_read(m, "name"@);
    law_plain_members_are_read(m, "file"@);
    law_members_are_found_by_name(m, "file"@);
    reveal(says_text);
}

/// An animation layer is one that has an id; its fields are what its own
/// members say.
pub proof fn law_animation_layers_say_their_fields(m: Members)
    ensures
        (animation_layer_of(m) is Some) <==> (whole_in(m, "id"@) is Some),
        animation_layer_of(m) matches Some(x) ==> {
            &&& says::<Scalar>(m, "rate"@, x.rate, one())
            &&& says::<bool>(m, "visible"@, x.visible, false)
            &&& says::<Scalar>(m, "blend"@, x.blend, one())
            &&& says::<i64>(m, "animation"@, x.animation, 0)
        },
        animation_layer_of(m) matches Some(x) ==> says_whole(m, "id"@, x.id, 0),
{
    law_settings_are_read::<Scalar>(m, "rate"@, one());
    law_settings_are_read::<bool>(m, "visible"@, false);
    law_settings_are_read::<Scalar>(m, "blend"@, one());
    law_settings_are_read::<i64>(m, "animation"@, 0);
    law_plain_members_are_read(m, "id"@);
    assert(says_whole(m, "id"@, whole_or(m, "id"@, 0), 0));
    assert(whole_in(m, "id"@) is Some ==> whole_in(m, "id"@)->0 == whole_or(m, "id"@, 0));
}

/// The fields of a pass are what its own members say; of the words for how it
/// is drawn, those that are not known stand for the plainest way.
pub proof fn law_passes_say_their_fields(m: Members)
    ensures
        ({
            let x = pass_of(m);
            &&& says_text(m, "shader"@, x.shader, Seq::empty())
            &&& says_slots(m, "textures"@, x.textures)
            &&& says_slots(m, "usertextures"@, x.usertextures)
            &&& says_combos(m, "combos"@, x.combos)
            &&& says_constants(m, "constantshadervalues"@, x.constants)
        }),
        ({
            let x = pass_of(m);
            &&& holds(m, "blending"@, Tree::Text("translucent"@)) ==> x.blending == Blending::Translucent
            &&& holds(m, "blending"@, Tree::Text("additive"@)) ==> x.blending == Blending::Additive
            &&& holds(m, "cullmode"@, Tree::Text("normal"@)) ==> x.cullmode == CullMode::Normal
            &&& holds(m, "depthtest"@, Tree::Text("enabled"@)) ==> x.depthtest == DepthMode::Enabled
            &&& holds(m, "depthwrite"@, Tree::Text("enabled"@)) ==> x.depthwrite == DepthMode::Enabled
            &&& forall|s: Seq<char>|
                #[trigger] holds(m, "blending"@, Tree::Text(s)) && s != "translucent"@ && s
                    != "additive"@ ==> x.blending == Blending::Normal
            &&& forall|s: Seq<char>|
                #[trigger] holds(m, "cullmode"@, Tree::Text(s)) && s != "normal"@ ==> x.cullmode
                    == CullMode::NoCull
            &&& forall|s: Seq<char>|
                #[trigger] holds(m, "depthtest"@, Tree::Text(s)) && s != "enabled"@ ==> x.depthtest
                    == DepthMode::Disabled
            &&& forall|s: Seq<char>|
                #[trigger] holds(m, "depthwrite"@, Tree::Text(s)) && s != "enabled"@ ==> x.depthwrite
                    == DepthMode::Disabled
            &&& lacks(m, "blending"@) ==> x.blending == Blending::Normal
            &&& lacks(m, "cullmode"@) ==> x.cullmode == CullMode::NoCull
            &&& lacks(m, "depthtest"@) ==> x.depthtest == DepthMode::Disabled
            &&& lacks(m, "depthwrite"@) ==> x.depthwrite == DepthMode::Disabled
        }),
{
    law_tables_are_read(m, "textures"@);
    law_tables_are_read(m, "usertextures"@);
    law_tables_are_read(m, "combos"@);
    law_tables_are_read(m, "constantshadervalues"@);
    law_plain_members_are_read(m, "shader"@);
    law_texts_or_their_default(m, "blending"@, "normal"@);
    law_texts_or_their_default(m, "cullmode"@, "nocull"@);
    law_texts_or_their_default(m, "depthtest"@, "disabled"@);
    law_texts_or_their_default(m, "depthwrite"@, "disabled"@);
    assert("translucent"@ != "additive"@ && "translucent"@ != "normal"@ && "additive"@ != "normal"@
        && "nocull"@ != "normal"@ && "disabled"@ != "enabled"@) by {
        reveal_strlit("translucent");
        reveal_strlit("additive");
        reveal_strlit("normal");
        reveal_strlit("nocull");
        reveal_strlit("disabled");
        reveal_strlit("enabled");
        assert("translucent"@.len() == 11 && "additive"@.len() == 8 && "normal"@.len() == 6
            && "disabled"@.len() == 8 && "enabled"@.len() == 7);
        assert("nocull"@[2] == 'c' && "normal"@[2] == 'r');
    }
}

/// A model file is one that names its material; its fields are what its own
/// members say.
pub proof fn law_model_files_say_their_fields(m: Members)
    ensures
        (model_file_of(Tree::Table(m)) is Some) <==> (exists|s: Seq<char>| lookup(m, "material"@) == Some(Tree::Text(s))),
        model_file_of(Tree::Table(m)) matches Some(x) ==> {
            &&& says_flag(m, "solidlayer"@, x.solidlayer, false)
            &&& says_flag(m, "fullscreen"@, x.fullscreen, false)
            &&& says_flag(m, "passthrough"@, x.passthrough, false)
            &&& says_flag(m, "autosize"@, x.autosize, false)
            &&& says_flag(m, "nopadding"@, x.nopadding, false)
            &&& says_text_if_any(m, "puppet"@, x.puppet)
            &&& says_whole_if_any(m, "width"@, x.width)
            &&& says_whole_if_any(m, "height"@, x.height)
        },
        model_file_of(Tree::Table(m)) matches Some(x) ==> says_text(m, "material"@, x.material, Seq::empty()),
{
    law_plain_members_are_read(m, "autosize"@);
    law_plain_members_are_read(m, "fullscreen"@);
    law_plain_members_are_read(m, "height"@);
    law_plain_members_are_read(m, "nopadding"@);
    law_plain_members_are_read(m, "passthrough"@);
    law_plain_members_are_read(m, "puppet"@);
    law_plain_members_are_read(m, "solidlayer"@);
    law_plain_members_are_read(m, "width"@);
    law_plain_members_are_read(m, "material"@);
    law_members_are_found_by_name(m, "material"@);
    reveal(says_text);
}

/// The fields of a pass of an effect are what its own members say; a command
/// that is not to copy is to swap.
pub proof fn law_effect_passes_say_their_fields(m: Members)
    ensures
        ({
            let x = effect_pass_of(m);
            &&& says_text_if_any(m, "material"@, x.material)
            &&& says_text_if_any(m, "source"@, x.source)
            &&& says_text_if_any(m, "target"@, x.target)
        }),
        effect_pass_of(m).resolved is None,
        lacks(m, "command"@) ==> effect_pass_of(m).command is None,
        holds(m, "command"@, Tree::Text("copy"@)) ==> effect_pass_of(m).command == Some(PassCommand::Copy),
        forall|s: Seq<char>|
            #[trigger] holds(m, "command"@, Tree::Text(s)) && s != "copy"@ ==> effect_pass_of(m).command
                == Some(PassCommand::Swap),
{
    law_plain_members_are_read(m, "material"@);
    law_plain_members_are_read(m, "source"@);
    law_plain_members_are_read(m, "target"@);
    law_members_are_found_by_name(m, "command"@);
}

/// A target of an effect is one that has a name; its fields are what its own
/// members say.
pub proof fn law_targets_say_their_fields(m: Members)
    ensures
        (fbo_of(m) is Some) <==> (exists|s: Seq<char>| lookup(m, "name"@) == Some(Tree::Text(s))),
        fbo_of(m) matches Some(x) ==> {
            &&& says_text(m, "format"@, x.format, "rgba8888"@)
            &&& says_number(m, "scale"@, x.scale, 0x3f80_0000)
            &&& says_flag(m, "unique"@, x.unique, false)
        },
        fbo_of(m) matches Some(x) ==> says_text(m, "name"@, x.name, Seq::empty()),
{
    law_plain_members_are_read(m, "format"@);
    law_plain_members_are_read(m, "scale"@);
    law_plain_members_are_read(m, "unique"@);
    law_plain_members_are_read(m, "name"@);
    law_members_are_found_by_name(m, "name"@);
    reveal(says_text);
}

/// The fields of an effect file are what its own members say; its passes are
/// read one by one.
pub proof fn law_effect_files_say_their_fields(m: Members)
    ensures
        ({
            let x = effect_file_of(Tree::Table(m));
            &&& says_text(m, "name"@, x.name, Seq::empty())
            &&& says_text(m, "description"@, x.description, Seq::empty())
            &&& says_text(m, "group"@, x.group, Seq::empty())
            &&& says_text(m, "preview"@, x.preview, Seq::empty())
        }),
        effect_file_of(Tree::Table(m)).dependencies == texts_in(lookup(m, "dependencies"@)),
        effect_file_of(Tree::Table(m)).passes.len() == tables(m, "passes"@).len(),
        forall|i: int|
            0 <= i < tables(m, "passes"@).len() ==> #[trigger] effect_file_of(Tree::Table(m)).passes[i]
                == effect_pass_of(tables(m, "passes"@)[i]),
{
    law_plain_members_are_read(m, "description"@);
    law_plain_members_are_read(m, "group"@);
    law_plain_members_are_read(m, "name"@);
    law_plain_members_are_read(m, "preview"@);
}

/// Every field of an emitter is what its own member says, and no other member
/// has a part in it.
pub proof fn law_emitters_say_their_fields(m: Members)
    ensures
        ({
            let x = emitter_of(m);
            &&& says_whole(m, "id"@, x.id, -1)
            &&& says_text(m, "name"@, x.name, Seq::empty())
            &&& says_u32(m, "instantaneous"@, x.instantaneous, 0)
            &&& says_number(m, "speedmin"@, x.speedmin, 0)
            &&& says_number(m, "speedmax"@, x.speedmax, 0)
            &&& says_number(m, "rate"@, x.rate, 0x4120_0000)
            &&& says_whole(m, "controlpoint"@, x.controlpoint, 0)
            &&& says_u32(m, "flags"@, x.flags, 0)
            &&& says_number(m, "cone"@, x.cone, 0)
            &&& says_number(m, "delay"@, x.delay, 0)
            &&& says_number(m, "duration"@, x.duration, 0)
            &&& says_whole(m, "audioprocessingexponent"@, x.audioprocessingexponent, 2)
            &&& says_whole(m, "audioprocessingfrequencystart"@, x.audioprocessingfrequencystart, 0)
            &&& says_whole(m, "audioprocessingfrequencyend"@, x.audioprocessingfrequencyend, 1)
            &&& says_whole(m, "audioprocessingmode"@, x.audioprocessingmode, 0)
            &&& says_number(m, "minperiodicdelay"@, x.minperiodicdelay, 0x3f80_0000)
            &&& says_number(m, "maxperiodicdelay"@, x.maxperiodicdelay, 0x4000_0000)
            &&& says_number(m, "minperiodicduration"@, x.minperiodicduration, 0x4000_0000)
            &&& says_number(m, "maxperiodicduration"@, x.maxperiodicduration, 0x4040_0000)
            &&& says_vec3(m, "directions"@, x.directions, (one(), one(), zero()))
            &&& says_vec3(m, "distancemin"@, x.distancemin, (zero(), zero(), zero()))
            &&& says_vec3(m, "distancemax"@, x.distancemax, (single(0x4380_0000), single(0x4380_0000), zero()))
            &&& says_vec3(m, "origin"@, x.origin, (zero(), zero(), zero()))
            &&& says_vec2(m, "audioprocessingbounds"@, x.audioprocessingbounds, (single(0x3f4c_cccd), one()))
        }),
        lacks(m, "sign"@) ==> emitter_of(m).sign == seq![0i32, 0, 0],
        forall|list: Seq<Tree>, i: int, a: i64|
            #![trigger holds(m, "sign"@, Tree::List(list)), in_slot(list, i, a)]
            holds(m, "sign"@, Tree::List(list)) && 0 <= i < 3 && in_slot(list, i, a)
                && -0x8000_0000 <= a < 0x8000_0000 ==> emitter_of(m).sign[i] == a,
        forall|list: Seq<Tree>, i: int|
            #![trigger holds(m, "sign"@, Tree::List(list)), emitter_of(m).sign[i]]
            holds(m, "sign"@, Tree::List(list)) && list.len() <= i < 3 ==> emitter_of(m).sign[i] == 0,
{
    law_vectors_are_read(m, "directions"@);
    law_vectors_are_read(m, "distancemin"@);
    law_vectors_are_read(m, "distancemax"@);
    law_vectors_are_read(m, "origin"@);
    law_vectors_are_read(m, "audioprocessingbounds"@);
    law_plain_members_are_read(m, "audioprocessingexponent"@);
    law_plain_members_are_read(m, "audioprocessingfrequencyend"@);
    law_plain_members_are_read(m, "audioprocessingfrequencystart"@);
    law_plain_members_are_read(m, "audioprocessingmode"@);
    law_plain_members_are_read(m, "cone"@);
    law_plain_members_are_read(m, "controlpoint"@);
    law_plain_members_are_read(m, "delay"@);
    law_plain_members_are_read(m, "duration"@);
    law_plain_members_are_read(m, "flags"@);
    law_plain_members_are_read(m, "id"@);
    law_plain_members_are_read(m, "instantaneous"@);
    law_plain_members_are_read(m, "maxperiodicdelay"@);
    law_plain_members_are_read(m, "maxperiodicduration"@);
    law_plain_members_are_read(m, "minperiodicdelay"@);
    law_plain_members_are_read(m, "minperiodicduration"@);
    law_plain_members_are_read(m, "name"@);
    law_plain_members_are_read(m, "rate"@);
    law_plain_members_are_read(m, "speedmax"@);
    law_plain_members_are_read(m, "speedmin"@);
    law_members_are_found_by_name(m, "sign"@);
}

/// Every field of a renderer is what its own member says; how long a trail is
/// and how finely a rope is divided start from what its kind asks for.
pub proof fn law_renderers_say_their_fields(m: Members)
    ensures
        ({
            let x = renderer_of(m);
            &&& says_number(m, "maxlength"@, x.maxlength, 0x4120_0000)
            &&& says_number(m, "minlength"@, x.minlength, 0)
            &&& says_number(m, "segments"@, x.segments, 0x4080_0000)
            &&& says_number(m, "uvscale"@, x.uvscale, 0x3f80_0000)
            &&& says_flag(m, "uvscrolling"@, x.uvscrolling, false)
            &&& says_flag(m, "uvsmoothing"@, x.uvsmoothing, true)
            &&& says_flag(m, "fadealpha"@, x.fadealpha, false)
            &&& says_flag(m, "fadesize"@, x.fadesize, false)
        }),
        says_text(m, "name"@, renderer_of(m).name, "sprite"@),
        says_number(
            m,
            "length"@,
            renderer_of(m).length,
            if renderer_of(m).name == "ropetrail"@ {
                0x3f80_0000
            } else {
                0x3d4c_cccd
            },
        ),
        says_number(
            m,
            "subdivision"@,
            renderer_of(m).subdivision,
            if renderer_of(m).name == "rope"@ {
                0x4080_0000
            } else {
                0x3f80_0000
            },
        ),
{
    law_plain_members_are_read(m, "fadealpha"@);
    law_plain_members_are_read(m, "fadesize"@);
    law_plain_members_are_read(m, "maxlength"@);
    law_plain_members_are_read(m, "minlength"@);
    law_plain_members_are_read(m, "segments"@);
    law_plain_members_are_read(m, "uvscale"@);
    law_plain_members_are_read(m, "uvscrolling"@);
    law_plain_members_are_read(m, "uvsmoothing"@);
    law_plain_members_are_read(m, "name"@);
    law_plain_members_are_read(m, "length"@);
    law_plain_members_are_read(m, "subdivision"@);
}

/// The fields of a control point are what its own members say; it follows the
/// pointer where the member or the lowest flag says so.
pub proof fn law_control_points_say_their_fields(m: Members)
    ensures
        ({
            let x = control_point_of(m);
            &&& says_whole(m, "id"@, x.id, -1)
        }),
        says_u32(m, "flags"@, control_point_of(m).flags, 0),
        holds(m, "locktopointer"@, Tree::Bool(true)) ==> control_point_of(m).locktopointer,
        control_point_of(m).flags % 2 == 1 ==> control_point_of(m).locktopointer,
        lacks(m, "locktopointer"@) && control_point_of(m).flags % 2 == 0 ==> !control_point_of(m).locktopointer,
        lacks(m, "offset"@) ==> control_point_of(m).offset == (zero(), zero(), zero()),
        forall|s: Seq<char>|
            #[trigger] holds(m, "offset"@, Tree::Text(s)) && vec_numbers(s).len() == 3
                ==> control_point_of(m).offset == (vec_numbers(s)[0], vec_numbers(s)[1], vec_numbers(s)[2]),
{
    law_plain_members_are_read(m, "id"@);
    law_plain_members_are_read(m, "flags"@);
    law_members_are_found_by_name(m, "locktopointer"@);
    law_members_are_found_by_name(m, "offset"@);
}

/// Every field of a child system is what its own member says, and no other
/// member has a part in it.
pub proof fn law_child_systems_say_their_fields(m: Members)
    ensures
        ({
            let x = child_of(m);
            &&& says_text(m, "type"@, x.kind, "static"@)
            &&& says_text(m, "name"@, x.name, Seq::empty())
            &&& says_u32(m, "maxcount"@, x.maxcount, 20)
            &&& says_whole(m, "controlpointstartindex"@, x.controlpointstartindex, 0)
            &&& says_number(m, "probability"@, x.probability, 0x3f80_0000)
            &&& says_text_if_any(m, "particle"@, x.particle)
            &&& says_vec3(m, "angles"@, x.angles, (zero(), zero(), zero()))
            &&& says_vec3(m, "origin"@, x.origin, (zero(), zero(), zero()))
            &&& says_vec3(m, "scale"@, x.scale, (one(), one(), one()))
        }),
{
    law_vectors_are_read(m, "angles"@);
    law_vectors_are_read(m, "origin"@);
    law_vectors_are_read(m, "scale"@);
    law_plain_members_are_read(m, "controlpointstartindex"@);
    law_plain_members_are_read(m, "maxcount"@);
    law_plain_members_are_read(m, "name"@);
    law_plain_members_are_read(m, "particle"@);
    law_plain_members_are_read(m, "probability"@);
    law_plain_members_are_read(m, "type"@);
}

/// Every field of a particle system is what its own member says; its parts are
/// read one by one, and a system without a renderer draws sprites.
pub proof fn law_particle_systems_say_their_fields(m: Members)
    ensures
        ({
            let x = system_of(Tree::Table(m));
            &&& says_text(m, "animationmode"@, x.animationmode, "sequence"@)
            &&& says_number(m, "sequencemultiplier"@, x.sequencemultiplier, 0x3f80_0000)
            &&& says_u32(m, "maxcount"@, x.maxcount, 100)
            &&& says_u32(m, "starttime"@, x.starttime, 0)
            &&& says_u32(m, "flags"@, x.flags, 0)
            &&& says_text_if_any(m, "material"@, x.material)
        }),
        ({
            let x = system_of(Tree::Table(m));
            &&& x.emitters.len() == tables(m, "emitter"@).len()
            &&& x.initializers.len() == tables(m, "initializer"@).len()
            &&& x.operators.len() == tables(m, "operator"@).len()
            &&& x.controlpoints.len() == tables(m, "controlpoint"@).len()
            &&& x.children.len() == tables(m, "children"@).len()
            &&& forall|i: int|
                0 <= i < x.emitters.len() ==> #[trigger] x.emitters[i] == emitter_of(
                    tables(m, "emitter"@)[i],
                )
            &&& forall|i: int|
                0 <= i < x.initializers.len() ==> #[trigger] x.initializers[i] == stage_of(
                    tables(m, "initializer"@)[i],
                )
            &&& forall|i: int|
                0 <= i < x.operators.len() ==> #[trigger] x.operators[i] == stage_of(
                    tables(m, "operator"@)[i],
                )
            &&& forall|i: int|
                0 <= i < x.controlpoints.len() ==> #[trigger] x.controlpoints[i] == control_point_of(
                    tables(m, "controlpoint"@)[i],
                )
            &&& forall|i: int|
                0 <= i < x.children.len() ==> #[trigger] x.children[i] == child_of(
                    tables(m, "children"@)[i],
                )
            &&& tables(m, "renderer"@).len() == 0 ==> x.renderers.len() == 1 && x.renderers[0].name
                == "sprite"@
            &&& tables(m, "renderer"@).len() > 0 ==> x.renderers.len() == tables(m, "renderer"@).len()
                && forall|i: int|
                0 <= i < x.renderers.len() ==> #[trigger] x.renderers[i] == renderer_of(
                    tables(m, "renderer"@)[i],
                )
        }),
{
    law_plain_members_are_read(m, "animationmode"@);
    law_plain_members_are_read(m, "flags"@);
    law_plain_members_are_read(m, "material"@);
    law_plain_members_are_read(m, "maxcount"@);
    law_plain_members_are_read(m, "sequencemultiplier"@);
    law_plain_members_are_read(m, "starttime"@);
    law_members_are_found_by_name(Members::empty(), "name"@);
    law_texts_or_their_default(Members::empty(), "name"@, "sprite"@);
}

/// Every field of an instance override is what its own member says, and no
/// other member has a part in it.
pub proof fn law_instance_overrides_say_their_fields(m: Members)
    ensures
        ({
            let x = override_from(m);
            &&& says::<bool>(m, "enabled"@, x.enabled, true)
            &&& says::<Scalar>(m, "alpha"@, x.alpha, one())
            &&& says::<Scalar>(m, "size"@, x.size, one())
            &&& says::<Scalar>(m, "lifetime"@, x.lifetime, one())
            &&& says::<Scalar>(m, "rate"@, x.rate, one())
            &&& says::<Scalar>(m, "speed"@, x.speed, one())
            &&& says::<Scalar>(m, "count"@, x.count, one())
            &&& says::<Vec3>(m, "color"@, x.color, (one(), one(), one()))
            &&& says::<Vec3>(m, "colorn"@, x.colorn, (one(), one(), one()))
        }),
{
    law_settings_are_read::<bool>(m, "enabled"@, true);
    law_settings_are_read::<Scalar>(m, "alpha"@, one());
    law_settings_are_read::<Scalar>(m, "size"@, one());
    law_settings_are_read::<Scalar>(m, "lifetime"@, one());
    law_settings_are_read::<Scalar>(m, "rate"@, one());
    law_settings_are_read::<Scalar>(m, "speed"@, one());
    law_settings_are_read::<Scalar>(m, "count"@, one());
    law_settings_are_read::<Vec3>(m, "color"@, (one(), one(), one()));
    law_settings_are_read::<Vec3>(m, "colorn"@, (one(), one(), one()));
}

/// Every field of the general section is what its own member says, and no other
/// member has a part in it.
pub proof fn law_the_general_section_says_its_fields(m: Members)
    ensures
        ({
            let x = general_of(m);
            &&& says::<Color>(m, "ambientcolor"@, x.ambientcolor, (zero(), zero(), zero(), one()))
            &&& says::<Color>(m, "skylightcolor"@, x.skylightcolor, (zero(), zero(), zero(), one()))
            &&& says::<Color>(m, "clearcolor"@, x.clearcolor, (one(), one(), one(), one()))
            &&& says::<bool>(m, "camerafade"@, x.camerafade, false)
            &&& says_flag(m, "camerapreview"@, x.camerapreview, false)
            &&& says::<bool>(m, "bloom"@, x.bloom, false)
            &&& says::<Scalar>(m, "bloomstrength"@, x.bloomstrength, zero())
            &&& says::<Scalar>(m, "bloomthreshold"@, x.bloomthreshold, zero())
            &&& says::<bool>(m, "cameraparallax"@, x.cameraparallax, false)
            &&& says::<Scalar>(m, "cameraparallaxamount"@, x.cameraparallaxamount, one())
            &&& says::<Scalar>(m, "cameraparallaxdelay"@, x.cameraparallaxdelay, zero())
            &&& says::<Scalar>(m, "cameraparallaxmouseinfluence"@, x.cameraparallaxmouseinfluence, one())
            &&& says::<bool>(m, "camerashake"@, x.camerashake, false)
            &&& says::<Scalar>(m, "camerashakeamplitude"@, x.camerashakeamplitude, zero())
            &&& says::<Scalar>(m, "camerashakeroughness"@, x.camerashakeroughness, zero())
            &&& says::<Scalar>(m, "camerashakespeed"@, x.camerashakespeed, zero())
            &&& says_flag(m, "customsortorder"@, x.customsortorder, false)
        }),
        general_of(m).extra == m,
{
    law_settings_are_read::<Color>(m, "ambientcolor"@, (zero(), zero(), zero(), one()));
    law_settings_are_read::<Color>(m, "skylightcolor"@, (zero(), zero(), zero(), one()));
    law_settings_are_read::<Color>(m, "clearcolor"@, (one(), one(), one(), one()));
    law_settings_are_read::<bool>(m, "camerafade"@, false);
    law_settings_are_read::<bool>(m, "bloom"@, false);
    law_settings_are_read::<Scalar>(m, "bloomstrength"@, zero());
    law_settings_are_read::<Scalar>(m, "bloomthreshold"@, zero());
    law_settings_are_read::<bool>(m, "cameraparallax"@, false);
    law_settings_are_read::<Scalar>(m, "cameraparallaxamount"@, one());
    law_settings_are_read::<Scalar>(m, "cameraparallaxdelay"@, zero());
    law_settings_are_read::<Scalar>(m, "cameraparallaxmouseinfluence"@, one());
    law_settings_are_read::<bool>(m, "camerashake"@, false);
    law_settings_are_read::<Scalar>(m, "camerashakeamplitude"@, zero());
    law_settings_are_read::<Scalar>(m, "camerashakeroughness"@, zero());
    law_settings_are_read::<Scalar>(m, "camerashakespeed"@, zero());
    law_plain_members_are_read(m, "camerapreview"@);
    law_plain_members_are_read(m, "customsortorder"@);
}

/// The alignment of a layer is the one across where it is given, and else the
/// one for both ways.
pub proof fn law_alignments_are_read(m: Members)
    ensures
        forall|s: Seq<char>|
            #[trigger] holds(m, "horizontalalign"@, Tree::Text(s)) ==> image_of(m).alignment == s
                && text_object_of(m).horizontalalign == s,
        lacks(m, "horizontalalign"@) ==> says_text(m, "alignment"@, image_of(m).alignment, "center"@)
            && says_text(m, "alignment"@, text_object_of(m).horizontalalign, "center"@),
{
    law_members_are_found_by_name(m, "horizontalalign"@);
    law_plain_members_are_read(m, "alignment"@);
}

/// What an object is: an image where it names one, else a sound, a particle
/// system, a text, a model, a light or a shape, in this order; a group where
/// it is none of them.
pub proof fn law_objects_are_of_the_first_kind_they_name(m: Members, t: Tree, s: Seq<char>, list: Seq<Tree>)
    requires
        !(t is Null),
    ensures
        holds(m, "image"@, Tree::Text(s)) ==> kind_of(m) == KindModel::Image(image_of(m)),
        lacks(m, "image"@) && holds(m, "sound"@, Tree::List(list)) ==> (kind_of(m) matches
            KindModel::Sound(files, mode) && files == texts_in(Some(Tree::List(list)))
            && says_text_if_any(m, "playbackmode"@, mode)),
        lacks(m, "image"@) && lacks(m, "sound"@) && holds(m, "particle"@, t) ==> kind_of(m)
            == KindModel::Particle(particle_of(m)),
        lacks(m, "image"@) && lacks(m, "sound"@) && lacks(m, "particle"@) && holds(m, "text"@, t)
            ==> kind_of(m) == KindModel::Text(text_object_of(m)),
        lacks(m, "image"@) && lacks(m, "sound"@) && lacks(m, "particle"@) && lacks(m, "text"@) && holds(
            m,
            "model"@,
            Tree::Text(s),
        ) ==> kind_of(m) == KindModel::Model(s),
        lacks(m, "image"@) && lacks(m, "sound"@) && lacks(m, "particle"@) && lacks(m, "text"@) && lacks(
            m,
            "model"@,
        ) && holds(m, "light"@, t) ==> kind_of(m) == KindModel::Light(m),
        lacks(m, "image"@) && lacks(m, "sound"@) && lacks(m, "particle"@) && lacks(m, "text"@) && lacks(
            m,
            "model"@,
        ) && lacks(m, "light"@) && holds(m, "shape"@, t) ==> kind_of(m) == KindModel::Shape(m),
        lacks(m, "image"@) && lacks(m, "sound"@) && lacks(m, "particle"@) && lacks(m, "text"@) && lacks(
            m,
            "model"@,
        ) && lacks(m, "light"@) && lacks(m, "shape"@) ==> kind_of(m) == KindModel::Group,
{
    law_members_are_found_by_name(m, "image"@);
    law_members_are_found_by_name(m, "sound"@);
    law_members_are_found_by_name(m, "particle"@);
    law_members_are_found_by_name(m, "text"@);
    law_members_are_found_by_name(m, "model"@);
    law_members_are_found_by_name(m, "light"@);
    law_members_are_found_by_name(m, "shape"@);
    law_plain_members_are_read(m, "playbackmode"@);
}

/// Only a table is an object, and it is kept whole beside what is read from it.
pub proof fn law_tables_are_objects(t: Tree, m: Members)
    ensures
        !(t is Table) ==> object_of(t) is None,
        object_of(Tree::Table(m)) matches Some(o) && o.extra == m && o.base == base_of(m) && o.kind == kind_of(m),
{
}

proof fn lemma_objects(list: Seq<Tree>, k: int)
    requires
        0 <= k <= list.len(),
        forall|i: int| 0 <= i < k ==> (#[trigger] list[i]) is Table,
    ensures
        objects_upto(list, k).len() == k,
        forall|i: int|
            0 <= i < k ==> (#[trigger] objects_upto(list, k)[i]).extra == list[i]->Table_0,
        forall|i: int| 0 <= i < k ==> Some(#[trigger] objects_upto(list, k)[i]) == object_of(list[i]),
    decreases k,
{
    if k > 0 {
        lemma_objects(list, k - 1);
        assert(list[k - 1] is Table);
    }
}

/// A scene has one object for each table in its list, in the order of the
/// list; its camera and its general section are read from theirs.
pub proof fn law_scenes_have_their_objects(root: Members, camera: Members, general: Members, list: Seq<Tree>)
    requires
        holds(root, "camera"@, Tree::Table(camera)),
        holds(root, "general"@, Tree::Table(general)),
        holds(root, "objects"@, Tree::List(list)),
    ensures
        scene_of(Tree::Table(root)) is Ok <==> camera_of(camera, general) is Ok,
        scene_of(Tree::Table(root)) matches Ok(x) ==> {
            &&& camera_of(camera, general) == Ok::<_, crate::error::Failure>(x.camera)
            &&& x.general == general_of(general)
            &&& (forall|i: int| 0 <= i < list.len() ==> (#[trigger] list[i]) is Table) ==> x.objects.len()
                == list.len() && forall|i: int|
                0 <= i < list.len() ==> Some(#[trigger] x.objects[i]) == object_of(list[i])
        },
{
    law_members_are_found_by_name(root, "camera"@);
    law_members_are_found_by_name(root, "general"@);
    law_members_are_found_by_name(root, "objects"@);
    if forall|i: int| 0 <= i < list.len() ==> (#[trigger] list[i]) is Table {
        lemma_objects(list, list.len() as int);
    }
}

/// A document without one of its sections is no scene, and neither is one that
/// is no table.
pub proof fn law_scenes_need_their_sections(t: Tree, root: Members)
    ensures
        !(t is Table) ==> scene_of(t) is Err,
        lacks(root, "camera"@) || lacks(root, "general"@) || lacks(root, "objects"@) ==> scene_of(
            Tree::Table(root),
        ) is Err,
{
    law_members_are_found_by_name(root, "camera"@);
    law_members_are_found_by_name(root, "general"@);
    law_members_are_found_by_name(root, "objects"@);
}

/// A camera is read from three texts of three numbers: where it stands, what
/// it looks at and which way is up. How near and far it sees is said by the
/// camera, or else by the general section; its field of view the other way
/// round. What is in view is an area of a given size, unless it is left open.
pub proof fn law_cameras_say_their_fields(
    camera: Members,
    general: Members,
    eye: Seq<char>,
    center: Seq<char>,
    up: Seq<char>,
)
    requires
        holds(camera, "eye"@, Tree::Text(eye)),
        holds(camera, "center"@, Tree::Text(center)),
        holds(camera, "up"@, Tree::Text(up)),
    ensures
        camera_of(camera, general) is Ok <==> vec_numbers(eye).len() == 3 && vec_numbers(center).len()
            == 3 && vec_numbers(up).len() == 3,
        camera_of(camera, general) matches Ok(x) ==> {
            &&& x.eye == (vec_numbers(eye)[0], vec_numbers(eye)[1], vec_numbers(eye)[2])
            &&& x.center == (vec_numbers(center)[0], vec_numbers(center)[1], vec_numbers(center)[2])
            &&& x.up == (vec_numbers(up)[0], vec_numbers(up)[1], vec_numbers(up)[2])
            &&& forall|b: u64|
                #[trigger] holds(camera, "nearz"@, Tree::Real(b)) ==> x.nearz == Number::Real(b)
            &&& forall|b: u64|
                #[trigger] holds(camera, "farz"@, Tree::Real(b)) ==> x.farz == Number::Real(b)
            &&& lacks(camera, "nearz"@) ==> says_number(general, "nearz"@, x.nearz, 0x3dcc_cccd)
            &&& lacks(camera, "farz"@) ==> says_number(general, "farz"@, x.farz, 0x461c_4000)
            &&& lacks(general, "fov"@) ==> says::<Scalar>(camera, "fov"@, x.fov, single(0x4248_0000))
            &&& (exists|t: Tree| !(t is Null) && #[trigger] holds(general, "fov"@, t)) ==> says::<Scalar>(
                general,
                "fov"@,
                x.fov,
                single(0x4248_0000),
            )
            &&& lacks(general, "orthogonalprojection"@) ==> x.projection == Projection::Auto
            &&& forall|o: Members| #[trigger]
                holds(general, "orthogonalprojection"@, Tree::Table(o)) ==> {
                    &&& holds(o, "auto"@, Tree::Bool(true)) ==> x.projection == Projection::Auto
                    &&& lacks(o, "auto"@) ==> (x.projection matches Projection::Orthogonal { width, height }
                        && says_whole(o, "width"@, width, 0) && says_whole(o, "height"@, height, 0))
                }
        },
{
    law_members_are_found_by_name(camera, "eye"@);
    law_members_are_found_by_name(camera, "center"@);
    law_members_are_found_by_name(camera, "up"@);
    law_members_are_found_by_name(camera, "nearz"@);
    law_members_are_found_by_name(camera, "farz"@);
    law_members_are_found_by_name(general, "fov"@);
    law_members_are_found_by_name(general, "orthogonalprojection"@);
    law_plain_members_are_read(general, "nearz"@);
    law_plain_members_are_read(general, "farz"@);
    assert(says_number(general, "nearz"@, number_or(general, "nearz"@, 0x3dcc_cccd), 0x3dcc_cccd));
    assert(says_number(general, "farz"@, number_or(general, "farz"@, 0x461c_4000), 0x461c_4000));
    law_settings_are_read::<Scalar>(camera, "fov"@, single(0x4248_0000));
    law_settings_are_read::<Scalar>(general, "fov"@, single(0x4248_0000));
    if let Ok(x) = camera_of(camera, general) {
        assert forall|o: Members| #[trigger]
            holds(general, "orthogonalprojection"@, Tree::Table(o)) implies {
            &&& holds(o, "auto"@, Tree::Bool(true)) ==> x.projection == Projection::Auto
            &&& lacks(o, "auto"@) ==> (x.projection matches Projection::Orthogonal { width, height }
                && says_whole(o, "width"@, width, 0) && says_whole(o, "height"@, height, 0))
        } by {
            law_members_are_found_by_name(o, "auto"@);
            law_plain_members_are_read(o, "width"@);
            law_plain_members_are_read(o, "height"@);
        }
    }
}

/// An animation track has the keys of its three channels, and runs as its
/// options say.
pub proof fn law_tracks_say_their_fields(m: Members, options: Members)
    requires
        holds(m, "options"@, Tree::Table(options)),
    ensures
        ({
            let x = track_of(m);
            &&& says_number(options, "fps"@, x.fps, 0x41f0_0000)
            &&& says_number(options, "length"@, x.length, 0)
            &&& says_flag(m, "relative"@, x.relative, true)
            &&& holds(options, "mode"@, Tree::Text("mirror"@)) ==> x.mode == AnimMode::Mirror
            &&& lacks(options, "mode"@) ==> x.mode == AnimMode::Loop
            &&& forall|s: Seq<char>|
                #[trigger] holds(options, "mode"@, Tree::Text(s)) && s != "mirror"@ ==> x.mode
                    == AnimMode::Loop
            &&& lacks(m, "c0"@) ==> x.c0.len() == 0
            &&& lacks(m, "c1"@) ==> x.c1.len() == 0
            &&& lacks(m, "c2"@) ==> x.c2.len() == 0
            &&& forall|list: Seq<Tree>| #[trigger]
                holds(m, "c0"@, Tree::List(list)) && list.len() == 1 && list[0] is Table ==> one_key(
                    list[0]->Table_0,
                    x.c0,
                )
            &&& forall|list: Seq<Tree>| #[trigger]
                holds(m, "c1"@, Tree::List(list)) && list.len() == 1 && list[0] is Table ==> one_key(
                    list[0]->Table_0,
                    x.c1,
                )
            &&& forall|list: Seq<Tree>| #[trigger]
                holds(m, "c2"@, Tree::List(list)) && list.len() == 1 && list[0] is Table ==> one_key(
                    list[0]->Table_0,
                    x.c2,
                )
        }),
{
    law_members_are_found_by_name(m, "options"@);
    law_members_are_found_by_name(options, "mode"@);
    law_plain_members_are_read(options, "fps"@);
    law_plain_members_are_read(options, "length"@);
    law_plain_members_are_read(m, "relative"@);
    lemma_channel(m, "c0"@);
    lemma_channel(m, "c1"@);
    lemma_channel(m, "c2"@);
}

/// Whether the keys of a channel are the one that a table describes: at its
/// frame, with its value.
pub open spec fn one_key(key: Members, keys: Seq<(Number, Number)>) -> bool {
    &&& forall|f: u64, v: u64|
        #[trigger] holds(key, "frame"@, Tree::Real(f)) && #[trigger] holds(key, "value"@, Tree::Real(v))
            ==> keys == seq![(Number::Real(f), Number::Real(v))]
    &&& lacks(key, "frame"@) || lacks(key, "value"@) ==> keys.len() == 0
}

proof fn lemma_channel(m: Members, key: Seq<char>)
    ensures
        lacks(m, key) ==> crate::object::channel_of(m, key).len() == 0,
        forall|list: Seq<Tree>| #[trigger]
            holds(m, key, Tree::List(list)) && list.len() == 1 && list[0] is Table ==> one_key(
                list[0]->Table_0,
                crate::object::channel_of(m, key),
            ),
{
    law_members_are_found_by_name(m, key);
    assert forall|list: Seq<Tree>| #[trigger]
        holds(m, key, Tree::List(list)) && list.len() == 1 && list[0] is Table implies one_key(
        list[0]->Table_0,
        crate::object::channel_of(m, key),
    ) by {
        let k = list[0]->Table_0;
        law_lists_give_their_tables(m, key, list);
        law_members_are_found_by_name(k, "frame"@);
        law_members_are_found_by_name(k, "value"@);
        let t = tables(m, key);
        assert(forall|i: int| 0 <= i < list.len() ==> (#[trigger] list[i]) is Table);
        assert(t.len() == 1);
        assert(Tree::Table(t[0]) == list[0]);
        reveal_with_fuel(crate::object::keys_upto, 2);
        let keys = crate::object::channel_of(m, key);
        assert forall|f: u64, v: u64|
            #[trigger] holds(k, "frame"@, Tree::Real(f)) && #[trigger] holds(
                k,
                "value"@,
                Tree::Real(v),
            ) implies keys == seq![(Number::Real(f), Number::Real(v))] by {
            assert(keys =~= seq![(Number::Real(f), Number::Real(v))]);
        }
    }
}

/// The parameters of a stage are all its members but its id and its name.
pub proof fn law_stages_say_their_parameters(m: Members, name: Seq<char>)
    ensures
        says_whole(m, "id"@, stage_of(m).id, -1),
        says_text(m, "name"@, stage_of(m).name, Seq::empty()),
        stage_of(m).params.contains_key(name) <==> !lacks(m, name) && name != "id"@ && name != "name"@,
        stage_of(m).params.contains_key(name) ==> says::<DynamicValue>(
            m,
            name,
            stage_of(m).params[name],
            Dynamic::Null,
        ),
{
    law_plain_members_are_read(m, "id"@);
    law_plain_members_are_read(m, "name"@);
    law_settings_are_read::<DynamicValue>(m, name, Dynamic::Null);
    lemma_stage(m, m.len() as int, name);
}

proof fn lemma_stage(m: Members, k: int, name: Seq<char>)
    requires
        0 <= k <= m.len(),
    ensures
        stage_params(m, k).contains_key(name) <==> (exists|i: int|
            0 <= i < k && (#[trigger] m[i]).0 == name) && name != "id"@ && name != "name"@,
        stage_params(m, k).contains_key(name) ==> stage_params(m, k)[name] == setting_of::<DynamicValue>(
            m,
            name,
            Dynamic::Null,
        ),
    decreases k,
{
    if k > 0 {
        lemma_stage(m, k - 1, name);
        if exists|i: int| 0 <= i < k && (#[trigger] m[i]).0 == name {
            let i = choose|i: int| 0 <= i < k && (#[trigger] m[i]).0 == name;
            assert(i == k - 1 || i < k - 1);
        }
        if m[k - 1].0 == name {
            assert(m[k - 1].0 == name);
        }
    }
}

proof fn lemma_effects(list: Seq<Members>, k: int)
    requires
        0 <= k <= list.len(),
        forall|i: int| 0 <= i < k ==> effect_of(#[trigger] list[i]) is Some,
    ensures
        effects_upto(list, k).len() == k,
        forall|i: int| 0 <= i < k ==> Some(#[trigger] effects_upto(list, k)[i]) == effect_of(list[i]),
    decreases k,
{
    if k > 0 {
        lemma_effects(list, k - 1);
        assert(effect_of(list[k - 1]) is Some);
    }
}

proof fn lemma_animation_layers(list: Seq<Members>, k: int)
    requires
        0 <= k <= list.len(),
        forall|i: int| 0 <= i < k ==> animation_layer_of(#[trigger] list[i]) is Some,
    ensures
        animation_layers_upto(list, k).len() == k,
        forall|i: int|
            0 <= i < k ==> Some(#[trigger] animation_layers_upto(list, k)[i]) == animation_layer_of(
                list[i],
            ),
    decreases k,
{
    if k > 0 {
        lemma_animation_layers(list, k - 1);
        assert(animation_layer_of(list[k - 1]) is Some);
    }
}

/// An image has its effects and its animation layers in the order in which
/// its lists have them.
pub proof fn law_images_have_their_effects(m: Members)
    ensures
        lacks(m, "effects"@) ==> image_of(m).effects.len() == 0,
        lacks(m, "animationlayers"@) ==> image_of(m).animationlayers.len() == 0,
        (forall|i: int|
            0 <= i < tables(m, "effects"@).len() ==> effect_of(
                #[trigger] tables(m, "effects"@)[i],
            ) is Some) ==> image_of(m).effects.len() == tables(m, "effects"@).len() && forall|i: int|
            0 <= i < tables(m, "effects"@).len() ==> Some(#[trigger] image_of(m).effects[i]) == effect_of(
                tables(m, "effects"@)[i],
            ),
        (forall|i: int|
            0 <= i < tables(m, "animationlayers"@).len() ==> animation_layer_of(
                #[trigger] tables(m, "animationlayers"@)[i],
            ) is Some) ==> image_of(m).animationlayers.len() == tables(m, "animationlayers"@).len()
            && forall|i: int|
            0 <= i < tables(m, "animationlayers"@).len() ==> Some(
                #[trigger] image_of(m).animationlayers[i],
            ) == animation_layer_of(tables(m, "animationlayers"@)[i]),
{
    law_members_are_found_by_name(m, "effects"@);
    law_members_are_found_by_name(m, "animationlayers"@);
    let a = tables(m, "effects"@);
    let b = tables(m, "animationlayers"@);
    if forall|i: int| 0 <= i < a.len() ==> effect_of(#[trigger] a[i]) is Some {
        lemma_effects(a, a.len() as int);
    }
    if forall|i: int| 0 <= i < b.len() ==> animation_layer_of(#[trigger] b[i]) is Some {
        lemma_animation_layers(b, b.len() as int);
    }
}

/// A material has one pass for each table in its list, in the order of the
/// list.
pub proof fn law_materials_have_their_passes(m: Members, i: int)
    ensures
        material_of(Tree::Table(m)).len() == tables(m, "passes"@).len(),
        0 <= i < tables(m, "passes"@).len() ==> material_of(Tree::Table(m))[i] == pass_of(
            tables(m, "passes"@)[i],
        ),
{
}

} // verus!
