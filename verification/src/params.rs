//! The values that a shader's parameters take.
use vstd::prelude::*;

use crate::copy::{copy_vec, Duplicate};
use crate::material::{Pass, PassModel};
use crate::strings::{
    comes_before, lemma_text_less_total, lemma_text_less_trans, lower, same_ignoring_case,
    same_text, text_less, views,
};
use crate::table::{as_map, lemma_as_map, lemma_position, position, TextMap};
use crate::user::{ConstantValues, Constants};
use crate::value::{Dynamic, DynamicValue, Number, Scalar, ONE_BITS, ZERO_BITS};

verus! {

#[derive(Clone, Copy, Debug, PartialEq, Eq, Structural)]
pub enum ParamType {
    Float,
    Int,
    Vec2,
    Vec3,
    Vec4,
}

/// A parameter of a shader: its name there, and the one that materials use.
#[derive(Debug)]
pub struct Parameter {
    pub name: String,
    pub material: String,
    pub ty: ParamType,
    /// The value that the shader gives it itself.
    pub default: Option<Vec<Scalar>>,
}

/// What a [`Parameter`] holds.
pub struct ParamModel {
    pub name: Seq<char>,
    pub material: Seq<char>,
    pub ty: ParamType,
    pub default: Option<Seq<Number>>,
}

impl View for Parameter {
    type V = ParamModel;

    open spec fn view(&self) -> ParamModel {
        ParamModel {
            name: self.name@,
            material: self.material@,
            ty: self.ty,
            default: match self.default {
                Some(d) => Some(views(d@)),
                None => None,
            },
        }
    }
}

/// The number of components that a parameter has.
pub open spec fn components(ty: ParamType) -> nat {
    match ty {
        ParamType::Float | ParamType::Int => 1,
        ParamType::Vec2 => 2,
        ParamType::Vec3 => 3,
        ParamType::Vec4 => 4,
    }
}

pub fn param_len(p: &Parameter) -> (n: usize)
    ensures
        n == components(p@.ty),
{
    match p.ty {
        ParamType::Float | ParamType::Int => 1,
        ParamType::Vec2 => 2,
        ParamType::Vec3 => 3,
        ParamType::Vec4 => 4,
    }
}

/// A value as one number.
pub open spec fn dynamic_number(v: Dynamic) -> Number {
    match v {
        Dynamic::Bool(b) => Number::Single(
            if b {
                ONE_BITS
            } else {
                ZERO_BITS
            },
        ),
        Dynamic::Int(i) => Number::Int(i),
        Dynamic::Float(f) => f,
        Dynamic::Str(s) => Number::Lexeme(crate::value::float_lexeme(s)),
        Dynamic::Vec(v) => if v.len() > 0 {
            v[0]
        } else {
            Number::Single(ZERO_BITS)
        },
        Dynamic::Color(c) => c.0,
        Dynamic::Null => Number::Single(ZERO_BITS),
    }
}

/// The components of a value before they are fitted to a parameter.
pub open spec fn raw_components(v: Dynamic) -> Seq<Number> {
    match v {
        Dynamic::Vec(s) => s,
        Dynamic::Color(c) => seq![c.0, c.1, c.2, c.3],
        _ => seq![dynamic_number(v)],
    }
}

/// `n` components: the first of `s`, then zeros.
pub open spec fn fitted(s: Seq<Number>, n: nat) -> Seq<Number> {
    Seq::new(
        n,
        |i: int|
            if i < s.len() {
                s[i]
            } else {
                Number::Single(ZERO_BITS)
            },
    )
}

/// Whether `k` is the name under which the constants give a parameter its
/// value: the parameter's own, or else the first in order that is the same but
/// for case.
pub open spec fn gives(constants: Constants, name: Seq<char>, k: Seq<char>) -> bool {
    constants.contains_key(k) && if constants.contains_key(name) {
        k == name
    } else {
        lower(k) == lower(name) && forall|o: Seq<char>| #[trigger]
            constants.contains_key(o) && lower(o) == lower(name) ==> !text_less(o, k)
    }
}

/// The value of a parameter: what the pass gives it, or else the shader itself.
pub open spec fn param_value(constants: Constants, p: ParamModel) -> Option<Seq<Number>> {
    if exists|k: Seq<char>| #[trigger] gives(constants, p.material, k) {
        let k = choose|k: Seq<char>| #[trigger] gives(constants, p.material, k);
        Some(fitted(raw_components(constants[k].value), components(p.ty)))
    } else {
        p.default
    }
}

/// The values of the first `n` parameters that have one, by their name in the shader.
pub open spec fn param_values(
    constants: Constants,
    params: Seq<ParamModel>,
    n: int,
) -> Map<Seq<char>, Seq<Number>>
    decreases n,
{
    if n <= 0 {
        Map::empty()
    } else {
        let before = param_values(constants, params, n - 1);
        match param_value(constants, params[n - 1]) {
            Some(v) => before.insert(params[n - 1].name, v),
            None => before,
        }
    }
}

/// A list of numbers.
#[derive(Debug)]
pub struct Numbers {
    pub values: Vec<Scalar>,
}

impl View for Numbers {
    type V = Seq<Number>;

    open spec fn view(&self) -> Seq<Number> {
        views(self.values@)
    }
}

impl Duplicate for Numbers {
    fn duplicate(&self) -> (r: Self) {
        Numbers { values: copy_vec(&self.values) }
    }
}

proof fn lemma_gives_is_unique(constants: Constants, name: Seq<char>, a: Seq<char>, b: Seq<char>)
    requires
        gives(constants, name, a),
        gives(constants, name, b),
    ensures
        a == b,
{
    if !constants.contains_key(name) {
        lemma_text_less_total(a, b);
    }
}

fn find_given(constants: &ConstantValues, name: &str) -> (r: Option<usize>)
    ensures
        match r {
            Some(i) => i < constants.items().len() && gives(
                constants@,
                name@,
                constants.items()[i as int].0,
            ) && constants@[constants.items()[i as int].0] == constants.items()[i as int].1,
            None => forall|k: Seq<char>| !gives(constants@, name@, k),
        },
{
    let n: usize = constants.len();
    let ghost items = constants.items();
    proof {
        lemma_as_map(items);
    }
    let mut best: Option<usize> = None;
    let mut i: usize = 0;
    while i < n
        invariant
            i <= n,
            n == items.len(),
            items == constants.items(),
            constants@ == as_map(items),
            forall|j: int| 0 <= j < i ==> (#[trigger] items[j]).0 != name@,
            match best {
                Some(b) => b < i && lower(items[b as int].0) == lower(name@) && forall|j: int|
                    0 <= j < i && lower((#[trigger] items[j]).0) == lower(name@) ==> !text_less(
                        items[j].0,
                        items[b as int].0,
                    ),
                None => forall|j: int|
                    0 <= j < i ==> lower((#[trigger] items[j]).0) != lower(name@),
            },
            forall|j: int|
                0 <= j < items.len() ==> as_map(items).contains_pair(
                    #[trigger] items[j].0,
                    items[j].1,
                ),
        decreases n - i,
    {
        let key = constants.key(i);
        if same_text(key.as_str(), name) {
            assert(as_map(items).contains_pair(items[i as int].0, items[i as int].1));
            return Some(i);
        }
        if same_ignoring_case(key.as_str(), name) {
            match best {
                Some(b) => {
                    let ghost old_best = items[b as int].0;
                    if comes_before(key.as_str(), constants.key(b).as_str()) {
                        proof {
                            assert forall|j: int|
                                0 <= j < i + 1 && lower((#[trigger] items[j]).0) == lower(
                                    name@,
                                ) implies !text_less(items[j].0, items[i as int].0) by {
                                lemma_text_less_total(items[j].0, items[i as int].0);
                                if text_less(items[j].0, items[i as int].0) {
                                    if j < i {
                                        lemma_text_less_trans(
                                            items[j].0,
                                            items[i as int].0,
                                            old_best,
                                        );
                                    }
                                }
                            }
                        }
                        best = Some(i);
                    }
                },
                None => {
                    proof {
                        lemma_text_less_total(items[i as int].0, items[i as int].0);
                    }
                    best = Some(i);
                },
            }
        }
        i += 1;
    }
    proof {
        assert(!constants@.contains_key(name@)) by {
            lemma_position(items, name@, 0);
        }
        assert forall|o: Seq<char>| #[trigger] constants@.contains_key(o) implies exists|j: int|
            0 <= j < items.len() && (#[trigger] items[j]).0 == o by {
            lemma_position(items, o, 0);
            let j = position(items, o, 0)->0;
            assert(items[j].0 == o);
        }
        if let Some(b) = best {
            assert(as_map(items).contains_pair(items[b as int].0, items[b as int].1));
        }
    }
    best
}

/// The single that a value stands for.
pub fn dynamic_scalar(v: &DynamicValue) -> (r: Scalar)
    ensures
        r@ == dynamic_number(v@),
{
    match v {
        DynamicValue::Bool(b) => Scalar::Single(
            if *b {
                ONE_BITS
            } else {
                ZERO_BITS
            },
        ),
        DynamicValue::Int(i) => Scalar::Int(*i),
        DynamicValue::Float(f) => f.duplicate(),
        DynamicValue::Str(s) => Scalar::Lexeme(crate::value::strtof_lexeme(s.as_str())),
        DynamicValue::Vec(c) => if c.len() > 0 {
            c[0].duplicate()
        } else {
            Scalar::Single(ZERO_BITS)
        },
        DynamicValue::Color(c) => c.r.duplicate(),
        DynamicValue::Null => Scalar::Single(ZERO_BITS),
    }
}

fn dynamic_components(v: &DynamicValue, n: usize) -> (r: Vec<Scalar>)
    ensures
        views(r@) == fitted(raw_components(v@), n as nat),
{
    let raw: Vec<Scalar> = match v {
        DynamicValue::Vec(c) => copy_vec(c),
        DynamicValue::Color(c) => {
            let mut out: Vec<Scalar> = Vec::new();
            out.push(c.r.duplicate());
            out.push(c.g.duplicate());
            out.push(c.b.duplicate());
            out.push(c.a.duplicate());
            out
        },
        other => {
            let mut out: Vec<Scalar> = Vec::new();
            out.push(dynamic_scalar(other));
            out
        },
    };
    assert(views(raw@) =~= raw_components(v@));
    let mut out: Vec<Scalar> = Vec::new();
    let mut i: usize = 0;
    while i < n
        invariant
            i <= n,
            out@.len() == i,
            views(raw@) == raw_components(v@),
            forall|j: int|
                0 <= j < i ==> (#[trigger] out@[j])@ == fitted(raw_components(v@), n as nat)[j],
        decreases n - i,
    {
        if i < raw.len() {
            out.push(raw[i].duplicate());
        } else {
            out.push(Scalar::Single(ZERO_BITS));
        }
        i += 1;
    }
    assert(views(out@) =~= fitted(raw_components(v@), n as nat));
    out
}

/// The values of a shader's parameters in a pass.
pub fn resolve_params(params: &Vec<Parameter>, pass: &Pass) -> (r: TextMap<Numbers>)
    ensures
        r@ == param_values(pass@.constants, views(params@), params@.len() as int),
{
    let ghost all = views(params@);
    let constants = &pass.constantshadervalues;
    let mut out: TextMap<Numbers> = TextMap::new();
    let mut i: usize = 0;
    while i < params.len()
        invariant
            i <= params@.len(),
            all == views(params@),
            constants@ == pass@.constants,
            out@ == param_values(pass@.constants, all, i as int),
        decreases params@.len() - i,
    {
        let p = &params[i];
        assert(all[i as int] == p@);
        let ghost wanted = param_value(pass@.constants, p@);
        match find_given(constants, p.material.as_str()) {
            Some(at) => {
                proof {
                    let k = constants.items()[at as int].0;
                    assert(gives(constants@, p@.material, k));
                    let c = choose|k: Seq<char>| #[trigger] gives(constants@, p@.material, k);
                    lemma_gives_is_unique(constants@, p@.material, k, c);
                }
                let values = dynamic_components(&constants.at(at).value, param_len(p));
                let given = Numbers { values };
                assert(wanted == Some(given@));
                out.insert(p.name.clone(), given);
            },
            None => {
                assert(wanted == p@.default);
                match &p.default {
                    Some(d) => {
                        let given = Numbers { values: copy_vec(d) };
                        assert(wanted == Some(given@));
                        out.insert(p.name.clone(), given);
                    },
                    None => {},
                }
            },
        }
        i += 1;
    }
    out
}

/// Whether a parameter goes by a name in materials.
pub open spec fn named_so(params: Seq<ParamModel>, name: Seq<char>) -> bool {
    exists|i: int| 0 <= i < params.len() && (#[trigger] params[i]).material == name
}

fn any_named_so(params: &Vec<Parameter>, name: &str) -> (r: bool)
    ensures
        r == named_so(views(params@), name@),
{
    let ghost all = views(params@);
    let mut i: usize = 0;
    while i < params.len()
        invariant
            i <= params@.len(),
            all == views(params@),
            forall|j: int| 0 <= j < i ==> (#[trigger] all[j]).material != name@,
        decreases params@.len() - i,
    {
        assert(all[i as int] == params@[i as int]@);
        if same_text(params[i].material.as_str(), name) {
            return true;
        }
        i += 1;
    }
    false
}

/// The constants that a parameter of either stage goes by.
pub open spec fn used_constants(
    constants: Constants,
    vs: Seq<ParamModel>,
    fs: Seq<ParamModel>,
) -> Constants {
    Map::new(
        |k: Seq<char>| constants.contains_key(k) && (named_so(vs, k) || named_so(fs, k)),
        |k: Seq<char>| constants[k],
    )
}

/// A pass without the constants that no parameter of either stage goes by.
pub fn with_used_constants(pass: &Pass, vs: &Vec<Parameter>, fs: &Vec<Parameter>) -> (r: Pass)
    ensures
        r@ == (PassModel {
            constants: used_constants(pass@.constants, views(vs@), views(fs@)),
            ..pass@
        }),
{
    let constants = &pass.constantshadervalues;
    let n: usize = constants.len();
    let ghost items = constants.items();
    let mut kept: ConstantValues = TextMap::new();
    let mut i: usize = 0;
    assert(kept@ =~= used_constants(as_map(items.take(0)), views(vs@), views(fs@)));
    while i < n
        invariant
            i <= n,
            n == items.len(),
            items == constants.items(),
            crate::table::distinct_keys(items),
            kept@ == used_constants(as_map(items.take(i as int)), views(vs@), views(fs@)),
        decreases n - i,
    {
        proof {
            crate::table::lemma_as_map_grows(items, i as int);
        }
        let ghost before = kept@;
        let key = constants.key(i);
        if any_named_so(vs, key.as_str()) || any_named_so(fs, key.as_str()) {
            kept.insert(key.clone(), constants.at(i).duplicate());
        }
        assert(kept@ =~= used_constants(as_map(items.take(i + 1)), views(vs@), views(fs@)));
        i += 1;
    }
    assert(items.take(n as int) =~= items);
    let mut r = pass.duplicate();
    r.constantshadervalues = kept;
    r
}

} // verus!
