//! The values that scripts exchange with the scene.
use vstd::prelude::*;

use crate::copy::Duplicate;
use crate::property::{Property, PropertyValue};
use crate::value::{Number, Scalar, Vec3, ONE_BITS, ZERO_BITS};

verus! {

/// A value of a script. `Float` holds the bits of a double, the vectors those
/// of singles.
#[derive(Debug, PartialEq)]
pub enum ScriptValue {
    Null,
    Bool(bool),
    Int(i64),
    Float(u64),
    Str(String),
    Vec2([u32; 2]),
    Vec3([u32; 3]),
    Vec4([u32; 4]),
}

/// What a [`ScriptValue`] holds.
pub enum Scripted {
    Null,
    Bool(bool),
    Int(i64),
    Float(u64),
    Str(Seq<char>),
    Vec2([u32; 2]),
    Vec3([u32; 3]),
    Vec4([u32; 4]),
}

impl View for ScriptValue {
    type V = Scripted;

    open spec fn view(&self) -> Scripted {
        match self {
            ScriptValue::Null => Scripted::Null,
            ScriptValue::Bool(b) => Scripted::Bool(*b),
            ScriptValue::Int(i) => Scripted::Int(*i),
            ScriptValue::Float(f) => Scripted::Float(*f),
            ScriptValue::Str(s) => Scripted::Str(s@),
            ScriptValue::Vec2(v) => Scripted::Vec2(*v),
            ScriptValue::Vec3(v) => Scripted::Vec3(*v),
            ScriptValue::Vec4(v) => Scripted::Vec4(*v),
        }
    }
}

impl Duplicate for ScriptValue {
    fn duplicate(&self) -> (r: Self) {
        match self {
            ScriptValue::Null => ScriptValue::Null,
            ScriptValue::Bool(b) => ScriptValue::Bool(*b),
            ScriptValue::Int(i) => ScriptValue::Int(*i),
            ScriptValue::Float(f) => ScriptValue::Float(*f),
            ScriptValue::Str(s) => ScriptValue::Str(s.clone()),
            ScriptValue::Vec2(v) => ScriptValue::Vec2(*v),
            ScriptValue::Vec3(v) => ScriptValue::Vec3(*v),
            ScriptValue::Vec4(v) => ScriptValue::Vec4(*v),
        }
    }
}

/// A value read as a number, if it is one.
pub open spec fn number_of(v: Scripted) -> Option<Number> {
    match v {
        Scripted::Float(f) => Some(Number::Real(f)),
        Scripted::Int(i) => Some(Number::Int(i)),
        Scripted::Bool(b) => Some(
            Number::Single(
                if b {
                    ONE_BITS
                } else {
                    ZERO_BITS
                },
            ),
        ),
        _ => None,
    }
}

/// A value read as a vector, if it is one. A number stands for all three.
pub open spec fn vector_of(v: Scripted) -> Option<(Number, Number, Number)> {
    match v {
        Scripted::Vec3(a) => Some((Number::Single(a[0]), Number::Single(a[1]), Number::Single(a[2]))),
        Scripted::Vec2(a) => Some(
            (Number::Single(a[0]), Number::Single(a[1]), Number::Single(ZERO_BITS)),
        ),
        Scripted::Float(f) => Some((Number::Real(f), Number::Real(f), Number::Real(f))),
        _ => None,
    }
}

/// A value read as a colour, if it is one; an alpha channel is dropped.
pub open spec fn colour_of(v: Scripted) -> Option<(Number, Number, Number)> {
    match v {
        Scripted::Vec4(a) => Some((Number::Single(a[0]), Number::Single(a[1]), Number::Single(a[2]))),
        _ => vector_of(v),
    }
}

/// Whether a double, rounded to a single, is anything but zero: its magnitude
/// is above half the least positive single. A quiet or signalling NaN is.
pub open spec fn double_is_set(bits: u64) -> bool {
    bits % 0x8000_0000_0000_0000 > 0x3690_0000_0000_0000
}

/// A value read as a flag, if it can be: a number is set unless it is zero.
pub open spec fn flag_of(v: Scripted) -> Option<bool> {
    match v {
        Scripted::Bool(b) => Some(b),
        Scripted::Int(i) => Some(i != 0),
        Scripted::Float(f) => Some(double_is_set(f)),
        _ => None,
    }
}

pub fn as_f32(v: &ScriptValue) -> (r: Option<Scalar>)
    ensures
        match r {
            Some(s) => number_of(v@) == Some(s@),
            None => number_of(v@) is None,
        },
{
    match v {
        ScriptValue::Float(f) => Some(Scalar::Real(*f)),
        ScriptValue::Int(i) => Some(Scalar::Int(*i)),
        ScriptValue::Bool(b) => Some(
            Scalar::Single(
                if *b {
                    ONE_BITS
                } else {
                    ZERO_BITS
                },
            ),
        ),
        _ => None,
    }
}

pub fn as_vec3(v: &ScriptValue) -> (r: Option<Vec3>)
    ensures
        match r {
            Some(s) => vector_of(v@) == Some(s@),
            None => vector_of(v@) is None,
        },
{
    match v {
        ScriptValue::Vec3(a) => Some(
            Vec3 { x: Scalar::Single(a[0]), y: Scalar::Single(a[1]), z: Scalar::Single(a[2]) },
        ),
        ScriptValue::Vec2(a) => Some(
            Vec3 { x: Scalar::Single(a[0]), y: Scalar::Single(a[1]), z: Scalar::Single(ZERO_BITS) },
        ),
        ScriptValue::Float(f) => Some(
            Vec3 { x: Scalar::Real(*f), y: Scalar::Real(*f), z: Scalar::Real(*f) },
        ),
        _ => None,
    }
}

pub fn as_rgb(v: &ScriptValue) -> (r: Option<Vec3>)
    ensures
        match r {
            Some(s) => colour_of(v@) == Some(s@),
            None => colour_of(v@) is None,
        },
{
    match v {
        ScriptValue::Vec4(a) => Some(
            Vec3 { x: Scalar::Single(a[0]), y: Scalar::Single(a[1]), z: Scalar::Single(a[2]) },
        ),
        other => as_vec3(other),
    }
}

pub fn as_flag(v: &ScriptValue) -> (r: Option<bool>)
    ensures
        r == flag_of(v@),
{
    match v {
        ScriptValue::Bool(b) => Some(*b),
        ScriptValue::Int(i) => Some(*i != 0),
        ScriptValue::Float(f) => Some(*f % 0x8000_0000_0000_0000 > 0x3690_0000_0000_0000),
        _ => None,
    }
}

/// A user property as a script sees it.
pub open spec fn property_for_script(v: Property) -> Scripted {
    match v {
        Property::Bool(b) => Scripted::Bool(b),
        Property::Number { bits, single, shown } => Scripted::Float(bits),
        Property::Color { rgba, shown } => Scripted::Vec3([rgba[0], rgba[1], rgba[2]]),
        Property::Combo { text, single } => Scripted::Str(text),
        Property::Text { text, single } => Scripted::Str(text),
    }
}

pub fn prop_to_script(v: &PropertyValue) -> (r: ScriptValue)
    ensures
        r@ == property_for_script(v@),
{
    match v {
        PropertyValue::Bool(b) => ScriptValue::Bool(*b),
        PropertyValue::Number { bits, single: _, shown: _ } => ScriptValue::Float(*bits),
        PropertyValue::Color { rgba, shown: _ } => ScriptValue::Vec3([rgba[0], rgba[1], rgba[2]]),
        PropertyValue::Combo { text, single: _ } => ScriptValue::Str(text.clone()),
        PropertyValue::Text { text, single: _ } => ScriptValue::Str(text.clone()),
    }
}

} // verus!
