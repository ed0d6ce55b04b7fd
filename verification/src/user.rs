//! Settings that a user property or a script may drive.
use vstd::prelude::*;

use crate::copy::{copy_opt, Duplicate};
use crate::json::{lookup, text_of_tree, Json, JsonMap, Members, Tree};
use crate::strings::opt_view;
use crate::table::TextMap;
use crate::value::{
    coerce_bool, coerce_f64, coerce_i64, color_of, decoded, json_bool, json_number, json_whole,
    parse_color, parse_vec2, parse_vec3, vec_numbers, Color, Dynamic, DynamicValue, Number, Scalar,
    Vec2, Vec3, ONE_BITS,
};

verus! {

/// The user property that a setting follows.
#[derive(Debug)]
pub enum UserRef {
    /// The setting takes the property's value.
    Name(String),
    /// The setting says whether the property reads as `condition`.
    Conditional { name: String, condition: String },
}

/// What a [`UserRef`] holds.
pub enum Reference {
    Name(Seq<char>),
    Conditional { name: Seq<char>, condition: Seq<char> },
}

impl View for UserRef {
    type V = Reference;

    open spec fn view(&self) -> Reference {
        match self {
            UserRef::Name(n) => Reference::Name(n@),
            UserRef::Conditional { name, condition } => Reference::Conditional {
                name: name@,
                condition: condition@,
            },
        }
    }
}

impl Reference {
    /// The property's name.
    pub open spec fn name(self) -> Seq<char> {
        match self {
            Reference::Name(n) => n,
            Reference::Conditional { name, condition } => name,
        }
    }
}

impl UserRef {
    pub fn name(&self) -> (r: &str)
        ensures
            r@ == self@.name(),
    {
        match self {
            UserRef::Name(n) => n.as_str(),
            UserRef::Conditional { name, condition: _ } => name.as_str(),
        }
    }
}

impl Duplicate for UserRef {
    fn duplicate(&self) -> (r: Self) {
        match self {
            UserRef::Name(n) => UserRef::Name(n.clone()),
            UserRef::Conditional { name, condition } => UserRef::Conditional {
                name: name.clone(),
                condition: condition.clone(),
            },
        }
    }
}

/// The script that drives a setting, with the properties it is given.
#[derive(Debug)]
pub struct ScriptBinding {
    pub source: String,
    pub properties: JsonMap,
}

/// What a [`ScriptBinding`] holds.
pub struct Script {
    pub source: Seq<char>,
    pub properties: Members,
}

impl View for ScriptBinding {
    type V = Script;

    open spec fn view(&self) -> Script {
        Script { source: self.source@, properties: self.properties@ }
    }
}

impl Duplicate for ScriptBinding {
    fn duplicate(&self) -> (r: Self) {
        ScriptBinding { source: self.source.clone(), properties: self.properties.copy() }
    }
}

/// A setting: its value, and what may drive it.
#[derive(Debug)]
pub struct UserSetting<T> {
    pub value: T,
    pub user: Option<UserRef>,
    pub script: Option<ScriptBinding>,
}

/// What a [`UserSetting`] holds.
pub struct Setting<W> {
    pub value: W,
    pub user: Option<Reference>,
    pub script: Option<Script>,
}

impl<T: View> View for UserSetting<T> {
    type V = Setting<T::V>;

    open spec fn view(&self) -> Setting<T::V> {
        Setting { value: self.value@, user: opt_view(self.user), script: opt_view(self.script) }
    }
}

/// A setting that nothing drives.
pub open spec fn literal_setting<W>(value: W) -> Setting<W> {
    Setting { value, user: None, script: None }
}

impl<W> Setting<W> {
    /// Whether anything drives the setting.
    pub open spec fn bound(self) -> bool {
        self.user is Some || self.script is Some
    }
}

impl<T: View> UserSetting<T> {
    pub fn literal(value: T) -> (r: Self)
        ensures
            r@ == literal_setting(value@),
    {
        UserSetting { value, user: None, script: None }
    }

    pub fn is_bound(&self) -> (r: bool)
        ensures
            r == self@.bound(),
    {
        self.user.is_some() || self.script.is_some()
    }
}

impl<T: Duplicate> Duplicate for UserSetting<T> {
    fn duplicate(&self) -> (r: Self) {
        UserSetting {
            value: self.value.duplicate(),
            user: copy_opt(&self.user),
            script: copy_opt(&self.script),
        }
    }
}

/// The values that a material gives the constants of its shader.
pub type ConstantValues = TextMap<UserSetting<DynamicValue>>;

/// What [`ConstantValues`] hold.
pub type Constants = Map<Seq<char>, Setting<Dynamic>>;

/// A value that a setting can have: how it is read from a document.
pub trait Readable: View + Sized {
    /// The value that a JSON value stands for, if it stands for one.
    spec fn reading(t: Tree) -> Option<Self::V>;

    fn read(v: &Json) -> (r: Option<Self>)
        ensures
            opt_view(r) == Self::reading(v@),
    ;
}

impl Readable for bool {
    open spec fn reading(t: Tree) -> Option<bool> {
        json_bool(t)
    }

    fn read(v: &Json) -> (r: Option<Self>) {
        coerce_bool(v)
    }
}

impl Readable for Scalar {
    open spec fn reading(t: Tree) -> Option<Number> {
        json_number(t)
    }

    fn read(v: &Json) -> (r: Option<Self>) {
        coerce_f64(v)
    }
}

impl Readable for i64 {
    open spec fn reading(t: Tree) -> Option<i64> {
        json_whole(t)
    }

    fn read(v: &Json) -> (r: Option<Self>) {
        coerce_i64(v)
    }
}

impl Readable for String {
    open spec fn reading(t: Tree) -> Option<Seq<char>> {
        text_of_tree(Some(t))
    }

    fn read(v: &Json) -> (r: Option<Self>) {
        match v.as_text() {
            Some(s) => Some(s.clone()),
            None => None,
        }
    }
}

/// The vector of two that a text spells.
pub open spec fn vec2_of(t: Tree) -> Option<(Number, Number)> {
    match t {
        Tree::Text(s) => {
            let v = vec_numbers(s);
            if v.len() == 2 {
                Some((v[0], v[1]))
            } else {
                None
            }
        },
        _ => None,
    }
}

/// The vector of three that a text spells.
pub open spec fn vec3_of(t: Tree) -> Option<(Number, Number, Number)> {
    match t {
        Tree::Text(s) => {
            let v = vec_numbers(s);
            if v.len() == 3 {
                Some((v[0], v[1], v[2]))
            } else {
                None
            }
        },
        _ => None,
    }
}

impl Readable for Vec2 {
    open spec fn reading(t: Tree) -> Option<(Number, Number)> {
        vec2_of(t)
    }

    fn read(v: &Json) -> (r: Option<Self>) {
        match v.as_text() {
            Some(s) => match parse_vec2(s.as_str()) {
                Ok(x) => Some(x),
                Err(_) => None,
            },
            None => None,
        }
    }
}

impl Readable for Vec3 {
    open spec fn reading(t: Tree) -> Option<(Number, Number, Number)> {
        vec3_of(t)
    }

    fn read(v: &Json) -> (r: Option<Self>) {
        match v.as_text() {
            Some(s) => match parse_vec3(s.as_str()) {
                Ok(x) => Some(x),
                Err(_) => None,
            },
            None => None,
        }
    }
}

impl Readable for Color {
    open spec fn reading(t: Tree) -> Option<(Number, Number, Number, Number)> {
        match t {
            Tree::Text(s) => match color_of(s, Number::Single(ONE_BITS), false) {
                Ok(c) => Some(c),
                Err(e) => None,
            },
            _ => None,
        }
    }

    fn read(v: &Json) -> (r: Option<Self>) {
        match v.as_text() {
            Some(s) => match parse_color(s.as_str(), Scalar::Single(ONE_BITS), false) {
                Ok(x) => Some(x),
                Err(_) => None,
            },
            None => None,
        }
    }
}

impl Readable for DynamicValue {
    open spec fn reading(t: Tree) -> Option<Dynamic> {
        Some(decoded(t, false))
    }

    fn read(v: &Json) -> (r: Option<Self>) {
        Some(DynamicValue::decode(v, false))
    }
}

/// The user property that an entry follows.
pub open spec fn reference_of(m: Members) -> Option<Reference> {
    match lookup(m, "user"@) {
        Some(Tree::Text(name)) => Some(Reference::Name(name)),
        Some(Tree::Table(o)) => match (lookup(o, "name"@), lookup(o, "condition"@)) {
            (Some(Tree::Text(name)), Some(c)) => Some(
                Reference::Conditional {
                    name,
                    condition: match c {
                        Tree::Text(s) => s,
                        _ => Seq::empty(),
                    },
                },
            ),
            _ => None,
        },
        _ => None,
    }
}

/// The script that drives an entry.
pub open spec fn script_of(m: Members) -> Option<Script> {
    match lookup(m, "script"@) {
        Some(Tree::Text(source)) => Some(
            Script {
                source,
                properties: match lookup(m, "scriptproperties"@) {
                    Some(Tree::Table(p)) => p,
                    _ => Members::empty(),
                },
            },
        ),
        _ => None,
    }
}

fn parse_bindings(obj: &JsonMap) -> (r: (Option<UserRef>, Option<ScriptBinding>))
    ensures
        opt_view(r.0) == reference_of(obj@),
        opt_view(r.1) == script_of(obj@),
{
    let user = match obj.get("user") {
        Some(v) => match v.as_text() {
            Some(name) => Some(UserRef::Name(name.clone())),
            None => match v.as_table() {
                Some(o) => match (o.get("name"), o.get("condition")) {
                    (Some(Json::Text(name)), Some(c)) => {
                        let condition = match c.as_text() {
                            Some(s) => s.clone(),
                            None => String::new(),
                        };
                        Some(UserRef::Conditional { name: name.clone(), condition })
                    },
                    _ => None,
                },
                None => None,
            },
        },
        None => None,
    };
    let script = match obj.text("script") {
        Some(source) => {
            let properties = match obj.table("scriptproperties") {
                Some(p) => p.copy(),
                None => JsonMap::new(),
            };
            Some(ScriptBinding { source: source.clone(), properties })
        },
        None => None,
    };
    (user, script)
}

/// What `value` is where it is given and stands for one, else `default`.
pub open spec fn read_or<T: Readable>(value: Option<Tree>, default: T::V) -> T::V {
    match value {
        Some(t) => match T::reading(t) {
            Some(x) => x,
            None => default,
        },
        None => default,
    }
}

/// The setting that an entry of a document is: a plain value, or a table with
/// the value and what drives it.
pub open spec fn setting_from<T: Readable>(entry: Option<Tree>, default: T::V) -> Setting<T::V> {
    match entry {
        None | Some(Tree::Null) => literal_setting(default),
        Some(Tree::Table(o)) => Setting {
            value: read_or::<T>(lookup(o, "value"@), default),
            user: reference_of(o),
            script: script_of(o),
        },
        Some(other) => literal_setting(read_or::<T>(Some(other), default)),
    }
}

/// The setting that the entry `key` of a document is.
pub open spec fn setting_of<T: Readable>(m: Members, key: Seq<char>, default: T::V) -> Setting<T::V> {
    setting_from::<T>(lookup(m, key), default)
}

fn read_value<T: Readable>(v: Option<&Json>, default: T) -> (r: T)
    ensures
        r@ == read_or::<T>(
            match v {
                Some(x) => Some(x@),
                None => None,
            },
            default@,
        ),
{
    match v {
        Some(x) => match T::read(x) {
            Some(y) => y,
            None => default,
        },
        None => default,
    }
}

pub(crate) fn read_entry<T: Readable>(v: &Json, default: T) -> (r: UserSetting<T>)
    ensures
        r@ == setting_from::<T>(Some(v@), default@),
{
    match v {
        Json::Null => UserSetting::literal(default),
        other => match other.as_table() {
            Some(obj) => {
                let (user, script) = parse_bindings(obj);
                UserSetting { value: read_value(obj.get("value"), default), user, script }
            },
            None => UserSetting::literal(read_value(Some(other), default)),
        },
    }
}

/// Reads the setting `key` of a document.
pub fn read_user<T: Readable>(map: &JsonMap, key: &str, default: T) -> (r: UserSetting<T>)
    ensures
        r@ == setting_of::<T>(map@, key@, default@),
{
    match map.get(key) {
        None => UserSetting::literal(default),
        Some(v) => read_entry(v, default),
    }
}

pub fn user_bool(map: &JsonMap, key: &str, default: bool) -> (r: UserSetting<bool>)
    ensures
        r@ == setting_of::<bool>(map@, key@, default),
{
    read_user(map, key, default)
}

pub fn user_f32(map: &JsonMap, key: &str, default: u32) -> (r: UserSetting<Scalar>)
    ensures
        r@ == setting_of::<Scalar>(map@, key@, Number::Single(default)),
{
    read_user(map, key, Scalar::Single(default))
}

pub fn user_i64(map: &JsonMap, key: &str, default: i64) -> (r: UserSetting<i64>)
    ensures
        r@ == setting_of::<i64>(map@, key@, default),
{
    read_user(map, key, default)
}

pub fn user_string(map: &JsonMap, key: &str, default: &str) -> (r: UserSetting<String>)
    ensures
        r@ == setting_of::<String>(map@, key@, default@),
{
    read_user(map, key, default.to_owned())
}

pub fn user_vec2(map: &JsonMap, key: &str, default: Vec2) -> (r: UserSetting<Vec2>)
    ensures
        r@ == setting_of::<Vec2>(map@, key@, default@),
{
    read_user(map, key, default)
}

pub fn user_vec3(map: &JsonMap, key: &str, default: Vec3) -> (r: UserSetting<Vec3>)
    ensures
        r@ == setting_of::<Vec3>(map@, key@, default@),
{
    read_user(map, key, default)
}

pub fn user_color(map: &JsonMap, key: &str, default: Color) -> (r: UserSetting<Color>)
    ensures
        r@ == setting_of::<Color>(map@, key@, default@),
{
    read_user(map, key, default)
}

/// The first `k` entries of a table of constants.
pub open spec fn constants_upto(m: Members, k: int) -> Constants
    decreases k,
{
    if k <= 0 {
        Map::empty()
    } else {
        constants_upto(m, k - 1).insert(
            m[k - 1].0,
            setting_from::<DynamicValue>(Some(m[k - 1].1), Dynamic::Null),
        )
    }
}

/// The constants that a table gives; anything but a table gives none.
pub open spec fn constants_of(t: Option<Tree>) -> Constants {
    match t {
        Some(Tree::Table(m)) => constants_upto(m, m.len() as int),
        _ => Map::empty(),
    }
}

pub fn parse_constant_values(value: Option<&Json>) -> (r: ConstantValues)
    ensures
        r@ == constants_of(
            match value {
                Some(v) => Some(v@),
                None => None,
            },
        ),
{
    let mut out: ConstantValues = TextMap::new();
    if let Some(v) = value {
        if let Some(m) = v.as_table() {
            let mut i: usize = 0;
            while i < m.entries.len()
                invariant
                    i <= m.entries@.len(),
                    out@ == constants_upto(m@, i as int),
                decreases m.entries@.len() - i,
            {
                let us = read_entry(&m.entries[i].1, DynamicValue::Null);
                assert(m@[i as int] == (m.entries@[i as int].0@, m.entries@[i as int].1@));
                out.insert(m.entries[i].0.clone(), us);
                i += 1;
            }
        }
    }
    out
}

} // verus!
