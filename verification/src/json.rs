//! JSON documents as plain values.
use serde_json::Value;
use vstd::prelude::*;

use crate::strings::{same_text, views};

verus! {

/// A JSON value. A number is an integer where it is written as one that fits
/// 64 bits, and otherwise the bits of a double.
#[derive(Debug)]
pub enum Json {
    Null,
    Bool(bool),
    Int(i64),
    UInt(u64),
    Real(u64),
    Text(String),
    List(Vec<Json>),
    Table(JsonMap),
}

/// The members of a JSON object, in order. Where a key stands twice the first
/// one counts; no table that [`parse`] returns holds a key twice.
#[derive(Debug)]
pub struct JsonMap {
    pub entries: Vec<(String, Json)>,
}

/// What a [`Json`] holds.
pub enum Tree {
    Null,
    Bool(bool),
    Int(i64),
    UInt(u64),
    Real(u64),
    Text(Seq<char>),
    List(Seq<Tree>),
    Table(Members),
}

/// The members of a JSON object.
pub type Members = Seq<(Seq<char>, Tree)>;

impl Json {
    pub open spec fn tree(&self) -> Tree
        decreases self,
    {
        match self {
            Json::Null => Tree::Null,
            Json::Bool(b) => Tree::Bool(*b),
            Json::Int(i) => Tree::Int(*i),
            Json::UInt(u) => Tree::UInt(*u),
            Json::Real(bits) => Tree::Real(*bits),
            Json::Text(s) => Tree::Text(s@),
            Json::List(v) => Tree::List(
                Seq::new(
                    v@.len(),
                    |i: int|
                        if 0 <= i < v@.len() {
                            v@[i].tree()
                        } else {
                            Tree::Null
                        },
                ),
            ),
            Json::Table(m) => Tree::Table(
                Seq::new(
                    m.entries@.len(),
                    |i: int|
                        (
                            m.entries@[i].0@,
                            if 0 <= i < m.entries@.len() {
                                m.entries@[i].1.tree()
                            } else {
                                Tree::Null
                            },
                        ),
                ),
            ),
        }
    }
}

impl View for Json {
    type V = Tree;

    open spec fn view(&self) -> Tree {
        self.tree()
    }
}

impl View for JsonMap {
    type V = Members;

    open spec fn view(&self) -> Members {
        Seq::new(self.entries@.len(), |i: int| (self.entries@[i].0@, self.entries@[i].1@))
    }
}

/// Where `key` first stands among the members at or after `from`.
pub open spec fn find_key(m: Members, key: Seq<char>, from: int) -> Option<int>
    decreases m.len() - from,
{
    if from < 0 || from >= m.len() {
        None
    } else if m[from].0 == key {
        Some(from)
    } else {
        find_key(m, key, from + 1)
    }
}

/// The value that `key` has.
pub open spec fn lookup(m: Members, key: Seq<char>) -> Option<Tree> {
    match find_key(m, key, 0) {
        Some(i) => Some(m[i].1),
        None => None,
    }
}

/// The value that `key` has where the value is a table.
pub open spec fn member(t: Tree, key: Seq<char>) -> Option<Tree> {
    match t {
        Tree::Table(m) => lookup(m, key),
        _ => None,
    }
}

/// The text of a value that is one.
pub open spec fn text_of_tree(t: Option<Tree>) -> Option<Seq<char>> {
    match t {
        Some(Tree::Text(s)) => Some(s),
        _ => None,
    }
}

/// The members of a value that is a table.
pub open spec fn table_of(t: Option<Tree>) -> Option<Members> {
    match t {
        Some(Tree::Table(m)) => Some(m),
        _ => None,
    }
}

/// The items of a value that is a list.
pub open spec fn list_of(t: Option<Tree>) -> Option<Seq<Tree>> {
    match t {
        Some(Tree::List(s)) => Some(s),
        _ => None,
    }
}

/// The items of a list, and none of anything else.
pub open spec fn items(t: Option<Tree>) -> Seq<Tree> {
    match t {
        Some(Tree::List(s)) => s,
        _ => Seq::empty(),
    }
}

/// The tables among the first `k` items of a list, in order.
pub open spec fn tables_upto(list: Seq<Tree>, k: int) -> Seq<Members>
    decreases k,
{
    if k <= 0 {
        Seq::empty()
    } else {
        let before = tables_upto(list, k - 1);
        match list[k - 1] {
            Tree::Table(m) => before.push(m),
            _ => before,
        }
    }
}

/// The tables in the list that `key` has.
pub open spec fn tables(m: Members, key: Seq<char>) -> Seq<Members> {
    let list = items(lookup(m, key));
    tables_upto(list, list.len() as int)
}

/// The text that `key` has, or `default`.
pub open spec fn text_or(m: Members, key: Seq<char>, default: Seq<char>) -> Seq<char> {
    match text_of_tree(lookup(m, key)) {
        Some(s) => s,
        None => default,
    }
}

/// The texts among the first `k` items of a list, in order.
pub open spec fn texts_upto(list: Seq<Tree>, k: int) -> Seq<Seq<char>>
    decreases k,
{
    if k <= 0 {
        Seq::empty()
    } else {
        let before = texts_upto(list, k - 1);
        match list[k - 1] {
            Tree::Text(s) => before.push(s),
            _ => before,
        }
    }
}

/// The texts in the list that a value is.
pub open spec fn texts_in(t: Option<Tree>) -> Seq<Seq<char>> {
    texts_upto(items(t), items(t).len() as int)
}

/// The texts in the list that `key` has.
pub(crate) fn read_texts(value: Option<&Json>) -> (r: Vec<String>)
    ensures
        views(r@) == texts_in(
            match value {
                Some(v) => Some(v@),
                None => None,
            },
        ),
{
    let mut out: Vec<String> = Vec::new();
    assert(views(out@) =~= Seq::empty());
    if let Some(v) = value {
        if let Some(list) = v.as_list() {
            let ghost all = views(list@);
            let mut i: usize = 0;
            while i < list.len()
                invariant
                    i <= list@.len(),
                    all == views(list@),
                    views(out@) == texts_upto(all, i as int),
                decreases list@.len() - i,
            {
                broadcast use crate::strings::lemma_views_push;

                assert(all[i as int] == list@[i as int]@);
                if let Some(s) = list[i].as_text() {
                    out.push(s.clone());
                }
                i += 1;
            }
        }
    }
    out
}

impl JsonMap {
    /// The tables in the list that `key` has, in order.
    pub fn tables(&self, key: &str) -> (r: Vec<&JsonMap>)
        ensures
            r@.len() == tables(self@, key@).len(),
            forall|i: int| 0 <= i < r@.len() ==> (#[trigger] r@[i])@ == tables(self@, key@)[i],
    {
        let mut out: Vec<&JsonMap> = Vec::new();
        if let Some(list) = self.list(key) {
            let ghost all = views(list@);
            let mut i: usize = 0;
            while i < list.len()
                invariant
                    i <= list@.len(),
                    all == views(list@),
                    out@.len() == tables_upto(all, i as int).len(),
                    forall|j: int|
                        0 <= j < out@.len() ==> (#[trigger] out@[j])@ == tables_upto(
                            all,
                            i as int,
                        )[j],
                decreases list@.len() - i,
            {
                assert(all[i as int] == list@[i as int]@);
                if let Some(m) = list[i].as_table() {
                    out.push(m);
                }
                i += 1;
            }
        }
        out
    }

    /// The text that `key` has, or `default`.
    pub fn text_or(&self, key: &str, default: &str) -> (r: String)
        ensures
            r@ == text_or(self@, key@, default@),
    {
        match self.text(key) {
            Some(s) => s.clone(),
            None => default.to_owned(),
        }
    }

    /// A copy of the text that `key` has, if it has one.
    pub fn text_copy(&self, key: &str) -> (r: Option<String>)
        ensures
            crate::strings::opt_view(r) == text_of_tree(lookup(self@, key@)),
    {
        match self.text(key) {
            Some(s) => Some(s.clone()),
            None => None,
        }
    }

    pub fn new() -> (r: JsonMap)
        ensures
            r@ == Members::empty(),
    {
        let r = JsonMap { entries: Vec::new() };
        assert(r@ =~= Members::empty());
        r
    }

    /// The value of `key`.
    pub fn get(&self, key: &str) -> (r: Option<&Json>)
        ensures
            match r {
                Some(v) => lookup(self@, key@) == Some(v@),
                None => lookup(self@, key@) is None,
            },
    {
        let mut i: usize = 0;
        while i < self.entries.len()
            invariant
                i <= self.entries@.len(),
                find_key(self@, key@, 0) == find_key(self@, key@, i as int),
            decreases self.entries@.len() - i,
        {
            if same_text(self.entries[i].0.as_str(), key) {
                return Some(&self.entries[i].1);
            }
            i += 1;
        }
        None
    }

    /// The text that `key` has, if it has one.
    pub fn text(&self, key: &str) -> (r: Option<&String>)
        ensures
            match r {
                Some(s) => text_of_tree(lookup(self@, key@)) == Some(s@),
                None => text_of_tree(lookup(self@, key@)) is None,
            },
    {
        match self.get(key) {
            Some(v) => v.as_text(),
            None => None,
        }
    }

    /// The table that `key` has, if it has one.
    pub fn table(&self, key: &str) -> (r: Option<&JsonMap>)
        ensures
            match r {
                Some(m) => table_of(lookup(self@, key@)) == Some(m@),
                None => table_of(lookup(self@, key@)) is None,
            },
    {
        match self.get(key) {
            Some(v) => v.as_table(),
            None => None,
        }
    }

    /// The list that `key` has, if it has one.
    pub fn list(&self, key: &str) -> (r: Option<&Vec<Json>>)
        ensures
            match r {
                Some(v) => list_of(lookup(self@, key@)) == Some(views(v@)),
                None => list_of(lookup(self@, key@)) is None,
            },
    {
        match self.get(key) {
            Some(v) => v.as_list(),
            None => None,
        }
    }

    /// A copy of the members.
    pub fn copy(&self) -> (r: JsonMap)
        ensures
            r@ == self@,
        decreases self,
    {
        let mut entries: Vec<(String, Json)> = Vec::new();
        let mut i: usize = 0;
        while i < self.entries.len()
            invariant
                i <= self.entries@.len(),
                entries@.len() == i,
                forall|j: int|
                    0 <= j < i ==> entries@[j].0@ == self.entries@[j].0@ && entries@[j].1@
                        == self.entries@[j].1@,
            decreases self.entries@.len() - i,
        {
            let k = self.entries[i].0.clone();
            let v = self.entries[i].1.copy();
            entries.push((k, v));
            i += 1;
        }
        let r = JsonMap { entries };
        assert(r@ =~= self@);
        r
    }
}

impl Json {
    pub fn as_text(&self) -> (r: Option<&String>)
        ensures
            match r {
                Some(s) => self@ == Tree::Text(s@),
                None => !(self@ is Text),
            },
    {
        match self {
            Json::Text(s) => Some(s),
            _ => None,
        }
    }

    pub fn as_table(&self) -> (r: Option<&JsonMap>)
        ensures
            match r {
                Some(m) => self@ == Tree::Table(m@),
                None => !(self@ is Table),
            },
    {
        match self {
            Json::Table(m) => {
                proof {
                    assert(self@->Table_0 =~= m@);
                }
                Some(m)
            },
            _ => None,
        }
    }

    pub fn as_list(&self) -> (r: Option<&Vec<Json>>)
        ensures
            match r {
                Some(v) => self@ == Tree::List(views(v@)),
                None => !(self@ is List),
            },
    {
        match self {
            Json::List(v) => {
                proof {
                    assert(self@->List_0 =~= views(v@));
                }
                Some(v)
            },
            _ => None,
        }
    }

    /// The member `key` of a value that is a table.
    pub fn get(&self, key: &str) -> (r: Option<&Json>)
        ensures
            match r {
                Some(v) => member(self@, key@) == Some(v@),
                None => member(self@, key@) is None,
            },
    {
        match self.as_table() {
            Some(m) => m.get(key),
            None => None,
        }
    }

    /// A copy of the value.
    pub fn copy(&self) -> (r: Json)
        ensures
            r@ == self@,
        decreases self,
    {
        match self {
            Json::Null => Json::Null,
            Json::Bool(b) => Json::Bool(*b),
            Json::Int(i) => Json::Int(*i),
            Json::UInt(u) => Json::UInt(*u),
            Json::Real(bits) => Json::Real(*bits),
            Json::Text(s) => Json::Text(s.clone()),
            Json::List(v) => {
                let out = copy_list(v);
                let ghost copied = views(out@);
                let r = Json::List(out);
                proof {
                    assert(r@->List_0 =~= copied);
                    assert(self@->List_0 =~= views(v@));
                }
                r
            },
            Json::Table(m) => {
                let r = Json::Table(m.copy());
                proof {
                    let x = r->Table_0;
                    assert(r@->Table_0 =~= x@);
                    assert(self@->Table_0 =~= m@);
                }
                r
            },
        }
    }
}

fn copy_list(v: &Vec<Json>) -> (out: Vec<Json>)
    ensures
        views(out@) == views(v@),
    decreases v,
{
    let mut out: Vec<Json> = Vec::new();
    let mut i: usize = 0;
    while i < v.len()
        invariant
            i <= v@.len(),
            out@.len() == i,
            forall|j: int| 0 <= j < i ==> out@[j]@ == v@[j]@,
        decreases v@.len() - i,
    {
        out.push(v[i].copy());
        i += 1;
    }
    assert(views(out@) =~= views(v@));
    out
}

/// What `serde_json::from_slice` makes of a document: the value, or the text
/// of its error.
pub uninterp spec fn json_document(bytes: Seq<u8>) -> Result<Tree, Seq<char>>;

/// A value of `serde_json`.
#[verifier::external_type_specification]
#[verifier::external_body]
pub struct ExValue(serde_json::Value);

/// Turns a `serde_json::Value` into the same value of this library, member by
/// member and in the order in which its map is walked.
#[verifier::external_body]
fn lift(value: Value) -> Json {
    match value {
        Value::Null => Json::Null,
        Value::Bool(b) => Json::Bool(b),
        Value::Number(n) => match n.as_i64() {
            Some(i) => Json::Int(i),
            None => n.as_u64().map_or(Json::Real(n.as_f64().map_or(0, |d| d.to_bits())), Json::UInt),
        },
        Value::String(s) => Json::Text(s),
        Value::Array(a) => Json::List(a.into_iter().map(lift).collect()),
        Value::Object(o) => Json::Table(
            JsonMap { entries: o.into_iter().map(|(k, v)| (k, lift(v))).collect() },
        ),
    }
}

/// Reads a document with `serde_json::from_slice`. The result depends on the
/// bytes alone: it is the value that they spell, or the text of the error.
#[verifier::external_body]
fn from_slice(bytes: &[u8]) -> (r: Result<Json, String>)
    ensures
        match r {
            Ok(v) => json_document(bytes@) == Ok::<Tree, Seq<char>>(v@),
            Err(e) => json_document(bytes@) == Err::<Tree, Seq<char>>(e@),
        },
{
    match serde_json::from_slice(bytes) {
        Ok(value) => Ok(lift(value)),
        Err(e) => Err(e.to_string()),
    }
}

/// The text that `serde_json` writes for a value.
pub uninterp spec fn printed(t: Tree) -> Seq<char>;

/// Turns a value of this library into the same `serde_json::Value`. A number
/// that is not finite, which no document holds, becomes null.
#[verifier::external_body]
fn settle(value: &Json) -> Value {
    match value {
        Json::Null => Value::Null,
        Json::Bool(b) => Value::Bool(*b),
        Json::Int(i) => Value::from(*i),
        Json::UInt(u) => Value::from(*u),
        Json::Real(bits) => serde_json::Number::from_f64(bytemuck::cast(*bits)).into(),
        Json::Text(s) => Value::String(s.clone()),
        Json::List(v) => v.iter().map(settle).collect(),
        Json::Table(m) => m.entries.iter().map(|(k, v)| (k.clone(), settle(v))).collect(),
    }
}

/// Writes a value with the `Display` of `serde_json::Value`: its compact JSON
/// form, which depends on the value alone.
#[verifier::external_body]
pub(crate) fn json_text(value: &Json) -> (r: String)
    ensures
        r@ == printed(value@),
{
    settle(value).to_string()
}

/// Reads a JSON document.
pub fn parse(bytes: &[u8]) -> (r: Result<Json, String>)
    ensures
        match r {
            Ok(v) => json_document(bytes@) == Ok::<Tree, Seq<char>>(v@),
            Err(e) => json_document(bytes@) == Err::<Tree, Seq<char>>(e@),
        },
{
    from_slice(bytes)
}

} // verus!
