//! What the layers that scripts make look like.
use vstd::prelude::*;

use crate::assets::{answers_with, document, Answer, AssetSource};
use crate::copy::copy_opt;
use crate::json::{list_of, member, parse, table_of, text_of_tree, Json, JsonMap, Members, Tree};
use crate::object::{KindModel, ObjectKind, ObjectModel};
use crate::property::{Property, PropertyValue};
use crate::runtime::{template_at, uniform, RuntimeTemplate, TemplateModel};
use crate::scene::Scene;
use crate::script_setup::{extract_workshop_id, find_quoted, quoted_after, workshop_id};
use crate::strings::{
    chars_of, find_char, find_run, first_at, index_of, join2, lemma_views_push, lower, opt_view,
    same_ignoring_case, same_text, text_of, views,
};
use crate::user::{Script, ScriptBinding};
use crate::value::{
    after_white, float_len, is_white, is_whole_float, white, Number, Scalar, Vec3, ONE_BITS,
};

verus! {

/// The longest path of a layer's model, in bytes, and one more.
pub const PATH_LIMIT: usize = 256;

/// A model that scripts make layers from: its path, and the workshop item
/// that the script belongs to.
pub type Wanted = (Seq<char>, Option<Seq<char>>);

/// Whether a path can be that of a model.
pub open spec fn usable_path(path: Seq<char>) -> bool {
    path.len() > 0 && vstd::utf8::encode_utf8(path).len() < PATH_LIMIT
}

/// A list with one more member, unless it is in it.
pub open spec fn with_wanted(list: Seq<Wanted>, w: Wanted) -> Seq<Wanted> {
    if list.contains(w) {
        list
    } else {
        list.push(w)
    }
}

/// The models in a list, and those that a script makes layers from: what is
/// quoted behind each `createLayer` at or after `from`.
pub open spec fn wanted_in(
    list: Seq<Wanted>,
    source: Seq<char>,
    id: Option<Seq<char>>,
    from: int,
) -> Seq<Wanted>
    decreases source.len() - from,
{
    match first_at(source, "createLayer"@, from) {
        Some(i) => if from <= i && i + 11 <= source.len() {
            let rest = i + 11;
            match quoted_after(source, rest) {
                Some(path) => if usable_path(path) {
                    wanted_in(with_wanted(list, (path, id)), source, id, rest)
                } else {
                    wanted_in(list, source, id, rest)
                },
                None => wanted_in(list, source, id, rest),
            }
        } else {
            list
        },
        None => list,
    }
}

/// The models in a list, and those that the script of a setting wants.
pub open spec fn wanted_by(list: Seq<Wanted>, script: Option<Script>) -> Seq<Wanted> {
    match script {
        Some(s) => wanted_in(list, s.source, workshop_id(s.source), 0),
        None => list,
    }
}

/// The models in a list, and those that the scripts of an object want.
pub open spec fn wanted_by_object(list: Seq<Wanted>, o: ObjectModel) -> Seq<Wanted> {
    match o.kind {
        KindModel::Image(i) => wanted_by(
            wanted_by(wanted_by(wanted_by(list, i.alpha.script), i.brightness.script), i.color.script),
            i.visible.script,
        ),
        KindModel::Text(t) => wanted_by(
            wanted_by(wanted_by(wanted_by(list, t.text.script), t.alpha.script), t.color.script),
            t.visible.script,
        ),
        KindModel::Particle(p) => wanted_by(list, p.instanceoverride.rate.script),
        _ => list,
    }
}

/// The models that the scripts of the first `k` objects make layers from.
pub open spec fn wanted_upto(objects: Seq<ObjectModel>, k: int) -> Seq<Wanted>
    decreases k,
{
    if k <= 0 {
        Seq::empty()
    } else {
        wanted_by_object(wanted_upto(objects, k - 1), objects[k - 1])
    }
}

/// A model that scripts make layers from.
#[derive(Debug)]
pub struct WantedModel {
    pub path: String,
    pub workshop: Option<String>,
}

impl View for WantedModel {
    type V = Wanted;

    open spec fn view(&self) -> Wanted {
        (self.path@, opt_view(self.workshop))
    }
}

fn same_opt(a: &Option<String>, b: &Option<String>) -> (r: bool)
    ensures
        r == (opt_view(*a) == opt_view(*b)),
{
    match (a, b) {
        (Some(x), Some(y)) => same_text(x.as_str(), y.as_str()),
        (None, None) => true,
        _ => false,
    }
}

fn add_wanted(list: &mut Vec<WantedModel>, w: WantedModel)
    ensures
        views(final(list)@) == with_wanted(views(old(list)@), w@),
{
    let ghost all = views(list@);
    let mut i: usize = 0;
    while i < list.len()
        invariant
            i <= list@.len(),
            all == views(list@),
            forall|j: int| 0 <= j < i ==> #[trigger] all[j] != w@,
        decreases list@.len() - i,
    {
        assert(all[i as int] == list@[i as int]@);
        if same_text(list[i].path.as_str(), w.path.as_str()) && same_opt(
            &list[i].workshop,
            &w.workshop,
        ) {
            assert(all.contains(w@));
            return;
        }
        i += 1;
    }
    proof {
        lemma_views_push(list@, w);
    }
    list.push(w);
}

proof fn lemma_first_at(s: Seq<char>, p: Seq<char>, from: int)
    requires
        0 <= from,
    ensures
        first_at(s, p, from) matches Some(i) ==> from <= i && i + p.len() <= s.len(),
    decreases s.len() - from,
{
    reveal_with_fuel(first_at, 2);
    if first_at(s, p, from) is Some && first_at(s, p, from) != Some(from) {
        lemma_first_at(s, p, from + 1);
    }
}

fn scan(list: &mut Vec<WantedModel>, script: &Option<ScriptBinding>)
    ensures
        views(final(list)@) == wanted_by(views(old(list)@), opt_view(*script)),
{
    let b = match script {
        Some(b) => b,
        None => {
            return;
        },
    };
    let id = extract_workshop_id(b.source.as_str());
    let chars = chars_of(b.source.as_str());
    let word = chars_of("createLayer");
    let ghost goal = wanted_by(views(list@), opt_view(*script));
    let ghost wid = opt_view(id);
    proof {
        reveal_strlit("createLayer");
        assert(wid == workshop_id(b@.source));
    }
    let mut from: usize = 0;
    let n: usize = chars.len();
    while from < n
        invariant
            from <= n,
            n == chars@.len(),
            chars@ == b@.source,
            word@ == "createLayer"@,
            "createLayer"@.len() == 11,
            wid == opt_view(id),
            goal == wanted_by(views(old(list)@), opt_view(*script)),
            goal == wanted_in(views(list@), b@.source, wid, from as int),
        decreases n - from,
    {
        proof {
            lemma_first_at(chars@, word@, from as int);
        }
        match find_run(chars.as_slice(), word.as_slice(), from) {
            Some(i) => {
                let rest: usize = i + 11;
                if let Some(path) = find_quoted(chars.as_slice(), rest) {
                    let len: usize = path.as_str().as_bytes().len();
                    let used = chars_of(path.as_str()).len() > 0 && len < PATH_LIMIT;
                    assert(used == usable_path(path@));
                    if used {
                        add_wanted(list, WantedModel { path, workshop: copy_opt(&id) });
                    }
                }
                from = rest;
            },
            None => {
                return;
            },
        }
    }
    proof {
        lemma_first_at(chars@, word@, from as int);
    }
}

/// The models that the scripts of a scene make layers from.
pub fn wanted_templates(scene: &Scene) -> (r: Vec<WantedModel>)
    ensures
        views(r@) == wanted_upto(scene@.objects, scene@.objects.len() as int),
{
    let ghost all = scene@.objects;
    let mut out: Vec<WantedModel> = Vec::new();
    let mut i: usize = 0;
    assert(views(out@) =~= Seq::empty());
    while i < scene.objects.len()
        invariant
            i <= scene.objects@.len(),
            all == views(scene.objects@),
            views(out@) == wanted_upto(all, i as int),
        decreases scene.objects@.len() - i,
    {
        let o = &scene.objects[i];
        assert(all[i as int] == o@);
        match &o.kind {
            ObjectKind::Image(img) => {
                scan(&mut out, &img.alpha.script);
                scan(&mut out, &img.brightness.script);
                scan(&mut out, &img.color.script);
                scan(&mut out, &img.visible.script);
            },
            ObjectKind::Text(t) => {
                scan(&mut out, &t.text.script);
                scan(&mut out, &t.alpha.script);
                scan(&mut out, &t.color.script);
                scan(&mut out, &t.visible.script);
            },
            ObjectKind::Particle(p) => {
                scan(&mut out, &p.instanceoverride.rate.script);
            },
            _ => {},
        }
        i += 1;
    }
    out
}

/// Where a file lies that a workshop item brings along: under the item's own
/// folder in the folder of its kind.
pub open spec fn remapped(path: Seq<char>, id: Option<Seq<char>>) -> Option<Seq<char>> {
    match (id, index_of(path, '/', 0)) {
        (Some(w), Some(i)) => Some(
            path.take(i) + "/workshop/"@ + w + "/"@ + path.skip(i + 1),
        ),
        _ => None,
    }
}

proof fn lemma_index_of(s: Seq<char>, c: char, from: int)
    requires
        0 <= from,
    ensures
        index_of(s, c, from) matches Some(i) ==> from <= i < s.len(),
    decreases s.len() - from,
{
    if from < s.len() && s[from] != c {
        lemma_index_of(s, c, from + 1);
    }
}

pub fn remap(path: &str, id: &Option<String>) -> (r: Option<String>)
    ensures
        opt_view(r) == remapped(path@, opt_view(*id)),
{
    let w = match id {
        Some(w) => w,
        None => {
            return None;
        },
    };
    let chars = chars_of(path);
    proof {
        lemma_index_of(path@, '/', 0);
    }
    match find_char(chars.as_slice(), '/', 0) {
        Some(i) => {
            let n: usize = chars.len();
            let kind = text_of(chars.as_slice(), 0, i);
            let rest = text_of(chars.as_slice(), i + 1, n);
            let a = join2(kind.as_str(), "/workshop/");
            let b = join2(a.as_str(), w.as_str());
            let c = join2(b.as_str(), "/");
            let d = join2(c.as_str(), rest.as_str());
            assert(path@.take(i as int) =~= kind@);
            assert(path@.skip(i + 1) =~= rest@);
            Some(d)
        },
        None => None,
    }
}

/// The position where a word ends that `s` has at `from`.
pub open spec fn word_end(s: Seq<char>, from: int) -> int
    decreases s.len() - from,
{
    if from < 0 || from >= s.len() || white(s[from]) {
        from
    } else {
        word_end(s, from + 1)
    }
}

/// The numbers among the words of `s` at or after `from`, at most `limit`.
pub open spec fn number_words(s: Seq<char>, from: int, limit: nat) -> Seq<Seq<char>>
    decreases s.len() - from,
{
    let a = after_white(s, from);
    let b = word_end(s, a);
    if limit == 0 || from < 0 || !(from <= a < b <= s.len()) {
        Seq::empty()
    } else {
        let word = s.subrange(a, b);
        if float_len(word) == word.len() {
            seq![word] + number_words(s, b, (limit - 1) as nat)
        } else {
            number_words(s, b, limit)
        }
    }
}

/// The colour that the first three numbers among the words of a text are.
pub open spec fn colour_words(s: Seq<char>) -> Option<(Number, Number, Number)> {
    let w = number_words(s, 0, 3);
    if w.len() == 3 {
        Some((Number::Lexeme(w[0]), Number::Lexeme(w[1]), Number::Lexeme(w[2])))
    } else {
        None
    }
}

fn find_words(s: &str) -> (r: Vec<String>)
    ensures
        views(r@) == number_words(s@, 0, 3),
        r@.len() <= 3,
{
    let chars = chars_of(s);
    let n: usize = chars.len();
    let mut out: Vec<String> = Vec::new();
    let mut from: usize = 0;
    assert(views(out@) + number_words(s@, 0, 3) =~= number_words(s@, 0, 3));
    while from < n && out.len() < 3
        invariant
            from <= n,
            n == chars@.len(),
            chars@ == s@,
            out@.len() <= 3,
            number_words(s@, 0, 3) == views(out@) + number_words(
                s@,
                from as int,
                (3 - out@.len()) as nat,
            ),
        decreases n - from,
    {
        let mut a: usize = from;
        while a < n && is_white(chars[a])
            invariant
                from <= a <= n,
                n == chars@.len(),
                chars@ == s@,
                after_white(s@, from as int) == after_white(s@, a as int),
            decreases n - a,
        {
            a += 1;
        }
        let mut b: usize = a;
        while b < n && !is_white(chars[b])
            invariant
                a <= b <= n,
                n == chars@.len(),
                chars@ == s@,
                word_end(s@, a as int) == word_end(s@, b as int),
            decreases n - b,
        {
            b += 1;
        }
        assert(after_white(s@, from as int) == a);
        assert(word_end(s@, a as int) == b);
        let ghost limit = (3 - out@.len()) as nat;
        if a == b {
            assert(number_words(s@, from as int, limit) =~= Seq::empty());
            assert(views(out@) =~= number_words(s@, 0, 3));
            return out;
        }
        let word = text_of(chars.as_slice(), a, b);
        if is_whole_float(word.as_str()) {
            proof {
                lemma_views_push(out@, word);
                assert(views(out@) + (seq![word@] + number_words(s@, b as int, (limit - 1) as nat))
                    =~= views(out@).push(word@) + number_words(s@, b as int, (limit - 1) as nat));
            }
            out.push(word);
        }
        from = b;
    }
    proof {
        let limit = (3 - out@.len()) as nat;
        assert(number_words(s@, from as int, limit) =~= Seq::empty());
        assert(views(out@) =~= number_words(s@, 0, 3));
    }
    out
}

/// The position of a property in a list, at or after `from`.
pub open spec fn prop_position(
    props: Seq<(Seq<char>, Property)>,
    name: Seq<char>,
    from: int,
) -> Option<int>
    decreases props.len() - from,
{
    if from < 0 || from >= props.len() {
        None
    } else if props[from].0 == name {
        Some(from)
    } else {
        prop_position(props, name, from + 1)
    }
}

/// The property that a value of a material follows.
pub open spec fn followed(t: Tree, props: Seq<(Seq<char>, Property)>) -> Option<Property> {
    match text_of_tree(member(t, "user"@)) {
        Some(name) => match prop_position(props, name, 0) {
            Some(i) => Some(props[i].1),
            None => None,
        },
        None => None,
    }
}

/// The colour that a value of a material is.
pub open spec fn material_colour(t: Tree, props: Seq<(Seq<char>, Property)>) -> Option<
    (Number, Number, Number),
> {
    match followed(t, props) {
        Some(Property::Color { rgba, shown }) => Some(
            (Number::Single(rgba[0]), Number::Single(rgba[1]), Number::Single(rgba[2])),
        ),
        _ => match text_of_tree(member(t, "value"@)) {
            Some(s) => colour_words(s),
            None => match t {
                Tree::Text(s) => colour_words(s),
                _ => None,
            },
        },
    }
}

/// The number that a JSON number is.
pub open spec fn plain_number(t: Option<Tree>) -> Option<Number> {
    match t {
        Some(Tree::Int(i)) => Some(Number::Int(i)),
        Some(Tree::UInt(u)) => Some(Number::UInt(u)),
        Some(Tree::Real(bits)) => Some(Number::Real(bits)),
        _ => None,
    }
}

/// The number that a value of a material is.
pub open spec fn material_number(t: Tree, props: Seq<(Seq<char>, Property)>) -> Option<Number> {
    match followed(t, props) {
        Some(Property::Number { bits, single, shown }) => Some(Number::Real(bits)),
        _ => match plain_number(member(t, "value"@)) {
            Some(n) => Some(n),
            None => plain_number(Some(t)),
        },
    }
}

/// The value of the first member whose name is `key` but for case, at or after `from`.
pub open spec fn folded_member(m: Members, key: Seq<char>, from: int) -> Option<Tree>
    decreases m.len() - from,
{
    if from < 0 || from >= m.len() {
        None
    } else if lower(m[from].0) == lower(key) {
        Some(m[from].1)
    } else {
        folded_member(m, key, from + 1)
    }
}

/// The first item of a value that is a list.
pub open spec fn first_item(t: Option<Tree>) -> Option<Tree> {
    match list_of(t) {
        Some(s) => if s.len() > 0 {
            Some(s[0])
        } else {
            None
        },
        None => None,
    }
}

/// What a layer made from a model looks like, by the first pass of the
/// model's material; none if there is no pass.
pub open spec fn template_in(
    path: Seq<char>,
    material: Tree,
    props: Seq<(Seq<char>, Property)>,
) -> Option<TemplateModel> {
    match first_item(member(material, "passes"@)) {
        Some(pass) => {
            let consts = match table_of(member(pass, "constantshadervalues"@)) {
                Some(m) => m,
                None => Seq::empty(),
            };
            Some(
                TemplateModel {
                    path,
                    texture: text_of_tree(first_item(member(pass, "textures"@))),
                    tint: match folded_member(consts, "color"@, 0) {
                        Some(t) => match material_colour(t, props) {
                            Some(c) => c,
                            None => uniform(ONE_BITS),
                        },
                        None => uniform(ONE_BITS),
                    },
                    alpha: match folded_member(consts, "alpha"@, 0) {
                        Some(t) => match material_number(t, props) {
                            Some(n) => n,
                            None => Number::Single(ONE_BITS),
                        },
                        None => Number::Single(ONE_BITS),
                    },
                },
            )
        },
        None => None,
    }
}

fn find_followed<'a>(v: &Json, props: &'a Vec<(String, PropertyValue)>) -> (r: Option<
    &'a PropertyValue,
>)
    ensures
        match r {
            Some(p) => followed(v@, views(props@)) == Some(p@),
            None => followed(v@, views(props@)) is None,
        },
{
    let ghost all = views(props@);
    if let Some(u) = v.get("user") {
        if let Some(name) = u.as_text() {
            let mut i: usize = 0;
            while i < props.len()
                invariant
                    i <= props@.len(),
                    all == views(props@),
                    text_of_tree(member(v@, "user"@)) == Some(name@),
                    prop_position(all, name@, 0) == prop_position(all, name@, i as int),
                decreases props@.len() - i,
            {
                assert(all[i as int] == (props@[i as int].0@, props@[i as int].1@));
                if same_text(props[i].0.as_str(), name.as_str()) {
                    return Some(&props[i].1);
                }
                i += 1;
            }
        }
    }
    None
}

fn words_colour(s: &str) -> (r: Option<Vec3>)
    ensures
        opt_view(r) == colour_words(s@),
{
    let w = find_words(s);
    if w.len() == 3 {
        assert(number_words(s@, 0, 3)[0] == w@[0]@);
        assert(number_words(s@, 0, 3)[1] == w@[1]@);
        assert(number_words(s@, 0, 3)[2] == w@[2]@);
        Some(
            Vec3 {
                x: Scalar::Lexeme(w[0].clone()),
                y: Scalar::Lexeme(w[1].clone()),
                z: Scalar::Lexeme(w[2].clone()),
            },
        )
    } else {
        None
    }
}

fn resolve_color(v: &Json, props: &Vec<(String, PropertyValue)>) -> (r: Option<Vec3>)
    ensures
        opt_view(r) == material_colour(v@, views(props@)),
{
    if let Some(PropertyValue::Color { rgba, shown: _ }) = find_followed(v, props) {
        return Some(
            Vec3 {
                x: Scalar::Single(rgba[0]),
                y: Scalar::Single(rgba[1]),
                z: Scalar::Single(rgba[2]),
            },
        );
    }
    if let Some(x) = v.get("value") {
        if let Some(s) = x.as_text() {
            return words_colour(s.as_str());
        }
    }
    match v.as_text() {
        Some(s) => words_colour(s.as_str()),
        None => None,
    }
}

fn json_scalar(v: &Json) -> (r: Option<Scalar>)
    ensures
        opt_view(r) == plain_number(Some(v@)),
{
    match v {
        Json::Int(i) => Some(Scalar::Int(*i)),
        Json::UInt(u) => Some(Scalar::UInt(*u)),
        Json::Real(bits) => Some(Scalar::Real(*bits)),
        _ => None,
    }
}

fn resolve_f32(v: &Json, props: &Vec<(String, PropertyValue)>) -> (r: Option<Scalar>)
    ensures
        opt_view(r) == material_number(v@, views(props@)),
{
    if let Some(PropertyValue::Number { bits, single: _, shown: _ }) = find_followed(v, props) {
        return Some(Scalar::Real(*bits));
    }
    if let Some(x) = v.get("value") {
        if let Some(n) = json_scalar(x) {
            return Some(n);
        }
    }
    json_scalar(v)
}

fn find_folded<'a>(m: &'a JsonMap, key: &str) -> (r: Option<&'a Json>)
    ensures
        match r {
            Some(v) => folded_member(m@, key@, 0) == Some(v@),
            None => folded_member(m@, key@, 0) is None,
        },
{
    let mut i: usize = 0;
    while i < m.entries.len()
        invariant
            i <= m.entries@.len(),
            folded_member(m@, key@, 0) == folded_member(m@, key@, i as int),
        decreases m.entries@.len() - i,
    {
        assert(m@[i as int] == (m.entries@[i as int].0@, m.entries@[i as int].1@));
        if same_ignoring_case(m.entries[i].0.as_str(), key) {
            return Some(&m.entries[i].1);
        }
        i += 1;
    }
    None
}

fn first_of<'a>(v: &'a Json, key: &str) -> (r: Option<&'a Json>)
    ensures
        match r {
            Some(x) => first_item(member(v@, key@)) == Some(x@),
            None => first_item(member(v@, key@)) is None,
        },
{
    match v.get(key) {
        Some(list) => match list.as_list() {
            Some(items) => if items.len() > 0 {
                assert(views(items@)[0] == items@[0]@);
                Some(&items[0])
            } else {
                None
            },
            None => None,
        },
        None => None,
    }
}

/// What a layer made from a model looks like, by the model's material.
pub fn template_from(path: &str, material: &Json, props: &Vec<(String, PropertyValue)>) -> (r:
    Option<RuntimeTemplate>)
    ensures
        opt_view(r) == template_in(path@, material@, views(props@)),
{
    let pass = match first_of(material, "passes") {
        Some(p) => p,
        None => {
            return None;
        },
    };
    let mut tint = Vec3 {
        x: Scalar::Single(ONE_BITS),
        y: Scalar::Single(ONE_BITS),
        z: Scalar::Single(ONE_BITS),
    };
    let mut alpha = Scalar::Single(ONE_BITS);
    if let Some(c) = pass.get("constantshadervalues") {
        if let Some(consts) = c.as_table() {
            if let Some(v) = find_folded(consts, "color") {
                if let Some(t) = resolve_color(v, props) {
                    tint = t;
                }
            }
            if let Some(v) = find_folded(consts, "alpha") {
                if let Some(a) = resolve_f32(v, props) {
                    alpha = a;
                }
            }
        }
    }
    let texture: Option<String> = match first_of(pass, "textures") {
        Some(t) => match t.as_text() {
            Some(s) => Some(s.clone()),
            None => None,
        },
        None => None,
    };
    Some(RuntimeTemplate { path: path.to_owned(), texture, tint, alpha })
}

/// What a source answered for a model: the model under its path, or else
/// where its workshop item has it, and its material in the same way.
pub struct TemplateAnswers {
    pub model: Answer,
    pub own_model: Answer,
    pub material: Answer,
    pub own_material: Answer,
}

/// The answer that counts: the second is asked for only where the first is
/// none and the file can lie elsewhere.
pub open spec fn answered(first: Answer, elsewhere: Option<Seq<char>>, second: Answer) -> Answer {
    match first {
        Some(b) => Some(b),
        None => if elsewhere is Some {
            second
        } else {
            None
        },
    }
}

/// Whether the answers are those of a source that was asked for a file under
/// its path and, where it had none and the file can lie elsewhere, there.
pub open spec fn asked_for<S: AssetSource>(
    source: &S,
    path: Seq<char>,
    workshop: Option<Seq<char>>,
    first: Answer,
    second: Answer,
) -> bool {
    &&& answers_with(source, path, first)
    &&& first is None ==> (remapped(path, workshop) matches Some(p) ==> answers_with(
        source,
        p,
        second,
    ))
}

/// Whether the answers are those of a source that was asked for a wanted
/// model and its material.
pub open spec fn template_asked<S: AssetSource>(
    source: &S,
    w: Wanted,
    a: TemplateAnswers,
) -> bool {
    &&& asked_for(source, w.0, w.1, a.model, a.own_model)
    &&& document(answered(a.model, remapped(w.0, w.1), a.own_model)) matches Some(model) ==> (
    text_of_tree(member(model, "material"@)) matches Some(path) ==> asked_for(
        source,
        path,
        w.1,
        a.material,
        a.own_material,
    ))
}

/// What a layer made from a wanted model looks like, by a source's answers.
pub open spec fn template_answered(
    w: Wanted,
    a: TemplateAnswers,
    props: Seq<(Seq<char>, Property)>,
) -> Option<TemplateModel> {
    match document(answered(a.model, remapped(w.0, w.1), a.own_model)) {
        Some(model) => match text_of_tree(member(model, "material"@)) {
            Some(path) => match document(
                answered(a.material, remapped(path, w.1), a.own_material),
            ) {
                Some(material) => template_in(w.0, material, props),
                None => None,
            },
            None => None,
        },
        None => None,
    }
}

/// A list with a template in it; one with the same path makes way.
pub open spec fn with_template(list: Seq<TemplateModel>, t: TemplateModel) -> Seq<TemplateModel> {
    match template_at(list, t.path, 0) {
        Some(i) => list.update(i, t),
        None => list.push(t),
    }
}

/// The templates of the first `k` wanted models.
pub open spec fn templates_upto(
    wanted: Seq<Wanted>,
    answers: Seq<TemplateAnswers>,
    props: Seq<(Seq<char>, Property)>,
    k: int,
) -> Seq<TemplateModel>
    decreases k,
{
    if k <= 0 {
        Seq::empty()
    } else {
        let before = templates_upto(wanted, answers, props, k - 1);
        match template_answered(wanted[k - 1], answers[k - 1], props) {
            Some(t) => with_template(before, t),
            None => before,
        }
    }
}

fn load_either<S: AssetSource>(source: &S, path: &str, workshop: &Option<String>) -> (r: (
    Option<Json>,
    Ghost<(Answer, Answer)>,
))
    ensures
        asked_for(source, path@, opt_view(*workshop), r.1@.0, r.1@.1),
        opt_view(r.0) == document(
            answered(r.1@.0, remapped(path@, opt_view(*workshop)), r.1@.1),
        ),
{
    let ghost mut second: Answer = None;
    let mut loaded = source.load(path);
    assert(call_ensures(S::load, (source, path), loaded));
    let ghost first: Answer = opt_view(loaded);
    if loaded.is_none() {
        if let Some(p) = remap(path, workshop) {
            let elsewhere = p.as_str();
            loaded = source.load(elsewhere);
            assert(call_ensures(S::load, (source, elsewhere), loaded));
            proof {
                second = opt_view(loaded);
            }
        }
    }
    let v = match loaded {
        Some(bytes) => match parse(bytes.as_slice()) {
            Ok(v) => Some(v),
            Err(_) => None,
        },
        None => None,
    };
    (v, Ghost((first, second)))
}

fn load_template<S: AssetSource>(
    source: &S,
    w: &WantedModel,
    props: &Vec<(String, PropertyValue)>,
) -> (r: (Option<RuntimeTemplate>, Ghost<TemplateAnswers>))
    ensures
        template_asked(source, w@, r.1@),
        opt_view(r.0) == template_answered(w@, r.1@, views(props@)),
{
    let ghost mut a = TemplateAnswers { model: None, own_model: None, material: None, own_material: None };
    let (model, got) = load_either(source, w.path.as_str(), &w.workshop);
    proof {
        a = TemplateAnswers { model: got@.0, own_model: got@.1, ..a };
    }
    let mut out: Option<RuntimeTemplate> = None;
    if let Some(m) = model {
        if let Some(v) = m.get("material") {
            if let Some(path) = v.as_text() {
                let (material, got) = load_either(source, path.as_str(), &w.workshop);
                proof {
                    a = TemplateAnswers { material: got@.0, own_material: got@.1, ..a };
                }
                if let Some(mat) = material {
                    out = template_from(w.path.as_str(), &mat, props);
                }
            }
        }
    }
    (out, Ghost(a))
}

fn add_template(list: &mut Vec<RuntimeTemplate>, t: RuntimeTemplate)
    ensures
        views(final(list)@) == with_template(views(old(list)@), t@),
{
    let ghost all = views(list@);
    let mut i: usize = 0;
    while i < list.len()
        invariant
            i <= list@.len(),
            all == views(list@),
            list@ == old(list)@,
            template_at(all, t@.path, 0) == template_at(all, t@.path, i as int),
        decreases list@.len() - i,
    {
        assert(all[i as int] == list@[i as int]@);
        if same_text(list[i].path.as_str(), t.path.as_str()) {
            let ghost shown = t@;
            list.set(i, t);
            assert(views(list@) =~= all.update(i as int, shown));
            return;
        }
        i += 1;
    }
    proof {
        lemma_views_push(list@, t);
    }
    list.push(t);
}

proof fn lemma_templates_extend(
    wanted: Seq<Wanted>,
    a: Seq<TemplateAnswers>,
    b: Seq<TemplateAnswers>,
    props: Seq<(Seq<char>, Property)>,
    k: int,
)
    requires
        forall|j: int| 0 <= j < k ==> a[j] == b[j],
    ensures
        templates_upto(wanted, a, props, k) == templates_upto(wanted, b, props, k),
    decreases k,
{
    if k > 0 {
        lemma_templates_extend(wanted, a, b, props, k - 1);
    }
}

/// Whether templates are what these answers of a source make of the wanted
/// models.
pub open spec fn templates_outcome<S: AssetSource>(
    source: &S,
    wanted: Seq<Wanted>,
    props: Seq<(Seq<char>, Property)>,
    made: Seq<TemplateModel>,
    answers: Seq<TemplateAnswers>,
) -> bool {
    &&& answers.len() == wanted.len()
    &&& forall|i: int|
        0 <= i < wanted.len() ==> template_asked(source, wanted[i], #[trigger] answers[i])
    &&& made == templates_upto(wanted, answers, props, wanted.len() as int)
}

/// What the layers that scripts make look like. The source is asked for the
/// models and the materials; what it holds is not known here.
pub fn collect_runtime_templates<S: AssetSource>(
    scene: &Scene,
    source: &S,
    props: &Vec<(String, PropertyValue)>,
) -> (r: Vec<RuntimeTemplate>)
    ensures
        exists|answers: Seq<TemplateAnswers>| #[trigger]
            templates_outcome(
                source,
                wanted_upto(scene@.objects, scene@.objects.len() as int),
                views(props@),
                views(r@),
                answers,
            ),
{
    let wanted = wanted_templates(scene);
    let ghost all = views(wanted@);
    let ghost mut answers: Seq<TemplateAnswers> = Seq::empty();
    let mut out: Vec<RuntimeTemplate> = Vec::new();
    let mut i: usize = 0;
    assert(views(out@) =~= Seq::empty());
    while i < wanted.len()
        invariant
            i <= wanted@.len(),
            all == views(wanted@),
            answers.len() == i,
            forall|j: int| 0 <= j < i ==> template_asked(source, all[j], #[trigger] answers[j]),
            views(out@) == templates_upto(all, answers, views(props@), i as int),
        decreases wanted@.len() - i,
    {
        assert(all[i as int] == wanted@[i as int]@);
        let (t, got) = load_template(source, &wanted[i], props);
        proof {
            let before = answers;
            answers = answers.push(got@);
            lemma_templates_extend(all, before, answers, views(props@), i as int);
        }
        if let Some(x) = t {
            add_template(&mut out, x);
        }
        i += 1;
    }
    assert(templates_outcome(source, all, views(props@), views(out@), answers));
    out
}

} // verus!
