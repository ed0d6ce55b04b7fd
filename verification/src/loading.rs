//! How a scene is found and opened.
use vstd::prelude::*;

use crate::assets::{document, Answer};
use crate::copy::Duplicate;
use crate::json::{member, parse, text_of_tree};
use crate::markup::{last_point, stem_of};
use crate::property::{reread, Bag, Property, PropertyBag, PropertyValue, TextReading};
use crate::setup::SceneError;
use crate::strings::{
    chars_of, decimal, decimal_of, join2, lemma_views_push, opt_view, same_text, text_of, views,
};

verus! {

/// Sets a property from text. Returns whether there is such a property, and
/// the text is one that it can take.
pub fn apply_property_override(
    bag: &mut PropertyBag,
    name: &str,
    raw: &str,
    reading: &TextReading,
) -> (r: bool)
    ensures
        r == (old(bag)@.contains_key(name@) && reread(old(bag)@[name@], raw@, *reading) is Some),
        final(bag)@ == (if r {
            old(bag)@.insert(name@, reread(old(bag)@[name@], raw@, *reading)->0)
        } else {
            old(bag)@
        }),
{
    bag.set_from_str(name, raw, reading)
}

/// The name and value of each of the first `k` names that a bag has.
pub open spec fn named_properties(
    names: Seq<Seq<char>>,
    bag: Bag,
    k: int,
) -> Seq<(Seq<char>, Property)>
    decreases k,
{
    if k <= 0 {
        Seq::empty()
    } else if bag.contains_key(names[k - 1]) {
        named_properties(names, bag, k - 1).push((names[k - 1], bag[names[k - 1]]))
    } else {
        named_properties(names, bag, k - 1)
    }
}

/// The properties of a project, with the values that they have in a bag.
pub fn user_properties(names: &Vec<String>, bag: &PropertyBag) -> (r: Vec<(String, PropertyValue)>)
    ensures
        views(r@) == named_properties(views(names@), bag@, names@.len() as int),
{
    let ghost all = views(names@);
    let mut out: Vec<(String, PropertyValue)> = Vec::new();
    let mut i: usize = 0;
    assert(views(out@) =~= Seq::empty());
    while i < names.len()
        invariant
            i <= names@.len(),
            all == views(names@),
            views(out@) == named_properties(all, bag@, i as int),
        decreases names@.len() - i,
    {
        assert(all[i as int] == names@[i as int]@);
        if let Some(v) = bag.get(names[i].as_str()) {
            let pair = (names[i].clone(), v.duplicate());
            proof {
                lemma_views_push(out@, pair);
                assert(pair@ == (names@[i as int]@, v@));
            }
            out.push(pair);
        }
        i += 1;
    }
    out
}

/// The file that a project names.
pub open spec fn project_file(a: Answer) -> Option<Seq<char>> {
    match document(a) {
        Some(t) => text_of_tree(member(t, "file"@)),
        None => None,
    }
}

/// Whether a text ends with another.
pub open spec fn has_suffix(s: Seq<char>, p: Seq<char>) -> bool {
    p.len() <= s.len() && s.skip(s.len() - p.len()) == p
}

fn named_file(project: Option<&[u8]>) -> (r: Option<String>)
    ensures
        opt_view(r) == project_file(
            match project {
                Some(b) => Some(b@),
                None => None,
            },
        ),
{
    let bytes = match project {
        Some(b) => b,
        None => {
            return None;
        },
    };
    match parse(bytes) {
        Ok(v) => match v.get("file") {
            Some(f) => match f.as_text() {
                Some(s) => Some(s.clone()),
                None => None,
            },
            None => None,
        },
        Err(_) => None,
    }
}

fn ends_with(s: &str, p: &str) -> (r: bool)
    ensures
        r == has_suffix(s@, p@),
{
    let a = chars_of(s);
    let b = chars_of(p);
    if b.len() > a.len() {
        return false;
    }
    let from: usize = a.len() - b.len();
    let tail = text_of(a.as_slice(), from, a.len());
    assert(tail@ =~= s@.skip(s@.len() - p@.len()));
    same_text(tail.as_str(), p)
}

/// The entry of a package that a project names as its scene, if it names one.
pub open spec fn entry_of(a: Answer) -> Option<Seq<char>> {
    match project_file(a) {
        Some(f) => if has_suffix(f, ".json"@) {
            Some(f)
        } else {
            None
        },
        None => None,
    }
}

/// The entry of a package that a project names as its scene, if it names one.
pub fn entry_candidate(project: Option<&[u8]>) -> (r: Option<String>)
    ensures
        opt_view(r) == entry_of(
            match project {
                Some(b) => Some(b@),
                None => None,
            },
        ),
{
    match named_file(project) {
        Some(f) => if ends_with(f.as_str(), ".json") {
            Some(f)
        } else {
            None
        },
        None => None,
    }
}

/// The entry of a package that is its scene: the one that the project names,
/// where the package has it, or else `scene.json`.
pub fn scene_entry(candidate: Option<String>, in_package: bool) -> (r: String)
    ensures
        r@ == (match opt_view(candidate) {
            Some(f) => if in_package {
                f
            } else {
                "scene.json"@
            },
            None => "scene.json"@,
        }),
{
    match candidate {
        Some(f) => if in_package {
            f
        } else {
            "scene.json".to_owned()
        },
        None => "scene.json".to_owned(),
    }
}

/// The position where the last component of a path ends: slashes at its end,
/// and points that stand alone behind a slash, are not part of it.
pub open spec fn path_end(s: Seq<char>, to: int) -> int
    decreases to,
{
    if 0 < to <= s.len() && s[to - 1] == '/' {
        path_end(s, to - 1)
    } else if 1 < to <= s.len() && s[to - 1] == '.' && s[to - 2] == '/' {
        path_end(s, to - 1)
    } else {
        to
    }
}

/// The position where the component that ends at `to` begins.
pub open spec fn component_start(s: Seq<char>, to: int) -> int
    decreases to,
{
    if 0 < to <= s.len() && s[to - 1] != '/' {
        component_start(s, to - 1)
    } else {
        to
    }
}

/// The name of the file that a path leads to.
pub open spec fn file_name_of(path: Seq<char>) -> Option<Seq<char>> {
    let end = path_end(path, path.len() as int);
    let name = path.subrange(component_start(path, end), end);
    if name.len() == 0 || name == "."@ || name == ".."@ {
        None
    } else {
        Some(name)
    }
}

/// The name of a file without its ending; a name that begins with its only
/// point has no ending.
pub open spec fn file_stem_of(name: Seq<char>) -> Seq<char> {
    if stem_of(name).len() == 0 {
        name
    } else {
        stem_of(name)
    }
}

/// The name of the package that a project names, if it names one.
pub open spec fn package_of(a: Answer) -> Option<Seq<char>> {
    match project_file(a) {
        Some(f) => match file_name_of(f) {
            Some(n) => Some(file_stem_of(n) + ".pkg"@),
            None => None,
        },
        None => None,
    }
}

fn find_file_name(path: &Vec<char>) -> (r: Option<Vec<char>>)
    ensures
        match r {
            Some(n) => file_name_of(path@) == Some(n@),
            None => file_name_of(path@) is None,
        },
{
    let mut end: usize = path.len();
    while (end > 0 && path[end - 1] == '/') || (end > 1 && path[end - 1] == '.' && path[end - 2]
        == '/')
        invariant
            end <= path@.len(),
            path_end(path@, path@.len() as int) == path_end(path@, end as int),
        decreases end,
    {
        end -= 1;
    }
    let mut start: usize = end;
    while start > 0 && path[start - 1] != '/'
        invariant
            start <= end <= path@.len(),
            component_start(path@, end as int) == component_start(path@, start as int),
        decreases start,
    {
        start -= 1;
    }
    let name = text_of(path.as_slice(), start, end);
    proof {
        reveal_strlit(".");
        reveal_strlit("..");
    }
    if start == end || same_text(name.as_str(), ".") || same_text(name.as_str(), "..") {
        None
    } else {
        Some(chars_of(name.as_str()))
    }
}

fn file_stem(name: &Vec<char>) -> (r: String)
    ensures
        r@ == file_stem_of(name@),
{
    let n: usize = name.len();
    let mut to: usize = n;
    while to > 0 && name[to - 1] != '.'
        invariant
            to <= n,
            n == name@.len(),
            last_point(name@, n as int) == last_point(name@, to as int),
        decreases to,
    {
        to -= 1;
    }
    if to > 1 {
        let r = text_of(name.as_slice(), 0, to - 1);
        assert(r@ =~= name@.take(to - 1));
        r
    } else {
        let r = text_of(name.as_slice(), 0, n);
        assert(r@ =~= name@);
        assert(to == 1 ==> name@.take(0) =~= Seq::<char>::empty());
        r
    }
}

/// The name of the package that a project names, if it names one.
pub fn package_candidate(project: Option<&[u8]>) -> (r: Option<String>)
    ensures
        opt_view(r) == package_of(
            match project {
                Some(b) => Some(b@),
                None => None,
            },
        ),
{
    match named_file(project) {
        Some(f) => {
            let chars = chars_of(f.as_str());
            match find_file_name(&chars) {
                Some(n) => {
                    let s = file_stem(&n);
                    Some(join2(s.as_str(), ".pkg"))
                },
                None => None,
            }
        },
        None => None,
    }
}

/// The name of the package that holds a scene: the one that the project names,
/// where it is there, or else `scene.pkg`.
pub fn scene_package(candidate: Option<String>, is_file: bool) -> (r: String)
    ensures
        r@ == (match opt_view(candidate) {
            Some(f) => if is_file {
                f
            } else {
                "scene.pkg"@
            },
            None => "scene.pkg"@,
        }),
{
    match candidate {
        Some(f) => if is_file {
            f
        } else {
            "scene.pkg".to_owned()
        },
        None => "scene.pkg".to_owned(),
    }
}

impl SceneError {
    /// What is said of the error.
    pub open spec fn text(self) -> Seq<char> {
        match self {
            SceneError::NoRenderableObjects => "scene has no renderable objects"@,
            SceneError::BadProjection { width, height } =>
                "scene projection size is degenerate ("@ + decimal(width as int) + "x"@ + decimal(
                height as int,
            ) + ")"@,
        }
    }

    pub fn message(&self) -> (r: String)
        ensures
            r@ == self.text(),
    {
        match self {
            SceneError::NoRenderableObjects => "scene has no renderable objects".to_owned(),
            SceneError::BadProjection { width, height } => {
                let w = decimal_of(*width as i64);
                let h = decimal_of(*height as i64);
                let a = join2("scene projection size is degenerate (", w.as_str());
                let b = join2(a.as_str(), "x");
                let c = join2(b.as_str(), h.as_str());
                join2(c.as_str(), ")")
            },
        }
    }
}

/// Why a scene cannot be opened.
#[derive(Debug, PartialEq, Eq)]
pub enum SceneLoadError {
    Pkg(String),
    SceneJson(String),
    Parse(String),
    Build(SceneError),
}

impl SceneLoadError {
    /// What is said of the error.
    pub open spec fn text(self) -> Seq<char> {
        match self {
            SceneLoadError::Pkg(m) => "cannot open scene.pkg: "@ + m@,
            SceneLoadError::SceneJson(m) => "cannot read scene.json from scene.pkg: "@ + m@,
            SceneLoadError::Parse(m) => "cannot parse scene.json: "@ + m@,
            SceneLoadError::Build(e) => "cannot build scene renderer: "@ + e.text(),
        }
    }

    pub fn message(&self) -> (r: String)
        ensures
            r@ == self.text(),
    {
        match self {
            SceneLoadError::Pkg(m) => join2("cannot open scene.pkg: ", m.as_str()),
            SceneLoadError::SceneJson(m) => join2(
                "cannot read scene.json from scene.pkg: ",
                m.as_str(),
            ),
            SceneLoadError::Parse(m) => join2("cannot parse scene.json: ", m.as_str()),
            SceneLoadError::Build(e) => {
                let m = e.message();
                join2("cannot build scene renderer: ", m.as_str())
            },
        }
    }
}

/// What becomes of a scene that cannot be built: one with nothing to show is
/// opened all the same, and shows the colour that it is cleared with.
pub fn without_renderer(e: SceneError) -> (r: Result<(), SceneLoadError>)
    ensures
        r == (if e == SceneError::NoRenderableObjects {
            Ok(())
        } else {
            Err(SceneLoadError::Build(e))
        }),
{
    match e {
        SceneError::NoRenderableObjects => Ok(()),
        other => Err(SceneLoadError::Build(other)),
    }
}

} // verus!
