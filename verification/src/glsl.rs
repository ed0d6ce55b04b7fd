//! Mending the sources of shaders, so that the two stages of a pass agree.
use vstd::prelude::*;

use crate::draw::name_at;
use crate::strings::{
    chars_of, comes_before, decimal, decimal_of_index, digit_char, find_run, first_at, has_prefix,
    is_digit, join2, lemma_text_less_total, lemma_text_less_trans, lemma_views_push, same_text,
    split, split_text, starts_with, text_less, text_of, views,
};
use crate::templates::word_end;
use crate::value::{after_white, is_white};

verus! {

/// The stage of a shader.
#[derive(Clone, Copy, Debug, PartialEq, Eq, Structural)]
pub enum Stage {
    Vertex,
    Fragment,
}

/// A line without the carriage return that ends it.
pub open spec fn unreturned(s: Seq<char>) -> Seq<char> {
    if s.len() > 0 && s.last() == '\r' {
        s.drop_last()
    } else {
        s
    }
}

/// The lines of a text, without what ends them.
pub open spec fn lines(s: Seq<char>) -> Seq<Seq<char>> {
    let p = split(s, '\n');
    let n = if p.last().len() == 0 {
        (p.len() - 1) as nat
    } else {
        p.len()
    };
    Seq::new(
        n,
        |i: int|
            if i < p.len() - 1 {
                unreturned(p[i])
            } else {
                p[i]
            },
    )
}

fn without_return(s: &str) -> (r: String)
    ensures
        r@ == unreturned(s@),
{
    let chars = chars_of(s);
    let n: usize = chars.len();
    if n > 0 && chars[n - 1] == '\r' {
        let r = text_of(chars.as_slice(), 0, n - 1);
        assert(r@ =~= s@.drop_last());
        r
    } else {
        s.to_owned()
    }
}

/// The lines of a text, without what ends them.
pub fn text_lines(s: &str) -> (r: Vec<String>)
    ensures
        views(r@) == lines(s@),
{
    let pieces = split_text(s, '\n');
    let ghost p = views(pieces@);
    let n: usize = pieces.len();
    let mut out: Vec<String> = Vec::new();
    let mut i: usize = 0;
    while i < n - 1
        invariant
            n == pieces@.len(),
            n >= 1,
            i <= n - 1,
            p == views(pieces@),
            out@.len() == i,
            forall|j: int| 0 <= j < i ==> (#[trigger] out@[j])@ == unreturned(p[j]),
        decreases n - i,
    {
        assert(p[i as int] == pieces@[i as int]@);
        out.push(without_return(pieces[i].as_str()));
        i += 1;
    }
    let last = &pieces[n - 1];
    assert(p.last() == last@);
    let length: usize = chars_of(last.as_str()).len();
    if length > 0 {
        out.push(last.clone());
    }
    assert(views(out@) =~= lines(s@));
    out
}

/// Lines, with an end of line between each two.
pub open spec fn joined(ls: Seq<Seq<char>>, k: int) -> Seq<char>
    decreases k,
{
    if k <= 0 {
        Seq::empty()
    } else if k == 1 {
        ls[0]
    } else {
        joined(ls, k - 1) + "\n"@ + ls[k - 1]
    }
}

fn join_lines(ls: &Vec<String>) -> (r: String)
    ensures
        r@ == joined(views(ls@), ls@.len() as int),
{
    let ghost all = views(ls@);
    let mut out = String::new();
    let mut i: usize = 0;
    while i < ls.len()
        invariant
            i <= ls@.len(),
            all == views(ls@),
            out@ == joined(all, i as int),
        decreases ls@.len() - i,
    {
        assert(all[i as int] == ls@[i as int]@);
        if i > 0 {
            let ended = join2(out.as_str(), "\n");
            out = join2(ended.as_str(), ls[i].as_str());
        } else {
            out = ls[i].clone();
        }
        i += 1;
    }
    out
}

fn skip_white(s: &Vec<char>, from: usize) -> (r: usize)
    requires
        from <= s@.len(),
    ensures
        r == after_white(s@, from as int),
        from <= r <= s@.len(),
{
    let mut i: usize = from;
    while i < s.len() && is_white(s[i])
        invariant
            from <= i <= s@.len(),
            after_white(s@, from as int) == after_white(s@, i as int),
        decreases s@.len() - i,
    {
        i += 1;
    }
    i
}

fn skip_word(s: &Vec<char>, from: usize) -> (r: usize)
    requires
        from <= s@.len(),
    ensures
        r == word_end(s@, from as int),
        from <= r <= s@.len(),
{
    let mut i: usize = from;
    while i < s.len() && !is_white(s[i])
        invariant
            from <= i <= s@.len(),
            word_end(s@, from as int) == word_end(s@, i as int),
        decreases s@.len() - i,
    {
        i += 1;
    }
    i
}

/// The second word of a text.
pub open spec fn second_word(s: Seq<char>) -> Option<Seq<char>> {
    let a = after_white(s, word_end(s, after_white(s, 0)));
    let b = word_end(s, a);
    if a < b {
        Some(s.subrange(a, b))
    } else {
        None
    }
}

/// A text without the semicolons that end it.
pub open spec fn unended(s: Seq<char>) -> Seq<char>
    decreases s.len(),
{
    if s.len() > 0 && s.last() == ';' {
        unended(s.drop_last())
    } else {
        s
    }
}

/// Whether a character may stand in a name.
pub open spec fn name_char(c: char) -> bool {
    digit_char(c) || ('a' <= c && c <= 'z') || ('A' <= c && c <= 'Z') || c == '_'
}

/// Whether a text is a name.
pub open spec fn is_name(s: Seq<char>) -> bool {
    s.len() > 0 && forall|i: int| 0 <= i < s.len() ==> name_char(#[trigger] s[i])
}

/// What stands behind the word `varying` that a line begins with.
pub open spec fn varying_rest(line: Seq<char>) -> Option<Seq<char>> {
    let t = line.skip(after_white(line, 0));
    if has_prefix(t, "varying "@) {
        Some(t.skip(8))
    } else {
        None
    }
}

/// The name of the varying that a line declares; an array is none.
pub open spec fn declared(line: Seq<char>) -> Option<Seq<char>> {
    match varying_rest(line) {
        Some(rest) => if rest.contains('[') {
            None
        } else {
            match second_word(rest) {
                Some(w) => if is_name(unended(w)) {
                    Some(unended(w))
                } else {
                    None
                },
                None => None,
            }
        },
        None => None,
    }
}

fn is_name_char(c: char) -> (r: bool)
    ensures
        r == name_char(c),
{
    let n: u32 = c as u32;
    is_digit(c) || (97 <= n && n <= 122) || (65 <= n && n <= 90) || c == '_'
}

fn has_bracket(s: &Vec<char>) -> (r: bool)
    ensures
        r == s@.contains('['),
{
    let mut i: usize = 0;
    while i < s.len()
        invariant
            i <= s@.len(),
            forall|j: int| 0 <= j < i ==> s@[j] != '[',
        decreases s@.len() - i,
    {
        if s[i] == '[' {
            assert(s@.contains('['));
            return true;
        }
        i += 1;
    }
    false
}

fn rest_of_varying(line: &str) -> (r: Option<Vec<char>>)
    ensures
        match r {
            Some(v) => varying_rest(line@) == Some(v@),
            None => varying_rest(line@) is None,
        },
{
    proof {
        reveal_strlit("varying ");
    }
    let chars = chars_of(line);
    let n: usize = chars.len();
    let from = skip_white(&chars, 0);
    let trimmed = text_of(chars.as_slice(), from, n);
    assert(trimmed@ =~= line@.skip(from as int));
    if starts_with(trimmed.as_str(), "varying ") {
        let rest = text_of(chars.as_slice(), from + 8, n);
        assert(rest@ =~= trimmed@.skip(8));
        Some(chars_of(rest.as_str()))
    } else {
        None
    }
}

/// The name of the varying that a line declares.
pub fn varying_decl_name(line: &str) -> (r: Option<String>)
    ensures
        match r {
            Some(n) => declared(line@) == Some(n@),
            None => declared(line@) is None,
        },
{
    let rest = match rest_of_varying(line) {
        Some(v) => v,
        None => {
            return None;
        },
    };
    if has_bracket(&rest) {
        return None;
    }
    let first = skip_white(&rest, 0);
    let between = skip_word(&rest, first);
    let a = skip_white(&rest, between);
    let b = skip_word(&rest, a);
    if a >= b {
        return None;
    }
    let ghost word = rest@.subrange(a as int, b as int);
    let mut end: usize = b;
    assert(rest@.subrange(a as int, end as int) =~= word);
    while end > a && rest[end - 1] == ';'
        invariant
            a <= end <= b <= rest@.len(),
            unended(word) == unended(rest@.subrange(a as int, end as int)),
        decreases end,
    {
        assert(rest@.subrange(a as int, end as int).drop_last() =~= rest@.subrange(
            a as int,
            end - 1,
        ));
        end -= 1;
    }
    let ghost name = rest@.subrange(a as int, end as int);
    assert(unended(word) == name);
    if end == a {
        return None;
    }
    let mut i: usize = a;
    while i < end
        invariant
            a <= i <= end <= rest@.len(),
            name == rest@.subrange(a as int, end as int),
            declared(line@) == (if is_name(name) {
                Some(name)
            } else {
                None
            }),
            forall|j: int| 0 <= j < i - a ==> name_char(#[trigger] name[j]),
        decreases end - i,
    {
        if !is_name_char(rest[i]) {
            assert(!name_char(name[i - a]));
            return None;
        }
        i += 1;
    }
    Some(text_of(rest.as_slice(), a, end))
}

/// Whether a line declares an array as a varying.
pub open spec fn declares_array(line: Seq<char>) -> bool {
    varying_rest(line) matches Some(rest) && rest.contains('[')
}

/// Whether a source declares an array as a varying.
pub fn has_array_varying(src: &str) -> (r: bool)
    ensures
        r == exists|i: int| 0 <= i < lines(src@).len() && declares_array(#[trigger] lines(src@)[i]),
{
    let ls = text_lines(src);
    let ghost all = lines(src@);
    let mut i: usize = 0;
    while i < ls.len()
        invariant
            i <= ls@.len(),
            all == views(ls@),
            all == lines(src@),
            forall|j: int| 0 <= j < i ==> !declares_array(#[trigger] all[j]),
        decreases ls@.len() - i,
    {
        assert(all[i as int] == ls@[i as int]@);
        if let Some(rest) = rest_of_varying(ls[i].as_str()) {
            if has_bracket(&rest) {
                assert(declares_array(all[i as int]));
                return true;
            }
        }
        i += 1;
    }
    false
}

/// Where a name goes among sorted ones: before the first that it does not follow.
pub open spec fn name_place(sorted: Seq<Seq<char>>, name: Seq<char>, from: int) -> int
    decreases sorted.len() - from,
{
    if from < 0 || from >= sorted.len() || !text_less(sorted[from], name) {
        from
    } else {
        name_place(sorted, name, from + 1)
    }
}

/// Sorted names with one more among them, unless it is there.
pub open spec fn with_name(sorted: Seq<Seq<char>>, name: Seq<char>) -> Seq<Seq<char>> {
    let p = name_place(sorted, name, 0);
    if p < sorted.len() && sorted[p] == name {
        sorted
    } else {
        sorted.insert(p, name)
    }
}

/// Sorted names, and those of the varyings that the first `k` lines declare.
pub open spec fn with_declared(sorted: Seq<Seq<char>>, ls: Seq<Seq<char>>, k: int) -> Seq<Seq<char>>
    decreases k,
{
    if k <= 0 {
        sorted
    } else {
        let before = with_declared(sorted, ls, k - 1);
        match declared(ls[k - 1]) {
            Some(n) => with_name(before, n),
            None => before,
        }
    }
}

/// The names of the varyings of two sources, in order.
pub open spec fn varying_names(vs: Seq<char>, fs: Seq<char>) -> Seq<Seq<char>> {
    let a = with_declared(Seq::empty(), lines(vs), lines(vs).len() as int);
    with_declared(a, lines(fs), lines(fs).len() as int)
}

proof fn lemma_name_place(sorted: Seq<Seq<char>>, name: Seq<char>, from: int)
    requires
        0 <= from <= sorted.len(),
    ensures
        from <= name_place(sorted, name, from) <= sorted.len(),
        forall|i: int|
            from <= i < name_place(sorted, name, from) ==> text_less(#[trigger] sorted[i], name),
        name_place(sorted, name, from) < sorted.len() ==> !text_less(
            sorted[name_place(sorted, name, from)],
            name,
        ),
    decreases sorted.len() - from,
{
    if from < sorted.len() && text_less(sorted[from], name) {
        lemma_name_place(sorted, name, from + 1);
    }
}

fn add_name(sorted: &mut Vec<String>, name: String)
    ensures
        views(final(sorted)@) == with_name(views(old(sorted)@), name@),
{
    let ghost all = views(sorted@);
    let mut p: usize = 0;
    while p < sorted.len() && comes_before(sorted[p].as_str(), name.as_str())
        invariant
            p <= sorted@.len(),
            all == views(sorted@),
            name_place(all, name@, 0) == name_place(all, name@, p as int),
        decreases sorted@.len() - p,
    {
        assert(all[p as int] == sorted@[p as int]@);
        p += 1;
    }
    proof {
        if p < sorted@.len() {
            assert(all[p as int] == sorted@[p as int]@);
        }
        assert(name_place(all, name@, 0) == p);
    }
    if p < sorted.len() && same_text(sorted[p].as_str(), name.as_str()) {
        return;
    }
    let ghost n = name@;
    sorted.insert(p, name);
    assert(views(sorted@) =~= all.insert(p as int, n));
}

fn add_declared(sorted: &mut Vec<String>, ls: &Vec<String>)
    ensures
        views(final(sorted)@) == with_declared(
            views(old(sorted)@),
            views(ls@),
            ls@.len() as int,
        ),
{
    let ghost start = views(sorted@);
    let ghost all = views(ls@);
    let mut i: usize = 0;
    while i < ls.len()
        invariant
            i <= ls@.len(),
            all == views(ls@),
            views(sorted@) == with_declared(start, all, i as int),
        decreases ls@.len() - i,
    {
        assert(all[i as int] == ls@[i as int]@);
        if let Some(n) = varying_decl_name(ls[i].as_str()) {
            add_name(sorted, n);
        }
        i += 1;
    }
}

/// A line with the location of the varying that it declares.
pub open spec fn pinned_line(line: Seq<char>, names: Seq<Seq<char>>) -> Seq<char> {
    match declared(line) {
        Some(n) => match name_at(names, n, 0) {
            Some(i) => {
                let w = after_white(line, 0);
                line.take(w) + "layout(location = "@ + decimal(i) + ") "@ + line.skip(w)
            },
            None => line,
        },
        None => line,
    }
}

/// Lines with the locations of the varyings that they declare.
pub open spec fn pinned_lines(ls: Seq<Seq<char>>, names: Seq<Seq<char>>) -> Seq<Seq<char>> {
    Seq::new(ls.len(), |i: int| pinned_line(ls[i], names))
}

/// A source with the locations of its varyings.
pub open spec fn pinned(src: Seq<char>, names: Seq<Seq<char>>) -> Seq<char> {
    joined(pinned_lines(lines(src), names), lines(src).len() as int)
}

fn find_name(names: &Vec<String>, name: &str) -> (r: Option<usize>)
    ensures
        match r {
            Some(i) => name_at(views(names@), name@, 0) == Some(i as int),
            None => name_at(views(names@), name@, 0) is None,
        },
{
    let ghost all = views(names@);
    let mut i: usize = 0;
    while i < names.len()
        invariant
            i <= names@.len(),
            all == views(names@),
            name_at(all, name@, 0) == name_at(all, name@, i as int),
        decreases names@.len() - i,
    {
        assert(all[i as int] == names@[i as int]@);
        if same_text(names[i].as_str(), name) {
            return Some(i);
        }
        i += 1;
    }
    None
}

fn pin_line(line: &String, names: &Vec<String>) -> (r: String)
    ensures
        r@ == pinned_line(line@, views(names@)),
{
    if let Some(n) = varying_decl_name(line.as_str()) {
        if let Some(i) = find_name(names, n.as_str()) {
            let chars = chars_of(line.as_str());
            let w = skip_white(&chars, 0);
            let len: usize = chars.len();
            let indent = text_of(chars.as_slice(), 0, w);
            let rest = text_of(chars.as_slice(), w, len);
            let number = decimal_of_index(i);
            let a = join2(indent.as_str(), "layout(location = ");
            let b = join2(a.as_str(), number.as_str());
            let c = join2(b.as_str(), ") ");
            let d = join2(c.as_str(), rest.as_str());
            assert(line@.take(w as int) =~= indent@);
            assert(line@.skip(w as int) =~= rest@);
            return d;
        }
    }
    line.clone()
}

fn pin_source(ls: &Vec<String>, names: &Vec<String>) -> (r: String)
    ensures
        r@ == joined(pinned_lines(views(ls@), views(names@)), ls@.len() as int),
{
    let ghost all = views(ls@);
    let ghost goal = pinned_lines(all, views(names@));
    let mut out: Vec<String> = Vec::new();
    let mut i: usize = 0;
    while i < ls.len()
        invariant
            i <= ls@.len(),
            all == views(ls@),
            goal == pinned_lines(all, views(names@)),
            out@.len() == i,
            forall|j: int| 0 <= j < i ==> (#[trigger] out@[j])@ == goal[j],
        decreases ls@.len() - i,
    {
        assert(all[i as int] == ls@[i as int]@);
        out.push(pin_line(&ls[i], names));
        i += 1;
    }
    assert(views(out@) =~= goal);
    join_lines(&out)
}

/// Gives every varying of two sources a location: its place in the order of
/// their names.
pub fn pin_varying_locations(vs_src: &str, fs_src: &str) -> (r: (String, String))
    ensures
        r.0@ == pinned(vs_src@, varying_names(vs_src@, fs_src@)),
        r.1@ == pinned(fs_src@, varying_names(vs_src@, fs_src@)),
{
    let vs = text_lines(vs_src);
    let fs = text_lines(fs_src);
    let mut names: Vec<String> = Vec::new();
    assert(views(names@) =~= Seq::empty());
    assert(vs@.len() == views(vs@).len());
    assert(fs@.len() == views(fs@).len());
    add_declared(&mut names, &vs);
    add_declared(&mut names, &fs);
    (pin_source(&vs, &names), pin_source(&fs, &names))
}

/// Whether names stand in order, none of them twice.
pub open spec fn names_in_order(names: Seq<Seq<char>>) -> bool {
    forall|i: int, j: int|
        0 <= i < j < names.len() ==> text_less(#[trigger] names[i], #[trigger] names[j])
}

proof fn lemma_with_name_in_order(sorted: Seq<Seq<char>>, name: Seq<char>)
    requires
        names_in_order(sorted),
    ensures
        names_in_order(with_name(sorted, name)),
        with_name(sorted, name).contains(name),
        forall|n: Seq<char>| #[trigger] sorted.contains(n) ==> with_name(sorted, name).contains(n),
{
    lemma_name_place(sorted, name, 0);
    let p = name_place(sorted, name, 0);
    let now = with_name(sorted, name);
    if p < sorted.len() && sorted[p] == name {
        assert(now[p] == name);
    } else {
        assert(now[p] == name);
        assert forall|i: int, j: int| 0 <= i < j < now.len() implies text_less(
            #[trigger] now[i],
            #[trigger] now[j],
        ) by {
            if i < p && j == p {
                assert(now[i] == sorted[i]);
            } else if i == p && j > p {
                assert(now[j] == sorted[j - 1]);
                lemma_text_less_total(sorted[p], name);
                if j - 1 > p {
                    assert(text_less(sorted[p], sorted[j - 1]));
                    lemma_text_less_trans(name, sorted[p], sorted[j - 1]);
                }
            } else {
                let a = if i < p {
                    i
                } else {
                    i - 1
                };
                let b = if j < p {
                    j
                } else {
                    j - 1
                };
                assert(now[i] == sorted[a] && now[j] == sorted[b]);
            }
        }
        assert forall|n: Seq<char>| #[trigger] sorted.contains(n) implies now.contains(n) by {
            let i = choose|i: int| 0 <= i < sorted.len() && sorted[i] == n;
            if i < p {
                assert(now[i] == n);
            } else {
                assert(now[i + 1] == n);
            }
        }
    }
}

proof fn lemma_with_declared(sorted: Seq<Seq<char>>, ls: Seq<Seq<char>>, k: int)
    requires
        names_in_order(sorted),
        0 <= k <= ls.len(),
    ensures
        names_in_order(with_declared(sorted, ls, k)),
        forall|n: Seq<char>| #[trigger]
            sorted.contains(n) ==> with_declared(sorted, ls, k).contains(n),
        forall|i: int|
            0 <= i < k ==> (declared(#[trigger] ls[i]) matches Some(n) ==> with_declared(
                sorted,
                ls,
                k,
            ).contains(n)),
    decreases k,
{
    if k > 0 {
        lemma_with_declared(sorted, ls, k - 1);
        if let Some(n) = declared(ls[k - 1]) {
            lemma_with_name_in_order(with_declared(sorted, ls, k - 1), n);
        }
    }
}

proof fn lemma_name_at(names: Seq<Seq<char>>, n: Seq<char>, from: int)
    requires
        0 <= from,
    ensures
        match name_at(names, n, from) {
            Some(i) => from <= i < names.len() && names[i] == n,
            None => forall|i: int| from <= i < names.len() ==> names[i] != n,
        },
    decreases names.len() - from,
{
    if from < names.len() && names[from] != n {
        lemma_name_at(names, n, from + 1);
    }
}

/// Both stages of a pass know a varying by one location, and no two varyings
/// by the same: every name that either source declares has a place in the
/// order of the names, and different names have different places.
pub proof fn law_stages_share_locations(vs: Seq<char>, fs: Seq<char>, a: Seq<char>, b: Seq<char>)
    requires
        (exists|i: int| 0 <= i < lines(vs).len() && declared(#[trigger] lines(vs)[i]) == Some(a)) || (
        exists|i: int| 0 <= i < lines(fs).len() && declared(#[trigger] lines(fs)[i]) == Some(a)),
    ensures
        name_at(varying_names(vs, fs), a, 0) is Some,
        a != b ==> name_at(varying_names(vs, fs), a, 0) != name_at(varying_names(vs, fs), b, 0),
{
    let first = with_declared(Seq::empty(), lines(vs), lines(vs).len() as int);
    lemma_with_declared(Seq::empty(), lines(vs), lines(vs).len() as int);
    lemma_with_declared(first, lines(fs), lines(fs).len() as int);
    let names = varying_names(vs, fs);
    assert(names.contains(a));
    lemma_name_at(names, a, 0);
    lemma_name_at(names, b, 0);
}

/// How often a text stands in another at or after `from`, without overlaps.
pub open spec fn count_of(s: Seq<char>, p: Seq<char>, from: int) -> nat
    decreases s.len() - from,
{
    match first_at(s, p, from) {
        Some(i) => if p.len() > 0 && from <= i && i + p.len() <= s.len() {
            1 + count_of(s, p, i + p.len())
        } else {
            0
        },
        None => 0,
    }
}

fn occurs_once(s: &Vec<char>, p: &Vec<char>) -> (r: bool)
    requires
        p@.len() > 0,
    ensures
        r == (count_of(s@, p@, 0) == 1),
{
    let length: usize = s.len();
    proof {
        reveal_with_fuel(count_of, 3);
    }
    match find_run(s.as_slice(), p.as_slice(), 0) {
        Some(i) => {
            assert(i + p@.len() <= length);
            let next: usize = i + p.len();
            assert(count_of(s@, p@, 0) == 1 + count_of(s@, p@, next as int));
            find_run(s.as_slice(), p.as_slice(), next).is_none()
        },
        None => false,
    }
}

/// Whether a varying of a fragment source is dead: the vertex source does not
/// declare it, and the fragment source speaks of it only to declare it.
pub open spec fn is_dead(vs: Seq<char>, fs: Seq<char>, name: Seq<char>) -> bool {
    !(exists|i: int| 0 <= i < lines(vs).len() && declared(#[trigger] lines(vs)[i]) == Some(name))
        && count_of(fs, name, 0) == 1
}

/// Whether a line declares a dead varying.
pub open spec fn line_is_dead(vs: Seq<char>, fs: Seq<char>, line: Seq<char>) -> bool {
    declared(line) matches Some(n) && is_dead(vs, fs, n)
}

/// The first `k` lines of a fragment source, without those that declare dead
/// varyings.
pub open spec fn live_lines(vs: Seq<char>, fs: Seq<char>, k: int) -> Seq<Seq<char>>
    decreases k,
{
    if k <= 0 {
        Seq::empty()
    } else if line_is_dead(vs, fs, lines(fs)[k - 1]) {
        live_lines(vs, fs, k - 1)
    } else {
        live_lines(vs, fs, k - 1).push(lines(fs)[k - 1])
    }
}

/// A fragment source without its dead varyings. One that has none stays as it is.
pub open spec fn stripped(vs: Seq<char>, fs: Seq<char>) -> Seq<char> {
    if exists|i: int| 0 <= i < lines(fs).len() && line_is_dead(vs, fs, #[trigger] lines(fs)[i]) {
        let live = live_lines(vs, fs, lines(fs).len() as int);
        joined(live, live.len() as int)
    } else {
        fs
    }
}

fn declares(ls: &Vec<String>, name: &str) -> (r: bool)
    ensures
        r == exists|i: int| 0 <= i < ls@.len() && declared(#[trigger] views(ls@)[i]) == Some(name@),
{
    let ghost all = views(ls@);
    let mut i: usize = 0;
    while i < ls.len()
        invariant
            i <= ls@.len(),
            all == views(ls@),
            forall|j: int| 0 <= j < i ==> declared(#[trigger] all[j]) != Some(name@),
        decreases ls@.len() - i,
    {
        assert(all[i as int] == ls@[i as int]@);
        if let Some(n) = varying_decl_name(ls[i].as_str()) {
            if same_text(n.as_str(), name) {
                assert(declared(views(ls@)[i as int]) == Some(name@));
                return true;
            }
        }
        i += 1;
    }
    false
}

/// A fragment source without its dead varyings.
pub fn strip_dead_fs_varyings(vs_src: &str, fs_src: &str) -> (r: String)
    ensures
        r@ == stripped(vs_src@, fs_src@),
{
    let vs = text_lines(vs_src);
    let fs = text_lines(fs_src);
    let source = chars_of(fs_src);
    let ghost all = lines(fs_src@);
    let mut any = false;
    let mut live: Vec<String> = Vec::new();
    let mut i: usize = 0;
    assert(views(live@) =~= Seq::empty());
    while i < fs.len()
        invariant
            i <= fs@.len(),
            all == views(fs@),
            all == lines(fs_src@),
            views(vs@) == lines(vs_src@),
            source@ == fs_src@,
            any == exists|j: int| 0 <= j < i && line_is_dead(vs_src@, fs_src@, #[trigger] all[j]),
            views(live@) == live_lines(vs_src@, fs_src@, i as int),
        decreases fs@.len() - i,
    {
        broadcast use lemma_views_push;

        let line = &fs[i];
        assert(all[i as int] == line@);
        let mut dead = false;
        if let Some(n) = varying_decl_name(line.as_str()) {
            let name = chars_of(n.as_str());
            assert(n@.len() > 0);
            assert(vs@.len() == views(vs@).len());
            if !declares(&vs, n.as_str()) && occurs_once(&source, &name) {
                dead = true;
            }
        }
        assert(dead == line_is_dead(vs_src@, fs_src@, all[i as int]));
        if dead {
            any = true;
        } else {
            live.push(line.clone());
        }
        i += 1;
    }
    if any {
        join_lines(&live)
    } else {
        fs_src.to_owned()
    }
}

/// Whether a declaration, from `from` on, is that of a function: a bracket
/// opens before anything is set or ended.
pub open spec fn opens_bracket(s: Seq<char>, from: int) -> bool
    decreases s.len() - from,
{
    if from < 0 || from >= s.len() {
        false
    } else if s[from] == '(' {
        true
    } else if s[from] == '=' || s[from] == ';' {
        false
    } else {
        opens_bracket(s, from + 1)
    }
}

pub fn is_const_return_function(rest: &str) -> (r: bool)
    ensures
        r == opens_bracket(rest@, 0),
{
    let chars = chars_of(rest);
    let mut i: usize = 0;
    while i < chars.len()
        invariant
            i <= chars@.len(),
            chars@ == rest@,
            opens_bracket(rest@, 0) == opens_bracket(rest@, i as int),
        decreases chars@.len() - i,
    {
        let c = chars[i];
        if c == '(' {
            return true;
        }
        if c == '=' || c == ';' {
            return false;
        }
        i += 1;
    }
    false
}

/// A line without the word `const` before a function.
pub open spec fn sane_line(line: Seq<char>) -> Seq<char> {
    let w = after_white(line, 0);
    let t = line.skip(w);
    if has_prefix(t, "const "@) && opens_bracket(t.skip(6), 0) {
        line.take(w) + t.skip(6)
    } else {
        line
    }
}

/// A text with each `p` in it, from `from` on, made `r`.
pub open spec fn replaced(s: Seq<char>, p: Seq<char>, r: Seq<char>, from: int) -> Seq<char>
    decreases s.len() - from,
{
    match first_at(s, p, from) {
        Some(i) => if p.len() > 0 && from <= i && i + p.len() <= s.len() {
            s.subrange(from, i) + r + replaced(s, p, r, i + p.len())
        } else {
            s.skip(from)
        },
        None => s.skip(from),
    }
}

/// A source that can be translated: no function returns a `const`, and a
/// fragment source speaks of where it is drawn by the right name.
pub open spec fn sane(src: Seq<char>, stage: Stage) -> Seq<char> {
    let ls = lines(src).map_values(|l: Seq<char>| sane_line(l));
    let out = joined(ls, ls.len() as int);
    if stage == Stage::Fragment {
        replaced(out, "gl_Position"@, "gl_FragCoord"@, 0)
    } else {
        out
    }
}

fn mend_line(line: &String) -> (r: String)
    ensures
        r@ == sane_line(line@),
{
    proof {
        reveal_strlit("const ");
    }
    let chars = chars_of(line.as_str());
    let n: usize = chars.len();
    let w = skip_white(&chars, 0);
    let trimmed = text_of(chars.as_slice(), w, n);
    assert(trimmed@ =~= line@.skip(w as int));
    if starts_with(trimmed.as_str(), "const ") {
        let rest = text_of(chars.as_slice(), w + 6, n);
        assert(rest@ =~= trimmed@.skip(6));
        if is_const_return_function(rest.as_str()) {
            let indent = text_of(chars.as_slice(), 0, w);
            assert(indent@ =~= line@.take(w as int));
            return join2(indent.as_str(), rest.as_str());
        }
    }
    line.clone()
}

pub fn replace_all(s: &str, p: &str, r: &str) -> (out: String)
    requires
        p@.len() > 0,
    ensures
        out@ == replaced(s@, p@, r@, 0),
{
    let chars = chars_of(s);
    let word = chars_of(p);
    let n: usize = chars.len();
    let mut out = String::new();
    let mut from: usize = 0;
    assert(out@ + replaced(s@, p@, r@, 0) =~= replaced(s@, p@, r@, 0));
    while from <= n
        invariant
            from <= n,
            n == chars@.len(),
            chars@ == s@,
            word@ == p@,
            p@.len() > 0,
            replaced(s@, p@, r@, 0) == out@ + replaced(s@, p@, r@, from as int),
        decreases n - from,
    {
        match find_run(chars.as_slice(), word.as_slice(), from) {
            Some(i) => {
                let kept = text_of(chars.as_slice(), from, i);
                let a = join2(out.as_str(), kept.as_str());
                let b = join2(a.as_str(), r);
                assert(out@ + (kept@ + r@ + replaced(s@, p@, r@, i + p@.len())) =~= b@ + replaced(
                    s@,
                    p@,
                    r@,
                    i + p@.len(),
                ));
                out = b;
                from = i + word.len();
            },
            None => {
                let kept = text_of(chars.as_slice(), from, n);
                assert(kept@ =~= s@.skip(from as int));
                return join2(out.as_str(), kept.as_str());
            },
        }
    }
    out
}

/// A source that can be translated.
pub fn sanitize_glsl(src: &str, stage: Stage) -> (r: String)
    ensures
        r@ == sane(src@, stage),
{
    proof {
        reveal_strlit("gl_Position");
    }
    let ls = text_lines(src);
    let ghost all = lines(src@);
    let ghost goal = all.map_values(|l: Seq<char>| sane_line(l));
    let mut out: Vec<String> = Vec::new();
    let mut i: usize = 0;
    while i < ls.len()
        invariant
            i <= ls@.len(),
            all == views(ls@),
            out@.len() == i,
            forall|j: int| 0 <= j < i ==> (#[trigger] out@[j])@ == sane_line(all[j]),
        decreases ls@.len() - i,
    {
        assert(all[i as int] == ls@[i as int]@);
        out.push(mend_line(&ls[i]));
        i += 1;
    }
    assert(views(out@) =~= goal);
    let text = join_lines(&out);
    match stage {
        Stage::Fragment => replace_all(text.as_str(), "gl_Position", "gl_FragCoord"),
        Stage::Vertex => text,
    }
}

} // verus!
