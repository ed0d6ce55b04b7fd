//! Texts as they are shown, and the fonts they ask for.
use vstd::prelude::*;

use crate::glsl::{replace_all, replaced};
use crate::strings::{
    chars_of, digit_char, find_char, has_prefix, index_of, is_digit, join2, lower,
    same_ignoring_case, same_run_ignoring_case, starts_with, text_of,
};
use crate::value::{is_white, trimmed, trimmed_text, white};

verus! {

/// The position after the slashes that begin at `from`.
pub open spec fn after_slashes(s: Seq<char>, from: int) -> int
    decreases s.len() - from,
{
    if from < 0 || from >= s.len() || s[from] != '/' {
        from
    } else {
        after_slashes(s, from + 1)
    }
}

/// The position where the name of a tag ends that begins at `from`.
pub open spec fn tag_name_end(s: Seq<char>, from: int) -> int
    decreases s.len() - from,
{
    if from < 0 || from >= s.len() || white(s[from]) || s[from] == '=' || s[from] == '/' {
        from
    } else {
        tag_name_end(s, from + 1)
    }
}

/// The name of a tag: what stands behind its slashes up to white space, an
/// equals sign or another slash.
pub open spec fn tag_name(tag: Seq<char>) -> Seq<char> {
    let a = after_slashes(tag, 0);
    tag.subrange(a, tag_name_end(tag, a))
}

/// Whether a character is a letter or a digit.
pub open spec fn letter_or_digit(c: char) -> bool {
    digit_char(c) || ('a' <= c && c <= 'z') || ('A' <= c && c <= 'Z')
}

/// Whether a text can be the name of a tag.
pub open spec fn is_tag_name(s: Seq<char>) -> bool {
    s.len() > 0 && forall|i: int| 0 <= i < s.len() ==> letter_or_digit(#[trigger] s[i])
}

/// A text from `from` on without its tags. A line break is kept as one, and
/// what only looks like a tag is kept as it is.
pub open spec fn untagged(s: Seq<char>, from: int) -> Seq<char>
    decreases s.len() - from,
{
    if from < 0 || from > s.len() {
        Seq::empty()
    } else {
        match index_of(s, '<', from) {
            None => s.skip(from),
            Some(i) => if !(from <= i < s.len()) {
                s.skip(from)
            } else {
                match index_of(s, '>', i) {
                    None => s.skip(from),
                    Some(j) => if !(i < j < s.len()) {
                        s.skip(from)
                    } else {
                        let name = tag_name(s.subrange(i + 1, j));
                        if !is_tag_name(name) {
                            s.subrange(from, i).push('<') + untagged(s, i + 1)
                        } else if lower(name) == lower("br"@) {
                            s.subrange(from, i).push('\n') + untagged(s, j + 1)
                        } else {
                            s.subrange(from, i) + untagged(s, j + 1)
                        }
                    },
                }
            },
        }
    }
}

/// A text with its entities made characters, the ampersand last.
pub open spec fn unescaped(s: Seq<char>) -> Seq<char> {
    let a = replaced(s, "&lt;"@, "<"@, 0);
    let b = replaced(a, "&gt;"@, ">"@, 0);
    let c = replaced(b, "&quot;"@, "\""@, 0);
    let d = replaced(c, "&#39;"@, "'"@, 0);
    let e = replaced(d, "&nbsp;"@, " "@, 0);
    replaced(e, "&amp;"@, "&"@, 0)
}

/// A text as it is shown.
pub open spec fn plain(s: Seq<char>) -> Seq<char> {
    unescaped(untagged(s, 0))
}

fn unescape(text: &str) -> (r: String)
    ensures
        r@ == unescaped(text@),
{
    proof {
        reveal_strlit("&lt;");
        reveal_strlit("&gt;");
        reveal_strlit("&quot;");
        reveal_strlit("&#39;");
        reveal_strlit("&nbsp;");
        reveal_strlit("&amp;");
    }
    let a = replace_all(text, "&lt;", "<");
    let b = replace_all(a.as_str(), "&gt;", ">");
    let c = replace_all(b.as_str(), "&quot;", "\"");
    let d = replace_all(c.as_str(), "&#39;", "'");
    let e = replace_all(d.as_str(), "&nbsp;", " ");
    replace_all(e.as_str(), "&amp;", "&")
}

fn is_letter_or_digit(c: char) -> (r: bool)
    ensures
        r == letter_or_digit(c),
{
    let n: u32 = c as u32;
    is_digit(c) || (97 <= n && n <= 122) || (65 <= n && n <= 90)
}

fn find_tag_name(tag: &Vec<char>) -> (r: Vec<char>)
    ensures
        r@ == tag_name(tag@),
{
    let n: usize = tag.len();
    let mut a: usize = 0;
    while a < n && tag[a] == '/'
        invariant
            a <= n,
            n == tag@.len(),
            after_slashes(tag@, 0) == after_slashes(tag@, a as int),
        decreases n - a,
    {
        a += 1;
    }
    let mut b: usize = a;
    while b < n && !(is_white(tag[b]) || tag[b] == '=' || tag[b] == '/')
        invariant
            a <= b <= n,
            n == tag@.len(),
            tag_name_end(tag@, a as int) == tag_name_end(tag@, b as int),
        decreases n - b,
    {
        b += 1;
    }
    let name = text_of(tag.as_slice(), a, b);
    chars_of(name.as_str())
}

fn can_be_tag_name(s: &Vec<char>) -> (r: bool)
    ensures
        r == is_tag_name(s@),
{
    if s.len() == 0 {
        return false;
    }
    let mut i: usize = 0;
    while i < s.len()
        invariant
            i <= s@.len(),
            s@.len() > 0,
            forall|j: int| 0 <= j < i ==> letter_or_digit(#[trigger] s@[j]),
        decreases s@.len() - i,
    {
        if !is_letter_or_digit(s[i]) {
            assert(!letter_or_digit(s@[i as int]));
            return false;
        }
        i += 1;
    }
    true
}

fn untag(text: &str) -> (r: String)
    ensures
        r@ == untagged(text@, 0),
{
    let s = chars_of(text);
    let n: usize = s.len();
    let br = chars_of("br");
    let mut out = String::new();
    let mut from: usize = 0;
    assert(out@ + untagged(text@, 0) =~= untagged(text@, 0));
    while from <= n
        invariant
            from <= n,
            n == s@.len(),
            s@ == text@,
            br@ == "br"@,
            untagged(text@, 0) == out@ + untagged(text@, from as int),
        decreases n - from,
    {
        let open = match find_char(s.as_slice(), '<', from) {
            Some(i) => i,
            None => {
                let rest = text_of(s.as_slice(), from, n);
                assert(rest@ =~= text@.skip(from as int));
                return join2(out.as_str(), rest.as_str());
            },
        };
        let close = match find_char(s.as_slice(), '>', open) {
            Some(j) => j,
            None => {
                let rest = text_of(s.as_slice(), from, n);
                assert(rest@ =~= text@.skip(from as int));
                return join2(out.as_str(), rest.as_str());
            },
        };
        assert(open < close);
        let before = text_of(s.as_slice(), from, open);
        let tag_text = text_of(s.as_slice(), open + 1, close);
        let tag = chars_of(tag_text.as_str());
        let name = find_tag_name(&tag);
        assert(tag@ =~= text@.subrange(open + 1, close as int));
        let ghost had = out@;
        let mut kept = join2(out.as_str(), before.as_str());
        if !can_be_tag_name(&name) {
            kept.push('<');
            assert(had + (before@.push('<') + untagged(text@, open + 1)) =~= kept@ + untagged(
                text@,
                open + 1,
            ));
            out = kept;
            from = open + 1;
        } else {
            if same_run_ignoring_case(name.as_slice(), br.as_slice()) {
                kept.push('\n');
                assert(had + (before@.push('\n') + untagged(text@, close + 1)) =~= kept@
                    + untagged(text@, close + 1));
            } else {
                assert(had + (before@ + untagged(text@, close + 1)) =~= kept@ + untagged(
                    text@,
                    close + 1,
                ));
            }
            out = kept;
            from = close + 1;
        }
    }
    out
}

/// A text as it is shown: without its tags, and with its entities made
/// characters.
pub fn without_markup(text: &str) -> (r: String)
    ensures
        r@ == plain(text@),
{
    let out = untag(text);
    unescape(out.as_str())
}

proof fn lemma_index_is_there(s: Seq<char>, c: char, from: int)
    requires
        0 <= from,
    ensures
        index_of(s, c, from) matches Some(i) ==> from <= i < s.len() && s[i] == c,
    decreases s.len() - from,
{
    if from < s.len() && s[from] != c {
        lemma_index_is_there(s, c, from + 1);
    }
}

proof fn lemma_index_of_absent(s: Seq<char>, c: char, from: int)
    requires
        !s.contains(c),
        0 <= from,
    ensures
        index_of(s, c, from) is None,
    decreases s.len() - from,
{
    lemma_index_is_there(s, c, from);
    if let Some(i) = index_of(s, c, from) {
        assert(s.contains(s[i]));
    }
}

proof fn lemma_first_at_is_there(s: Seq<char>, p: Seq<char>, from: int)
    requires
        0 <= from,
        p.len() > 0,
    ensures
        crate::strings::first_at(s, p, from) matches Some(i) ==> from <= i && i + p.len() <= s.len()
            && s[i] == p[0],
    decreases s.len() - from + 1,
{
    if from + p.len() <= s.len() {
        if crate::strings::stands_at(s, p, from) {
            assert(s.subrange(from, from + p.len())[0] == p[0]);
        } else {
            lemma_first_at_is_there(s, p, from + 1);
        }
    }
}

proof fn lemma_nothing_replaced(s: Seq<char>, p: Seq<char>, r: Seq<char>)
    requires
        p.len() > 0,
        p[0] == '&',
        !s.contains('&'),
    ensures
        replaced(s, p, r, 0) == s,
{
    lemma_first_at_is_there(s, p, 0);
    if let Some(i) = crate::strings::first_at(s, p, 0) {
        assert(s.contains(s[i]));
    }
    assert(s.skip(0) =~= s);
}

/// A text without a tag or an entity is shown as it is.
pub proof fn law_plain_texts_stay(s: Seq<char>)
    requires
        !s.contains('<'),
        !s.contains('&'),
    ensures
        plain(s) == s,
{
    lemma_index_of_absent(s, '<', 0);
    assert(s.skip(0) =~= s);
    assert(untagged(s, 0) == s);
    reveal_strlit("&lt;");
    reveal_strlit("&gt;");
    reveal_strlit("&quot;");
    reveal_strlit("&#39;");
    reveal_strlit("&nbsp;");
    reveal_strlit("&amp;");
    lemma_nothing_replaced(s, "&lt;"@, "<"@);
    lemma_nothing_replaced(s, "&gt;"@, ">"@);
    lemma_nothing_replaced(s, "&quot;"@, "\""@);
    lemma_nothing_replaced(s, "&#39;"@, "'"@);
    lemma_nothing_replaced(s, "&nbsp;"@, " "@);
    lemma_nothing_replaced(s, "&amp;"@, "&"@);
}

/// The part after the last slash of either kind.
pub open spec fn file_part(s: Seq<char>) -> Seq<char>
    decreases s.len(),
{
    if s.len() == 0 || s.last() == '/' || s.last() == '\\' {
        Seq::empty()
    } else {
        file_part(s.drop_last()).push(s.last())
    }
}

/// The position of the last point at or before `to`, if there is one.
pub open spec fn last_point(s: Seq<char>, to: int) -> Option<int>
    decreases to,
{
    if to <= 0 || to > s.len() {
        None
    } else if s[to - 1] == '.' {
        Some(to - 1)
    } else {
        last_point(s, to - 1)
    }
}

/// A name of a file without its ending.
pub open spec fn stem_of(s: Seq<char>) -> Seq<char> {
    match last_point(s, s.len() as int) {
        Some(i) => s.take(i),
        None => s,
    }
}

/// A text, if it is not empty.
pub open spec fn unless_empty(s: Seq<char>) -> Option<Seq<char>> {
    if s.len() == 0 {
        None
    } else {
        Some(s)
    }
}

/// The family of fonts that the name of a font hints at: that of a system
/// font, or else the stem of a file.
pub open spec fn hinted_family(font: Seq<char>) -> Option<Seq<char>> {
    let f = trimmed(font);
    if f.len() == 0 {
        None
    } else if has_prefix(f, "systemfont_"@) {
        unless_empty(trimmed(f.skip(11)))
    } else {
        unless_empty(trimmed(stem_of(file_part(f))))
    }
}

fn some_text(s: String) -> (r: Option<String>)
    ensures
        match r {
            Some(t) => unless_empty(s@) == Some(t@),
            None => unless_empty(s@) is None,
        },
{
    let n: usize = chars_of(s.as_str()).len();
    if n == 0 {
        None
    } else {
        Some(s)
    }
}

fn file_of(s: &Vec<char>) -> (r: Vec<char>)
    ensures
        r@ == file_part(s@),
{
    let n: usize = s.len();
    let mut i: usize = n;
    assert(s@.take(n as int) =~= s@);
    assert(file_part(s@.take(i as int)) + s@.skip(i as int) =~= file_part(s@));
    while i > 0 && s[i - 1] != '/' && s[i - 1] != '\\'
        invariant
            i <= n,
            n == s@.len(),
            file_part(s@) == file_part(s@.take(i as int)) + s@.skip(i as int),
        decreases i,
    {
        proof {
            let t = s@.take(i as int);
            assert(t.last() == s@[i - 1]);
            assert(t.drop_last() =~= s@.take(i - 1));
            assert(file_part(t.drop_last()).push(t.last()) + s@.skip(i as int) =~= file_part(
                t.drop_last(),
            ) + s@.skip(i - 1));
        }
        i -= 1;
    }
    proof {
        let t = s@.take(i as int);
        if i > 0 {
            assert(t.last() == s@[i - 1]);
        }
        assert(file_part(t) =~= Seq::empty());
        assert(file_part(t) + s@.skip(i as int) =~= s@.skip(i as int));
        assert(s@.skip(i as int) =~= s@.subrange(i as int, n as int));
    }
    let name = text_of(s.as_slice(), i, n);
    chars_of(name.as_str())
}

fn stem(s: &Vec<char>) -> (r: String)
    ensures
        r@ == stem_of(s@),
{
    let n: usize = s.len();
    let mut to: usize = n;
    while to > 0 && s[to - 1] != '.'
        invariant
            to <= n,
            n == s@.len(),
            last_point(s@, n as int) == last_point(s@, to as int),
        decreases to,
    {
        to -= 1;
    }
    if to > 0 {
        let r = text_of(s.as_slice(), 0, to - 1);
        assert(r@ =~= s@.take(to - 1));
        r
    } else {
        let r = text_of(s.as_slice(), 0, n);
        assert(r@ =~= s@);
        r
    }
}

/// The family of fonts that the name of a font hints at.
pub fn family_hint(font: &str) -> (r: Option<String>)
    ensures
        match r {
            Some(t) => hinted_family(font@) == Some(t@),
            None => hinted_family(font@) is None,
        },
{
    proof {
        reveal_strlit("systemfont_");
    }
    let f = trimmed_text(font);
    let chars = chars_of(f.as_str());
    let n: usize = chars.len();
    if n == 0 {
        return None;
    }
    if starts_with(f.as_str(), "systemfont_") {
        let rest = text_of(chars.as_slice(), 11, n);
        assert(rest@ =~= f@.skip(11));
        return some_text(trimmed_text(rest.as_str()));
    }
    let file = file_of(&chars);
    let name = stem(&file);
    some_text(trimmed_text(name.as_str()))
}

/// Whether a text ends as another does, but for case.
pub open spec fn ends_like(s: Seq<char>, ending: Seq<char>) -> bool {
    ending.len() <= s.len() && lower(s.skip(s.len() - ending.len())) == lower(ending)
}

/// Whether the name of a font is that of a file that a scene brings along.
pub open spec fn names_font_file(font: Seq<char>) -> bool {
    let f = trimmed(font);
    ends_like(f, ".ttf"@) || ends_like(f, ".otf"@) || ends_like(f, ".ttc"@)
}

fn ends_with(s: &Vec<char>, ending: &str) -> (r: bool)
    ensures
        r == ends_like(s@, ending@),
{
    let e = chars_of(ending);
    let n: usize = s.len();
    if e.len() > n {
        return false;
    }
    let tail = text_of(s.as_slice(), n - e.len(), n);
    assert(tail@ =~= s@.skip(n - ending@.len()));
    same_ignoring_case(tail.as_str(), ending)
}

/// Whether the name of a font is that of a file that a scene brings along.
pub fn is_bundled_font(font: &str) -> (r: bool)
    ensures
        r == names_font_file(font@),
{
    let f = trimmed_text(font);
    let chars = chars_of(f.as_str());
    ends_with(&chars, ".ttf") || ends_with(&chars, ".otf") || ends_with(&chars, ".ttc")
}

/// To which side a text is set.
#[derive(Clone, Copy, Debug, PartialEq, Eq, Structural)]
pub enum Align {
    Left,
    Center,
    Right,
}

pub fn h_align(s: &str) -> (r: Align)
    ensures
        r == (if s@ == "left"@ {
            Align::Left
        } else if s@ == "right"@ {
            Align::Right
        } else {
            Align::Center
        }),
{
    if crate::strings::same_text(s, "left") {
        Align::Left
    } else if crate::strings::same_text(s, "right") {
        Align::Right
    } else {
        Align::Center
    }
}

/// Where a text stands in the height that it is given.
#[derive(Clone, Copy, Debug, PartialEq, Eq, Structural)]
pub enum VerticalAlign {
    Top,
    Center,
    Bottom,
}

pub fn v_align(s: &str) -> (r: VerticalAlign)
    ensures
        r == (if s@ == "top"@ {
            VerticalAlign::Top
        } else if s@ == "bottom"@ {
            VerticalAlign::Bottom
        } else {
            VerticalAlign::Center
        }),
{
    if crate::strings::same_text(s, "top") {
        VerticalAlign::Top
    } else if crate::strings::same_text(s, "bottom") {
        VerticalAlign::Bottom
    } else {
        VerticalAlign::Center
    }
}

} // verus!
