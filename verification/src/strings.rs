//! Operations on text, stated over sequences of characters.
use vstd::prelude::*;

verus! {

/// The views of the members of a sequence.
pub open spec fn views<T: View>(s: Seq<T>) -> Seq<T::V> {
    Seq::new(s.len(), |i: int| s[i]@)
}

/// The view of an optional value.
pub open spec fn opt_view<T: View>(o: Option<T>) -> Option<T::V> {
    match o {
        Some(x) => Some(x@),
        None => None,
    }
}

/// The texts in a sequence of optional texts.
pub open spec fn texts(s: Seq<Option<String>>) -> Seq<Option<Seq<char>>> {
    Seq::new(s.len(), |i: int| opt_view(s[i]))
}

pub broadcast proof fn lemma_views_push<T: View>(s: Seq<T>, x: T)
    ensures
        #[trigger] views(s.push(x)) == views(s).push(x@),
{
    assert(views(s.push(x)) =~= views(s).push(x@));
}

/// `std::string::String::push`: the string grows by the one character.
pub assume_specification[ String::push ](s: &mut String, c: char)
    ensures
        final(s)@ == old(s)@.push(c),
;

/// The characters of a text.
pub fn chars_of(s: &str) -> (r: Vec<char>)
    ensures
        r@ == s@,
{
    let mut out: Vec<char> = Vec::new();
    for c in it: s.chars()
        invariant
            it.seq() == s@,
            out@ == s@.take(it.index()),
    {
        out.push(c);
        assert(s@.take(it.index() + 1) =~= s@.take(it.index()).push(c));
    }
    assert(s@.take(s@.len() as int) =~= s@);
    out
}

/// The text made of `chars[from..to]`.
pub fn text_of(chars: &[char], from: usize, to: usize) -> (r: String)
    requires
        from <= to <= chars@.len(),
    ensures
        r@ == chars@.subrange(from as int, to as int),
{
    let mut out = String::new();
    let mut i: usize = from;
    while i < to
        invariant
            from <= i <= to <= chars@.len(),
            out@ == chars@.subrange(from as int, i as int),
        decreases to - i,
    {
        out.push(chars[i]);
        assert(chars@.subrange(from as int, i + 1) =~= chars@.subrange(from as int, i as int).push(
            chars@[i as int],
        ));
        i += 1;
    }
    out
}

/// Whether two texts are the same.
pub fn same_text(a: &str, b: &str) -> (r: bool)
    ensures
        r == (a@ == b@),
{
    let x = a.to_owned();
    let y = b.to_owned();
    x == y
}

/// The ASCII lower-case form of a character.
pub open spec fn ascii_lower(c: char) -> char {
    if 'A' <= c && c <= 'Z' {
        ((c as u32 + 32) as u32) as char
    } else {
        c
    }
}

/// The ASCII lower-case form of a text.
pub open spec fn lower(s: Seq<char>) -> Seq<char> {
    s.map_values(|c: char| ascii_lower(c))
}

pub fn fold_char(c: char) -> (r: u32)
    ensures
        r == ascii_lower(c) as u32,
{
    let n: u32 = c as u32;
    if 65 <= n && n <= 90 {
        n + 32
    } else {
        n
    }
}

/// Whether a character is a decimal digit.
pub open spec fn digit_char(c: char) -> bool {
    '0' <= c && c <= '9'
}

pub fn is_digit(c: char) -> (r: bool)
    ensures
        r == digit_char(c),
{
    let n: u32 = c as u32;
    48 <= n && n <= 57
}

/// Whether two character runs agree when ASCII letters are compared without case.
pub fn same_run_ignoring_case(a: &[char], b: &[char]) -> (r: bool)
    ensures
        r == (lower(a@) == lower(b@)),
{
    if a.len() != b.len() {
        assert(lower(a@).len() != lower(b@).len());
        return false;
    }
    let mut i: usize = 0;
    while i < a.len()
        invariant
            i <= a@.len(),
            a@.len() == b@.len(),
            forall|j: int| 0 <= j < i ==> lower(a@)[j] == lower(b@)[j],
        decreases a@.len() - i,
    {
        if fold_char(a[i]) != fold_char(b[i]) {
            assert(lower(a@)[i as int] != lower(b@)[i as int]);
            return false;
        }
        i += 1;
    }
    assert(lower(a@) =~= lower(b@));
    true
}

/// Whether two texts agree when ASCII letters are compared without case.
pub fn same_ignoring_case(a: &str, b: &str) -> (r: bool)
    ensures
        r == (lower(a@) == lower(b@)),
{
    let x = chars_of(a);
    let y = chars_of(b);
    same_run_ignoring_case(x.as_slice(), y.as_slice())
}

/// Whether `s` begins with `p`.
pub open spec fn has_prefix(s: Seq<char>, p: Seq<char>) -> bool {
    p.len() <= s.len() && s.take(p.len() as int) == p
}

/// Whether `p` stands in `s` at position `at`.
pub open spec fn stands_at(s: Seq<char>, p: Seq<char>, at: int) -> bool {
    0 <= at && at + p.len() <= s.len() && s.subrange(at, at + p.len()) == p
}

pub fn run_stands_at(s: &[char], p: &[char], at: usize) -> (r: bool)
    ensures
        r == stands_at(s@, p@, at as int),
{
    if at > s.len() || p.len() > s.len() - at {
        return false;
    }
    let mut i: usize = 0;
    while i < p.len()
        invariant
            i <= p@.len(),
            at + p@.len() <= s@.len() <= usize::MAX,
            forall|j: int| 0 <= j < i ==> s@[at + j] == p@[j],
        decreases p@.len() - i,
    {
        if s[at + i] != p[i] {
            assert(s@.subrange(at as int, at + p@.len())[i as int] != p@[i as int]);
            return false;
        }
        i += 1;
    }
    assert(s@.subrange(at as int, at + p@.len()) =~= p@);
    true
}

pub fn starts_with(s: &str, p: &str) -> (r: bool)
    ensures
        r == has_prefix(s@, p@),
{
    let a = chars_of(s);
    let b = chars_of(p);
    proof {
        if p@.len() <= s@.len() {
            assert(s@.take(p@.len() as int) =~= s@.subrange(0, p@.len() as int));
        }
    }
    run_stands_at(a.as_slice(), b.as_slice(), 0)
}

/// Where `p` first stands in `s` at or after `from`: the least such position,
/// or none.
pub open spec fn first_at(s: Seq<char>, p: Seq<char>, from: int) -> Option<int>
    decreases s.len() - from + 1,
{
    if from < 0 || from + p.len() > s.len() {
        None
    } else if stands_at(s, p, from) {
        Some(from)
    } else {
        first_at(s, p, from + 1)
    }
}

pub fn find_run(s: &[char], p: &[char], from: usize) -> (r: Option<usize>)
    ensures
        match r {
            Some(i) => first_at(s@, p@, from as int) == Some(i as int) && from <= i && i + p@.len()
                <= s@.len(),
            None => first_at(s@, p@, from as int) is None,
        },
{
    let mut i: usize = from;
    if p.len() > s.len() {
        return None;
    }
    let end: usize = s.len() - p.len();
    while i <= end
        invariant
            from <= i,
            end == s@.len() - p@.len(),
            s@.len() <= usize::MAX,
            first_at(s@, p@, from as int) == first_at(s@, p@, i as int),
        decreases end + 1 - i,
    {
        if run_stands_at(s, p, i) {
            return Some(i);
        }
        if i == end {
            assert(first_at(s@, p@, i + 1) is None);
            return None;
        }
        i += 1;
    }
    None
}

/// Where the character `c` first stands in `s` at or after `from`.
pub open spec fn index_of(s: Seq<char>, c: char, from: int) -> Option<int>
    decreases s.len() - from,
{
    if from < 0 || from >= s.len() {
        None
    } else if s[from] == c {
        Some(from)
    } else {
        index_of(s, c, from + 1)
    }
}

pub fn find_char(s: &[char], c: char, from: usize) -> (r: Option<usize>)
    ensures
        match r {
            Some(i) => index_of(s@, c, from as int) == Some(i as int) && from <= i < s@.len() && s@[i as int] == c,
            None => index_of(s@, c, from as int) is None,
        },
        r is None && from <= s@.len() ==> forall|j: int| from <= j < s@.len() ==> s@[j] != c,
{
    let mut i: usize = from;
    while i < s.len()
        invariant
            from <= i,
            i <= s@.len() || i == from,
            index_of(s@, c, from as int) == index_of(s@, c, i as int),
            forall|j: int| from <= j < i ==> s@[j] != c,
        decreases s@.len() - i,
    {
        if s[i] == c {
            return Some(i);
        }
        i += 1;
    }
    None
}

/// The pieces of `s` between the occurrences of `sep`, in order. There is
/// always at least one.
pub open spec fn split(s: Seq<char>, sep: char) -> Seq<Seq<char>>
    decreases s.len(),
{
    match index_of(s, sep, 0) {
        Some(i) => if 0 <= i < s.len() {
            seq![s.take(i)] + split(s.skip(i + 1), sep)
        } else {
            seq![s]
        },
        None => seq![s],
    }
}

/// The part after the last `sep`, or all of `s` where there is none.
pub open spec fn last_piece(s: Seq<char>, sep: char) -> Seq<char>
    decreases s.len(),
{
    if s.len() == 0 || s.last() == sep {
        Seq::empty()
    } else {
        last_piece(s.drop_last(), sep).push(s.last())
    }
}

pub fn after_last(s: &str, sep: char) -> (r: String)
    ensures
        r@ == last_piece(s@, sep),
{
    let chars = chars_of(s);
    let mut i: usize = chars.len();
    proof {
        assert(chars@.subrange(i as int, chars@.len() as int) =~= Seq::<char>::empty());
        assert(chars@.take(i as int) =~= s@);
        assert(last_piece(s@, sep) + Seq::<char>::empty() =~= last_piece(s@, sep));
    }
    while i > 0 && chars[i - 1] != sep
        invariant
            i <= chars@.len(),
            chars@ == s@,
            last_piece(s@, sep) == last_piece(chars@.take(i as int), sep) + chars@.subrange(
                i as int,
                chars@.len() as int,
            ),
        decreases i,
    {
        proof {
            let t = chars@.take(i as int);
            assert(t.drop_last() =~= chars@.take(i - 1));
            assert(t.last() == chars@[i - 1]);
            assert(last_piece(t.drop_last(), sep).push(t.last()) + chars@.subrange(
                i as int,
                chars@.len() as int,
            ) =~= last_piece(t.drop_last(), sep) + chars@.subrange(i - 1, chars@.len() as int));
        }
        i -= 1;
    }
    proof {
        let t = chars@.take(i as int);
        assert(last_piece(t, sep) =~= Seq::<char>::empty());
        assert(last_piece(t, sep) + chars@.subrange(i as int, chars@.len() as int)
            =~= chars@.subrange(i as int, chars@.len() as int));
    }
    text_of(chars.as_slice(), i, chars.len())
}

proof fn lemma_index_of_skip(s: Seq<char>, c: char, start: int, from: int)
    requires
        0 <= start <= s.len(),
        0 <= from,
    ensures
        index_of(s.skip(start), c, from) == (match index_of(s, c, start + from) {
            Some(i) => Some(i - start),
            None => None,
        }),
    decreases s.len() - start - from,
{
    if from < s.len() - start && s.skip(start)[from] != c {
        lemma_index_of_skip(s, c, start, from + 1);
    }
}

/// The pieces of a text between the occurrences of a character.
pub fn split_text(s: &str, sep: char) -> (r: Vec<String>)
    ensures
        views(r@) == split(s@, sep),
        r@.len() >= 1,
{
    let chars = chars_of(s);
    let mut out: Vec<String> = Vec::new();
    let mut start: usize = 0;
    let n: usize = chars.len();
    assert(chars@.skip(0) =~= s@);
    assert(views(out@) + split(s@, sep) =~= split(s@, sep));
    loop
        invariant
            chars@ == s@,
            n == chars@.len(),
            start <= chars@.len(),
            views(out@) + split(chars@.skip(start as int), sep) == split(s@, sep),
        decreases chars@.len() - start,
    {
        broadcast use lemma_views_push;

        proof {
            lemma_index_of_skip(chars@, sep, start as int, 0);
        }
        let rest = Ghost(chars@.skip(start as int));
        match find_char(chars.as_slice(), sep, start) {
            Some(i) => {
                let piece = text_of(chars.as_slice(), start, i);
                proof {
                    let k = i - start;
                    assert(rest@.take(k) =~= piece@);
                    assert(rest@.skip(k + 1) =~= chars@.skip(i + 1));
                    assert(split(rest@, sep) == seq![rest@.take(k)] + split(
                        rest@.skip(k + 1),
                        sep,
                    ));
                    assert(views(out@.push(piece)) + split(chars@.skip(i + 1), sep) =~= views(out@)
                        + split(rest@, sep));
                }
                out.push(piece);
                start = i + 1;
            },
            None => {
                let piece = text_of(chars.as_slice(), start, chars.len());
                proof {
                    assert(rest@ =~= piece@);
                    assert(split(rest@, sep) == seq![rest@]);
                    assert(views(out@.push(piece)) =~= views(out@) + seq![rest@]);
                }
                out.push(piece);
                return out;
            },
        }
    }
}

/// The character of a decimal digit.
pub open spec fn digit(d: nat) -> char {
    ((48 + d) as u8) as char
}

/// The decimal digits of a number.
pub open spec fn digits(n: nat) -> Seq<char>
    decreases n,
{
    if n < 10 {
        seq![digit(n)]
    } else {
        digits(n / 10).push(digit(n % 10))
    }
}

/// A number in decimal, with a sign where it is negative.
pub open spec fn decimal(i: int) -> Seq<char> {
    if i < 0 {
        seq!['-'] + digits((-i) as nat)
    } else {
        digits(i as nat)
    }
}

fn push_digits(out: &mut String, n: u64)
    ensures
        final(out)@ == old(out)@ + digits(n as nat),
    decreases n,
{
    if n >= 10 {
        push_digits(out, n / 10);
    }
    let ghost before = out@;
    out.push((48 + (n % 10) as u8) as char);
    assert(out@ =~= old(out)@ + digits(n as nat));
}

/// A number in decimal.
pub fn decimal_of(i: i64) -> (r: String)
    ensures
        r@ == decimal(i as int),
{
    let mut out = String::new();
    if i < 0 {
        out.push('-');
        let m: u64 = (-(i as i128)) as u64;
        assert(out@ =~= seq!['-']);
        push_digits(&mut out, m);
    } else {
        push_digits(&mut out, i as u64);
        assert(out@ =~= decimal(i as int));
    }
    out
}

/// A number without a sign in decimal.
pub fn decimal_of_u64(n: u64) -> (r: String)
    ensures
        r@ == decimal(n as int),
{
    let mut out = String::new();
    push_digits(&mut out, n);
    assert(out@ =~= decimal(n as int));
    out
}

/// A position in decimal.
pub fn decimal_of_index(n: usize) -> (r: String)
    ensures
        r@ == decimal(n as int),
{
    let mut out = String::new();
    push_digits(&mut out, n as u64);
    assert(out@ =~= decimal(n as int));
    out
}

/// Two texts, one behind the other.
pub fn join2(a: &str, b: &str) -> (r: String)
    ensures
        r@ == a@ + b@,
{
    let mut out = a.to_owned();
    out.append(b);
    out
}

/// Whether `a` comes before `b` in the order of texts: by the first character
/// in which they differ, and a text before those that it begins.
pub open spec fn text_less(a: Seq<char>, b: Seq<char>) -> bool
    decreases a.len(),
{
    if b.len() == 0 {
        false
    } else if a.len() == 0 {
        true
    } else if a[0] == b[0] {
        text_less(a.skip(1), b.skip(1))
    } else {
        a[0] < b[0]
    }
}

/// Any two texts are ordered one way or the other.
pub proof fn lemma_text_less_total(a: Seq<char>, b: Seq<char>)
    ensures
        a != b ==> (text_less(a, b) || text_less(b, a)),
        !(text_less(a, b) && text_less(b, a)),
    decreases a.len(),
{
    if a.len() > 0 && b.len() > 0 {
        if a[0] == b[0] {
            lemma_text_less_total(a.skip(1), b.skip(1));
            if a.skip(1) == b.skip(1) {
                assert(a =~= seq![a[0]] + a.skip(1));
                assert(b =~= seq![b[0]] + b.skip(1));
            }
        }
    } else if a.len() == 0 && b.len() == 0 {
        assert(a =~= b);
    }
}

/// The order of texts is transitive.
pub proof fn lemma_text_less_trans(a: Seq<char>, b: Seq<char>, c: Seq<char>)
    requires
        text_less(a, b),
        text_less(b, c),
    ensures
        text_less(a, c),
    decreases a.len(),
{
    if a.len() > 0 && a[0] == b[0] && b[0] == c[0] {
        lemma_text_less_trans(a.skip(1), b.skip(1), c.skip(1));
    }
}

fn char_before(c: char, d: char) -> (r: bool)
    ensures
        r == (c < d),
{
    (c as u32) < (d as u32)
}

/// Whether one text comes before another.
pub fn comes_before(a: &str, b: &str) -> (r: bool)
    ensures
        r == text_less(a@, b@),
{
    let x = chars_of(a);
    let y = chars_of(b);
    let mut i: usize = 0;
    assert(x@.skip(0) =~= a@);
    assert(y@.skip(0) =~= b@);
    while i < x.len() && i < y.len()
        invariant
            x@ == a@,
            y@ == b@,
            i <= x@.len(),
            i <= y@.len(),
            text_less(a@, b@) == text_less(x@.skip(i as int), y@.skip(i as int)),
        decreases x@.len() - i,
    {
        let c = x[i];
        let d = y[i];
        assert(x@.skip(i as int)[0] == c);
        assert(y@.skip(i as int)[0] == d);
        if c != d {
            return char_before(c, d);
        }
        assert(x@.skip(i as int).skip(1) =~= x@.skip(i + 1));
        assert(y@.skip(i as int).skip(1) =~= y@.skip(i + 1));
        i += 1;
    }
    i < y.len()
}

} // verus!
