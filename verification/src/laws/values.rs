//! What the values of a document stand for.
use vstd::arithmetic::power2::*;
use vstd::prelude::*;

use crate::json::Tree;
use crate::strings::{
    decimal, digit, digit_char, digits, first_at, index_of, last_piece, lower, split, stands_at,
};
use crate::user::Readable;
use crate::value::{
    after_white, before_white, color_of, decoded, digits_end, digits_value, double_exponent,
    double_fraction, double_whole, doubled, float_len, float_lexeme, halved, json_bool, json_number,
    json_u32, json_whole, leading_space, sign_len, spaced, trimmed, vec_numbers, white,
    whole_number, without_space, Dynamic, Number, Scalar, Vec2, Vec3,
};

verus! {

/// A flag is itself, a number is on unless it is zero, and a text is on where
/// it is one of the four words for it; nothing else is a flag.
pub proof fn law_flags_stand_for(t: Tree, b: bool, i: i64, u: u64, s: Seq<char>)
    ensures
        json_bool(Tree::Bool(b)) == Some(b),
        json_bool(Tree::Int(i)) == Some(i != 0),
        json_bool(Tree::UInt(u)) == Some(u != 0),
        json_bool(Tree::Real(u)) == Some(u != 0 && u != 0x8000_0000_0000_0000),
        json_bool(Tree::Text(s)) == Some(s == "1"@ || s == "true"@ || s == "True"@ || s == "TRUE"@),
        t is Null || t is List || t is Table ==> json_bool(t) is None,
        bool::reading(t) == json_bool(t),
{
}

/// A number is itself, a flag is one or zero, a text is the number that it
/// begins with; nothing else is a number.
pub proof fn law_numbers_stand_for(t: Tree, i: i64, u: u64, s: Seq<char>)
    ensures
        json_number(Tree::Int(i)) == Some(Number::Int(i)),
        json_number(Tree::UInt(u)) == Some(Number::UInt(u)),
        json_number(Tree::Real(u)) == Some(Number::Real(u)),
        json_number(Tree::Bool(true)) == Some(Number::Single(0x3f80_0000)),
        json_number(Tree::Bool(false)) == Some(Number::Single(0)),
        json_number(Tree::Text(s)) == Some(Number::Wide(float_lexeme(s))),
        t is Null || t is List || t is Table ==> json_number(t) is None,
        Scalar::reading(t) == json_number(t),
{
}

proof fn lemma_digits(n: nat)
    ensures
        digits(n).len() > 0,
        forall|i: int| 0 <= i < digits(n).len() ==> digit_char(#[trigger] digits(n)[i]),
        digits_value(digits(n)) == n,
    decreases n,
{
    if n < 10 {
        assert(seq![digit(n)].drop_last() =~= Seq::<char>::empty());
        reveal_with_fuel(digits_value, 2);
        assert(digit(n) as u32 == 48 + n);
    } else {
        lemma_digits(n / 10);
        assert(digit(n % 10) as u32 == 48 + n % 10);
        assert(digits(n).drop_last() =~= digits(n / 10));
    }
}

proof fn lemma_all_digits_end(s: Seq<char>, from: int)
    requires
        0 <= from <= s.len(),
        forall|i: int| from <= i < s.len() ==> digit_char(#[trigger] s[i]),
    ensures
        digits_end(s, from) == s.len(),
    decreases s.len() - from,
{
    if from < s.len() {
        lemma_all_digits_end(s, from + 1);
    }
}

/// A whole number that is written out reads back as itself.
pub proof fn law_written_wholes_read_back(i: i64)
    ensures
        whole_number(decimal(i as int)) == i,
        json_whole(Tree::Text(decimal(i as int))) == Some(i),
{
    let n: nat = if i < 0 {
        (-i) as nat
    } else {
        i as nat
    };
    let s = decimal(i as int);
    lemma_digits(n);
    assert(s[0] == '-' || digit_char(s[0]));
    assert(leading_space(s, 0) == 0);
    assert(without_space(s) =~= s);
    let sign = sign_len(s, 0);
    if i < 0 {
        assert(sign == 1);
        assert forall|k: int| 1 <= k < s.len() implies digit_char(#[trigger] s[k]) by {
            assert(s[k] == digits(n)[k - 1]);
        }
        lemma_all_digits_end(s, 1);
        assert(s.subrange(1, s.len() as int) =~= digits(n));
    } else {
        assert(sign == 0);
        lemma_all_digits_end(s, 0);
        assert(s.subrange(0, s.len() as int) =~= digits(n));
    }
}

/// A whole number is itself as far as it fits, and a flag is one or zero.
pub proof fn law_wholes_stand_for(t: Tree, i: i64, u: u64)
    ensures
        json_whole(Tree::Int(i)) == Some(i),
        u <= i64::MAX ==> json_whole(Tree::UInt(u)) == Some(u as i64),
        u > i64::MAX ==> json_whole(Tree::UInt(u)) == Some(i64::MAX),
        json_whole(Tree::Bool(true)) == Some(1i64),
        json_whole(Tree::Bool(false)) == Some(0i64),
        t is Null || t is List || t is Table ==> json_whole(t) is None,
        i < 0 ==> json_u32(Tree::Int(i)) == Some(0u32),
        0 <= i <= u32::MAX ==> json_u32(Tree::Int(i)) == Some(i as u32),
        i > u32::MAX ==> json_u32(Tree::Int(i)) == Some(u32::MAX),
        i64::reading(t) == json_whole(t),
{
}

proof fn lemma_halved(m: nat, k: nat)
    ensures
        halved(m, k) * pow2(k) <= m,
        m < (halved(m, k) + 1) * pow2(k),
    decreases k,
{
    lemma_pow2_pos(k);
    if k == 0 {
        lemma2_to64();
        assert(pow2(0) == 1);
    } else {
        lemma_halved(m / 2, (k - 1) as nat);
        lemma_pow2_unfold(k);
        let h = halved(m, k);
        let p = pow2((k - 1) as nat);
        assert(h * (2 * p) == 2 * (h * p)) by (nonlinear_arith);
        assert((h + 1) * (2 * p) == 2 * ((h + 1) * p)) by (nonlinear_arith);
    }
}

proof fn lemma_doubled(m: nat, k: nat)
    ensures
        doubled(m, k) == m * pow2(k),
    decreases k,
{
    if k == 0 {
        lemma2_to64();
        assert(m * pow2(0) == m) by (nonlinear_arith)
            requires
                pow2(0) == 1,
        ;
    } else {
        lemma_doubled(m, (k - 1) as nat);
        lemma_pow2_unfold(k);
        let p = pow2((k - 1) as nat);
        assert(m * (2 * p) == 2 * (m * p)) by (nonlinear_arith);
    }
}

/// A double as a whole number is rounded towards zero: below one it is zero,
/// and up to 2 to the power of 63 it is the greatest whole number whose size
/// does not pass the double's. The sign stays.
pub proof fn law_doubles_are_rounded_towards_zero(bits: u64)
    requires
        bits < 0x8000_0000_0000_0000,
        (bits / 0x10_0000_0000_0000) < 2047,
    ensures
        ({
            let e = (bits / 0x10_0000_0000_0000) as int;
            let m = (0x10_0000_0000_0000 + bits % 0x10_0000_0000_0000) as nat;
            let w = double_whole(bits);
            &&& e < 1023 ==> w == 0
            &&& 1023 <= e < 1075 ==> 0 <= w && w * pow2((1075 - e) as nat) <= m && m < (w + 1) * pow2(
                (1075 - e) as nat,
            )
            &&& e >= 1075 ==> w == (if m * pow2((e - 1075) as nat) > i64::MAX {
                i64::MAX as int
            } else {
                (m * pow2((e - 1075) as nat)) as int
            })
        }),
        double_whole((bits + 0x8000_0000_0000_0000) as u64) == -double_whole(bits) || (double_whole(bits)
            == i64::MAX && double_whole((bits + 0x8000_0000_0000_0000) as u64) == i64::MIN),
{
    let e = (bits / 0x10_0000_0000_0000) as int;
    let m = (0x10_0000_0000_0000 + bits % 0x10_0000_0000_0000) as nat;
    let other = (bits + 0x8000_0000_0000_0000) as u64;
    assert(double_exponent(bits) == e);
    assert(double_exponent(other) == e);
    assert(double_fraction(other) == double_fraction(bits));
    if 1023 <= e < 1075 {
        let k = (1075 - e) as nat;
        lemma_halved(m, k);
        lemma_pow2_pos(k);
        let h = halved(m, k);
        assert(h <= m) by (nonlinear_arith)
            requires
                h * pow2(k) <= m,
                pow2(k) >= 1,
        ;
    } else if e >= 1075 {
        lemma_doubled(m, (e - 1075) as nat);
    }
}

/// The pieces put together, with the separator between them.
pub open spec fn joined(pieces: Seq<Seq<char>>, sep: char) -> Seq<char>
    decreases pieces.len(),
{
    if pieces.len() == 0 {
        Seq::empty()
    } else if pieces.len() == 1 {
        pieces[0]
    } else {
        pieces[0] + seq![sep] + joined(pieces.skip(1), sep)
    }
}

proof fn lemma_index_of(s: Seq<char>, c: char, from: int)
    requires
        0 <= from <= s.len(),
    ensures
        match index_of(s, c, from) {
            Some(i) => from <= i < s.len() && s[i] == c && forall|j: int| from <= j < i ==> s[j] != c,
            None => forall|j: int| from <= j < s.len() ==> s[j] != c,
        },
    decreases s.len() - from,
{
    if from < s.len() && s[from] != c {
        lemma_index_of(s, c, from + 1);
    }
}

/// A text is its pieces with the separator between them, and no piece holds
/// the separator.
pub proof fn law_texts_are_their_pieces(s: Seq<char>, sep: char)
    ensures
        split(s, sep).len() > 0,
        joined(split(s, sep), sep) == s,
        forall|i: int|
            0 <= i < split(s, sep).len() ==> !(#[trigger] split(s, sep)[i]).contains(sep),
    decreases s.len(),
{
    lemma_index_of(s, sep, 0);
    let pieces = split(s, sep);
    match index_of(s, sep, 0) {
        Some(i) => {
            let rest = s.skip(i + 1);
            law_texts_are_their_pieces(rest, sep);
            assert(pieces.skip(1) =~= split(rest, sep));
            assert(pieces[0] == s.take(i));
            assert(joined(pieces, sep) =~= s);
            assert forall|k: int| 0 <= k < pieces.len() implies !(#[trigger] pieces[k]).contains(sep) by {
                if k > 0 {
                    assert(pieces[k] == split(rest, sep)[k - 1]);
                }
            }
        },
        None => {
            assert(pieces =~= seq![s]);
        },
    }
}

/// The last piece of a text is what stands behind its last separator, or all
/// of it where there is none.
pub proof fn law_last_pieces(s: Seq<char>, sep: char)
    ensures
        !last_piece(s, sep).contains(sep),
        last_piece(s, sep).len() <= s.len(),
        s.skip(s.len() - last_piece(s, sep).len()) == last_piece(s, sep),
        last_piece(s, sep).len() < s.len() ==> s[s.len() - last_piece(s, sep).len() - 1] == sep,
    decreases s.len(),
{
    if s.len() > 0 && s.last() != sep {
        let before = s.drop_last();
        law_last_pieces(before, sep);
        let p = last_piece(s, sep);
        assert(s.skip(s.len() - p.len()) =~= p) by {
            let q = last_piece(before, sep);
            assert forall|i: int| 0 <= i < q.len() implies s[s.len() - p.len() + i] == q[i] by {
                assert(before.skip(before.len() - q.len())[i] == q[i]);
            }
        }
        assert(!p.contains(sep)) by {
            if p.contains(sep) {
                let i = p.index_of(sep);
                assert(i < p.len() - 1);
                assert(last_piece(before, sep)[i] == sep);
            }
        }
    } else {
        assert(s.skip(s.len() as int) =~= Seq::<char>::empty());
    }
}

/// A word is found where it first stands in a text.
pub proof fn law_words_are_found_where_they_first_stand(s: Seq<char>, p: Seq<char>, from: int)
    requires
        0 <= from <= s.len(),
    ensures
        match first_at(s, p, from) {
            Some(i) => from <= i && i + p.len() <= s.len() && s.subrange(i, i + p.len()) == p && forall|
                j: int,
            |
                from <= j < i ==> !#[trigger] stands_at(s, p, j),
            None => forall|j: int| from <= j ==> !#[trigger] stands_at(s, p, j),
        },
    decreases s.len() - from + 1,
{
    if from + p.len() <= s.len() && !stands_at(s, p, from) {
        if from < s.len() {
            law_words_are_found_where_they_first_stand(s, p, from + 1);
        } else {
            assert(s.subrange(from, from + p.len()) =~= p);
        }
    }
}

proof fn lemma_after_white(s: Seq<char>, from: int)
    requires
        0 <= from <= s.len(),
    ensures
        from <= after_white(s, from) <= s.len(),
        forall|i: int| from <= i < after_white(s, from) ==> white(#[trigger] s[i]),
        after_white(s, from) < s.len() ==> !white(s[after_white(s, from)]),
    decreases s.len() - from,
{
    if from < s.len() && white(s[from]) {
        lemma_after_white(s, from + 1);
    }
}

proof fn lemma_before_white(s: Seq<char>, to: int)
    requires
        0 <= to <= s.len(),
    ensures
        0 <= before_white(s, to) <= to,
        forall|i: int| before_white(s, to) <= i < to ==> white(#[trigger] s[i]),
        before_white(s, to) > 0 ==> !white(s[before_white(s, to) - 1]),
    decreases to,
{
    if to > 0 && white(s[to - 1]) {
        lemma_before_white(s, to - 1);
    }
}

/// A trimmed text begins and ends with something to see, and what was cut off
/// at its ends was white space; a text of white space alone becomes empty.
pub proof fn law_trimming_cuts_white_space(s: Seq<char>)
    ensures
        trimmed(s).len() > 0 ==> !white(trimmed(s)[0]) && !white(trimmed(s).last()),
        trimmed(s).len() == 0 ==> forall|i: int| 0 <= i < s.len() ==> white(#[trigger] s[i]),
        exists|a: int, b: int|
            0 <= a <= b <= s.len() && #[trigger] s.subrange(a, b) == trimmed(s) && (forall|i: int|
                0 <= i < a || b <= i < s.len() ==> white(#[trigger] s[i])),
        white(' ') && white('\t') && white('\n') && !white('a') && !white('0'),
{
    lemma_after_white(s, 0);
    lemma_before_white(s, s.len() as int);
    let from = after_white(s, 0);
    let to = before_white(s, s.len() as int);
    if from < to {
        assert(s.subrange(from, to) == trimmed(s));
    } else {
        assert(s.subrange(0, 0) =~= trimmed(s));
        assert forall|i: int| 0 <= i < s.len() implies white(#[trigger] s[i]) by {
            if from < s.len() && from <= i {
                if to > 0 {
                    assert(i >= to);
                }
            }
        }
        assert forall|i: int| 0 <= i < 0 || 0 <= i < s.len() implies white(#[trigger] s[i]) by {
        }
    }
}

/// A text is a vector of as many numbers as it has words, read in order; a
/// vector of two or three needs that many.
pub proof fn law_vectors_are_read_word_by_word(s: Seq<char>, i: int)
    ensures
        split(s, ' ').len() <= 4 ==> vec_numbers(s).len() == split(s, ' ').len(),
        split(s, ' ').len() > 4 ==> vec_numbers(s).len() == 4,
        0 <= i < vec_numbers(s).len() ==> vec_numbers(s)[i] == Number::Lexeme(
            float_lexeme(split(s, ' ')[i]),
        ),
        Vec3::reading(Tree::Text(s)) is Some <==> split(s, ' ').len() == 3,
        Vec2::reading(Tree::Text(s)) is Some <==> split(s, ' ').len() == 2,
        Vec3::reading(Tree::Text(s)) matches Some(v) ==> v.0 == vec_numbers(s)[0] && v.1 == vec_numbers(
            s,
        )[1] && v.2 == vec_numbers(s)[2],
        Vec2::reading(Tree::Text(s)) matches Some(v) ==> v.0 == vec_numbers(s)[0] && v.1 == vec_numbers(
            s,
        )[1],
{
}

/// A colour in numbers is red, green and blue, with an alpha behind or the one
/// that is asked for; the numbers are out of 255, unless one of them is
/// written with a point.
pub proof fn law_colors_are_read_word_by_word(s: Seq<char>, alpha: Number, force_float: bool)
    requires
        !(s.len() > 0 && s[0] == '#'),
        !s.contains(','),
    ensures
        color_of(s, alpha, force_float) is Ok <==> split(s, ' ').len() == 3 || split(s, ' ').len() == 4,
        color_of(s, alpha, force_float) matches Ok(c) ==> {
            let parts = split(s, ' ');
            &&& parts.len() == 3 ==> c.3 == alpha
            &&& !force_float && !s.contains('.') ==> c.0 == Number::Channel(whole_number(parts[0]) as i64)
                && c.1 == Number::Channel(whole_number(parts[1]) as i64) && c.2 == Number::Channel(
                whole_number(parts[2]) as i64,
            ) && (parts.len() == 4 ==> c.3 == Number::Channel(whole_number(parts[3]) as i64))
            &&& force_float || s.contains('.') ==> c.0 == Number::Lexeme(float_lexeme(parts[0])) && c.1
                == Number::Lexeme(float_lexeme(parts[1])) && c.2 == Number::Lexeme(float_lexeme(parts[2]))
                && (parts.len() == 4 ==> c.3 == Number::Lexeme(float_lexeme(parts[3])))
        },
{
    assert(spaced(s) =~= s) by {
        assert forall|i: int| 0 <= i < s.len() implies spaced(s)[i] == s[i] by {
            assert(s.contains(s[i]));
        }
    }
}

/// Commas between the numbers of a colour are as good as spaces.
pub proof fn law_commas_are_spaces(s: Seq<char>, t: Seq<char>, alpha: Number, force_float: bool)
    requires
        s.len() == t.len(),
        forall|i: int| 0 <= i < s.len() ==> #[trigger] t[i] == (if s[i] == ',' {
            ' '
        } else {
            s[i]
        }),
    ensures
        color_of(s, alpha, force_float) == color_of(t, alpha, force_float),
{
    assert(spaced(s) =~= t);
    assert(spaced(t) =~= t);
}

/// What a value is where anything may stand: itself; a text with spaces is a
/// vector, and a text that is a number is one.
pub proof fn law_values_are_decoded(t: Tree, b: bool, i: i64, u: u64, s: Seq<char>)
    ensures
        decoded(Tree::Null, b) == Dynamic::Null,
        decoded(Tree::Bool(b), b) == Dynamic::Bool(b),
        decoded(Tree::Int(i), b) == Dynamic::Int(i),
        decoded(Tree::Real(u), b) == Dynamic::Float(Number::Real(u)),
        split(s, ' ').len() > 1 ==> decoded(Tree::Text(s), false) == Dynamic::Vec(vec_numbers(s)),
        split(s, ' ').len() == 1 && s.len() > 0 && float_len(s) == s.len() && without_space(s) == s
            ==> decoded(Tree::Text(s), false) == Dynamic::Float(Number::Lexeme(s)),
        split(s, ' ').len() == 1 && float_len(without_space(s)) == 0 ==> decoded(Tree::Text(s), false)
            == Dynamic::Str(s),
{
    if s.len() > 0 && float_len(s) == s.len() && without_space(s) == s {
        assert(s.take(s.len() as int) =~= s);
    }
}

/// Letters become small, and everything else stays as it is.
pub proof fn law_lower_case(s: Seq<char>, i: int)
    requires
        0 <= i < s.len(),
    ensures
        lower(s).len() == s.len(),
        65 <= s[i] as u32 <= 90 ==> lower(s)[i] as u32 == s[i] as u32 + 32,
        s[i] as u32 > 90 || (s[i] as u32) < 65 ==> lower(s)[i] == s[i],
{
}

proof fn lemma_digits_end_at(s: Seq<char>, from: int, to: int)
    requires
        0 <= from <= to <= s.len(),
        forall|i: int| from <= i < to ==> digit_char(#[trigger] s[i]),
        to == s.len() || !digit_char(s[to]),
    ensures
        digits_end(s, from) == to,
    decreases to - from,
{
    if from < to {
        lemma_digits_end_at(s, from + 1, to);
    }
}

/// A number of plain digits is read to its last digit, with the fraction that
/// a point begins; what follows is left out.
pub proof fn law_numbers_are_read_to_their_end(s: Seq<char>, d: int, f: int)
    requires
        0 < d <= s.len(),
        forall|i: int| 0 <= i < d ==> digit_char(#[trigger] s[i]),
        d == s.len() || s[d] == '.' || s[d] == ' ',
        d < s.len() && s[d] == '.' ==> d < f <= s.len() && (forall|i: int|
            d < i < f ==> digit_char(#[trigger] s[i])) && (f == s.len() || s[f] == ' '),
        !(d < s.len() && s[d] == '.') ==> f == d,
    ensures
        float_lexeme(s) == s.take(f),
{
    assert(digit_char(s[0]));
    assert(leading_space(s, 0) == 0);
    assert(without_space(s) =~= s);
    lemma_digits_end_at(s, 0, d);
    if d < s.len() && s[d] == '.' {
        lemma_digits_end_at(s, d + 1, f);
    }
    assert(!crate::value::word_at(s, 0, "infinity"@)) by {
        reveal_strlit("infinity");
        lemma_no_word(s, "infinity"@, 'i');
    }
    assert(!crate::value::word_at(s, 0, "inf"@)) by {
        reveal_strlit("inf");
        lemma_no_word(s, "inf"@, 'i');
    }
    assert(!crate::value::word_at(s, 0, "nan"@)) by {
        reveal_strlit("nan");
        lemma_no_word(s, "nan"@, 'n');
    }
}

proof fn lemma_no_word(s: Seq<char>, word: Seq<char>, c: char)
    requires
        s.len() > 0,
        digit_char(s[0]),
        word.len() > 0,
        word[0] == c,
        c == 'i' || c == 'n',
    ensures
        !crate::value::word_at(s, 0, word),
{
    if word.len() <= s.len() {
        assert(lower(s.subrange(0, word.len() as int))[0] == s[0]);
        assert(lower(word)[0] == c);
    }
}

/// The words for what is not finite are read whole, in whatever case.
pub proof fn law_words_for_numbers_are_read(s: Seq<char>)
    requires
        s.len() > 0,
        s[0] != '+' && s[0] != '-',
    ensures
        lower(s) == "infinity"@ ==> float_len(s) == 8,
        lower(s) == "inf"@ ==> float_len(s) == 3,
        lower(s) == "nan"@ ==> float_len(s) == 3,
{
    reveal_strlit("infinity");
    reveal_strlit("inf");
    reveal_strlit("nan");
    assert("infinity"@.len() == 8 && "inf"@.len() == 3 && "nan"@.len() == 3);
    assert(lower("infinity"@) =~= "infinity"@);
    assert(lower("inf"@) =~= "inf"@);
    assert(lower("nan"@) =~= "nan"@);
    assert(s.subrange(0, s.len() as int) =~= s);
    assert("inf"@[0] == 'i' && "nan"@[0] == 'n');
}

/// A number of plain digits may have an exponent, which is read to its last
/// digit.
pub proof fn law_exponents_are_read_to_their_end(s: Seq<char>, d: int, x: int)
    requires
        0 < d,
        d + 1 < x <= s.len(),
        forall|i: int| 0 <= i < d ==> digit_char(#[trigger] s[i]),
        s[d] == 'e' || s[d] == 'E',
        forall|i: int| d < i < x ==> digit_char(#[trigger] s[i]),
        x == s.len() || s[x] == ' ',
    ensures
        float_lexeme(s) == s.take(x),
{
    assert(digit_char(s[0]));
    assert(leading_space(s, 0) == 0);
    assert(without_space(s) =~= s);
    lemma_digits_end_at(s, 0, d);
    assert(digit_char(s[d + 1]));
    lemma_digits_end_at(s, d + 1, x);
    assert(!crate::value::word_at(s, 0, "infinity"@)) by {
        reveal_strlit("infinity");
        lemma_no_word(s, "infinity"@, 'i');
    }
    assert(!crate::value::word_at(s, 0, "inf"@)) by {
        reveal_strlit("inf");
        lemma_no_word(s, "inf"@, 'i');
    }
    assert(!crate::value::word_at(s, 0, "nan"@)) by {
        reveal_strlit("nan");
        lemma_no_word(s, "nan"@, 'n');
    }
}

/// A text that begins with no number reads as none.
pub proof fn law_texts_without_a_number(s: Seq<char>)
    requires
        s.len() > 0,
        65 <= s[0] as u32 <= 90 || 97 <= s[0] as u32 <= 122,
        s[0] != 'i' && s[0] != 'I' && s[0] != 'n' && s[0] != 'N',
    ensures
        float_lexeme(s).len() == 0,
        whole_number(s) == 0,
{
    assert(leading_space(s, 0) == 0);
    assert(without_space(s) =~= s);
    reveal_strlit("infinity");
    reveal_strlit("inf");
    reveal_strlit("nan");
    assert("infinity"@.len() == 8 && "inf"@.len() == 3 && "nan"@.len() == 3);
    assert("infinity"@[0] == 'i' && "inf"@[0] == 'i' && "nan"@[0] == 'n');
    if s.len() >= 3 {
        assert(lower(s.subrange(0, 3))[0] != 'i' && lower(s.subrange(0, 3))[0] != 'n');
        assert(lower("inf"@)[0] == 'i' && lower("nan"@)[0] == 'n');
    }
    if s.len() >= 8 {
        assert(lower(s.subrange(0, 8))[0] != 'i');
        assert(lower("infinity"@)[0] == 'i');
    }
}

} // verus!
