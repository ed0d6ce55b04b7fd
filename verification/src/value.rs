//! The values that scene documents are made of.
use vstd::prelude::*;

use crate::copy::Duplicate;
use crate::json::{json_text, printed, Json, Tree};
use crate::strings::{
    chars_of, decimal, decimal_of, digit_char, fold_char, is_digit, lower, same_text, split,
    split_text, text_of, views,
};

verus! {

/// A number as the document or a script gives it. It is read as a single
/// where it is used:
/// - `Single` holds the bits of a single,
/// - `Int`, `UInt` and `Real` a JSON number (`Real` the bits of a double),
///   rounded to the nearest single,
/// - `Lexeme` a decimal literal, read as a single (the empty one is zero),
/// - `Wide` a decimal literal, read as a double and rounded (the empty one is
///   zero, and so is one that overflows),
/// - `Channel` a colour channel, divided by 255,
/// - `Degrees` a number of radians, turned into degrees,
/// - `Radians` a number of degrees, turned into radians.
#[derive(Debug)]
pub enum Scalar {
    Single(u32),
    Int(i64),
    UInt(u64),
    Real(u64),
    Lexeme(String),
    Wide(String),
    Channel(i64),
    Degrees(Box<Scalar>),
    Radians(Box<Scalar>),
}

/// What a [`Scalar`] holds.
pub enum Number {
    Single(u32),
    Int(i64),
    UInt(u64),
    Real(u64),
    Lexeme(Seq<char>),
    Wide(Seq<char>),
    Channel(i64),
    Degrees(Box<Number>),
    Radians(Box<Number>),
}

impl Scalar {
    pub open spec fn number(&self) -> Number
        decreases self,
    {
        match self {
            Scalar::Single(b) => Number::Single(*b),
            Scalar::Int(i) => Number::Int(*i),
            Scalar::UInt(u) => Number::UInt(*u),
            Scalar::Real(b) => Number::Real(*b),
            Scalar::Lexeme(s) => Number::Lexeme(s@),
            Scalar::Wide(s) => Number::Wide(s@),
            Scalar::Channel(i) => Number::Channel(*i),
            Scalar::Degrees(s) => Number::Degrees(Box::new((*s).number())),
            Scalar::Radians(s) => Number::Radians(Box::new((*s).number())),
        }
    }

    /// A copy of the number.
    pub fn copy(&self) -> (r: Scalar)
        ensures
            r@ == self@,
        decreases self,
    {
        match self {
            Scalar::Single(b) => Scalar::Single(*b),
            Scalar::Int(i) => Scalar::Int(*i),
            Scalar::UInt(u) => Scalar::UInt(*u),
            Scalar::Real(b) => Scalar::Real(*b),
            Scalar::Lexeme(s) => Scalar::Lexeme(s.clone()),
            Scalar::Wide(s) => Scalar::Wide(s.clone()),
            Scalar::Channel(i) => Scalar::Channel(*i),
            Scalar::Degrees(s) => Scalar::Degrees(Box::new((**s).copy())),
            Scalar::Radians(s) => Scalar::Radians(Box::new((**s).copy())),
        }
    }
}

impl View for Scalar {
    type V = Number;

    open spec fn view(&self) -> Number {
        self.number()
    }
}

impl Duplicate for Scalar {
    fn duplicate(&self) -> (r: Self) {
        self.copy()
    }
}

/// A text that is no vector of the length asked for.
#[derive(Clone, Copy, Debug, PartialEq, Eq, Structural)]
pub enum VecError {
    ComponentCount { expected: usize, found: usize },
}

/// A text that is no colour.
#[derive(Debug, PartialEq, Eq)]
pub enum ColorError {
    HexLength { len: usize },
    HexDigits { digits: String },
    ComponentCount { count: usize },
}

/// The bits of the single 0.
pub const ZERO_BITS: u32 = 0;

/// The bits of the single 1.
pub const ONE_BITS: u32 = 0x3f80_0000;

/// The vector with the same single in each place.
pub open spec fn same3(bits: u32) -> (Number, Number, Number) {
    (Number::Single(bits), Number::Single(bits), Number::Single(bits))
}

/// An opaque grey of the given single.
pub open spec fn grey(bits: u32) -> (Number, Number, Number, Number) {
    (Number::Single(bits), Number::Single(bits), Number::Single(bits), Number::Single(ONE_BITS))
}

impl Vec3 {
    pub fn same(bits: u32) -> (r: Vec3)
        ensures
            r@ == same3(bits),
    {
        Vec3 { x: Scalar::Single(bits), y: Scalar::Single(bits), z: Scalar::Single(bits) }
    }
}

impl Vec2 {
    pub fn same(bits: u32) -> (r: Vec2)
        ensures
            r@ == (Number::Single(bits), Number::Single(bits)),
    {
        Vec2 { x: Scalar::Single(bits), y: Scalar::Single(bits) }
    }
}

impl Color {
    pub fn grey(bits: u32) -> (r: Color)
        ensures
            r@ == grey(bits),
    {
        Color {
            r: Scalar::Single(bits),
            g: Scalar::Single(bits),
            b: Scalar::Single(bits),
            a: Scalar::Single(ONE_BITS),
        }
    }
}

#[derive(Debug)]
pub struct Vec2 {
    pub x: Scalar,
    pub y: Scalar,
}

#[derive(Debug)]
pub struct Vec3 {
    pub x: Scalar,
    pub y: Scalar,
    pub z: Scalar,
}

#[derive(Debug)]
pub struct Color {
    pub r: Scalar,
    pub g: Scalar,
    pub b: Scalar,
    pub a: Scalar,
}

impl View for Vec2 {
    type V = (Number, Number);

    open spec fn view(&self) -> (Number, Number) {
        (self.x@, self.y@)
    }
}

impl View for Vec3 {
    type V = (Number, Number, Number);

    open spec fn view(&self) -> (Number, Number, Number) {
        (self.x@, self.y@, self.z@)
    }
}

impl View for Color {
    type V = (Number, Number, Number, Number);

    open spec fn view(&self) -> (Number, Number, Number, Number) {
        (self.r@, self.g@, self.b@, self.a@)
    }
}

impl Duplicate for Vec2 {
    fn duplicate(&self) -> (r: Self) {
        Vec2 { x: self.x.duplicate(), y: self.y.duplicate() }
    }
}

impl Duplicate for Vec3 {
    fn duplicate(&self) -> (r: Self) {
        Vec3 { x: self.x.duplicate(), y: self.y.duplicate(), z: self.z.duplicate() }
    }
}

impl Duplicate for Color {
    fn duplicate(&self) -> (r: Self) {
        Color {
            r: self.r.duplicate(),
            g: self.g.duplicate(),
            b: self.b.duplicate(),
            a: self.a.duplicate(),
        }
    }
}

/// A value whose type the document decides. A list or a table is kept as the
/// text of its JSON form.
#[derive(Debug)]
pub enum DynamicValue {
    Bool(bool),
    Int(i64),
    Float(Scalar),
    Str(String),
    Vec(Vec<Scalar>),
    Color(Color),
    Null,
}

/// What a [`DynamicValue`] holds.
pub enum Dynamic {
    Bool(bool),
    Int(i64),
    Float(Number),
    Str(Seq<char>),
    Vec(Seq<Number>),
    Color((Number, Number, Number, Number)),
    Null,
}

impl View for DynamicValue {
    type V = Dynamic;

    open spec fn view(&self) -> Dynamic {
        match self {
            DynamicValue::Bool(b) => Dynamic::Bool(*b),
            DynamicValue::Int(i) => Dynamic::Int(*i),
            DynamicValue::Float(s) => Dynamic::Float(s@),
            DynamicValue::Str(s) => Dynamic::Str(s@),
            DynamicValue::Vec(v) => Dynamic::Vec(views(v@)),
            DynamicValue::Color(c) => Dynamic::Color(c@),
            DynamicValue::Null => Dynamic::Null,
        }
    }
}

impl Duplicate for DynamicValue {
    fn duplicate(&self) -> (r: Self) {
        match self {
            DynamicValue::Bool(b) => DynamicValue::Bool(*b),
            DynamicValue::Int(i) => DynamicValue::Int(*i),
            DynamicValue::Float(s) => DynamicValue::Float(s.duplicate()),
            DynamicValue::Str(s) => DynamicValue::Str(s.clone()),
            DynamicValue::Vec(v) => DynamicValue::Vec(crate::copy::copy_vec(v)),
            DynamicValue::Color(c) => DynamicValue::Color(c.duplicate()),
            DynamicValue::Null => DynamicValue::Null,
        }
    }
}

/// The white space that C skips before a number.
pub open spec fn c_space(c: char) -> bool {
    c == ' ' || c == '\t' || c == '\n' || c == '\u{b}' || c == '\u{c}' || c == '\r'
}

/// The number of characters of white space that `s` begins with.
pub open spec fn leading_space(s: Seq<char>, from: int) -> int
    decreases s.len() - from,
{
    if from < 0 || from >= s.len() || !c_space(s[from]) {
        from
    } else {
        leading_space(s, from + 1)
    }
}

/// `s` without the white space that it begins with.
pub open spec fn without_space(s: Seq<char>) -> Seq<char> {
    s.skip(leading_space(s, 0))
}

fn skip_c_whitespace(s: &str) -> (r: Vec<char>)
    ensures
        r@ == without_space(s@),
{
    let chars = chars_of(s);
    let mut i: usize = 0;
    while i < chars.len() && (chars[i] == ' ' || chars[i] == '\t' || chars[i] == '\n' || chars[i]
        == '\u{b}' || chars[i] == '\u{c}' || chars[i] == '\r')
        invariant
            i <= chars@.len(),
            chars@ == s@,
            leading_space(s@, 0) == leading_space(s@, i as int),
        decreases chars@.len() - i,
    {
        i += 1;
    }
    let mut out: Vec<char> = Vec::new();
    let mut j: usize = i;
    while j < chars.len()
        invariant
            i <= j <= chars@.len(),
            out@ == chars@.subrange(i as int, j as int),
        decreases chars@.len() - j,
    {
        out.push(chars[j]);
        assert(chars@.subrange(i as int, j + 1) =~= chars@.subrange(i as int, j as int).push(
            chars@[j as int],
        ));
        j += 1;
    }
    assert(out@ =~= s@.skip(i as int));
    out
}

/// Where the run of digits that begins at `from` ends.
pub open spec fn digits_end(s: Seq<char>, from: int) -> int
    decreases s.len() - from,
{
    if from < 0 || from >= s.len() || !digit_char(s[from]) {
        from
    } else {
        digits_end(s, from + 1)
    }
}

fn run_of_digits(s: &[char], from: usize) -> (r: usize)
    requires
        from <= s@.len(),
    ensures
        r == digits_end(s@, from as int),
        from <= r <= s@.len(),
{
    let mut i: usize = from;
    while i < s.len() && is_digit(s[i])
        invariant
            from <= i <= s@.len(),
            digits_end(s@, from as int) == digits_end(s@, i as int),
        decreases s@.len() - i,
    {
        i += 1;
    }
    i
}

/// The length of a sign at `at`.
pub open spec fn sign_len(s: Seq<char>, at: int) -> int {
    if 0 <= at < s.len() && (s[at] == '+' || s[at] == '-') {
        1
    } else {
        0
    }
}

fn sign_at(s: &[char], at: usize) -> (r: usize)
    ensures
        r == sign_len(s@, at as int),
{
    if at < s.len() && (s[at] == '+' || s[at] == '-') {
        1
    } else {
        0
    }
}

/// Whether a word stands at `at`, but for case.
pub open spec fn word_at(s: Seq<char>, at: int, word: Seq<char>) -> bool {
    at + word.len() <= s.len() && lower(s.subrange(at, at + word.len())) == lower(word)
}

fn has_word(s: &Vec<char>, at: usize, word: &str) -> (r: bool)
    requires
        at <= s@.len(),
    ensures
        r == word_at(s@, at as int, word@),
{
    let w = chars_of(word);
    if w.len() > s.len() - at {
        return false;
    }
    let mut i: usize = 0;
    while i < w.len()
        invariant
            w@ == word@,
            at + w@.len() <= s@.len() <= usize::MAX,
            i <= w@.len(),
            forall|j: int|
                0 <= j < i ==> lower(s@.subrange(at as int, at + w@.len()))[j] == lower(w@)[j],
        decreases w@.len() - i,
    {
        if fold_char(s[at + i]) != fold_char(w[i]) {
            assert(lower(s@.subrange(at as int, at + w@.len()))[i as int] != lower(w@)[i as int]);
            return false;
        }
        i += 1;
    }
    assert(lower(s@.subrange(at as int, at + w@.len())) =~= lower(w@));
    true
}

/// Where the fraction of a decimal number ends whose digits before the point
/// run from `start` to `point`; `point` where it has none.
pub open spec fn fraction_end(s: Seq<char>, start: int, point: int) -> int {
    if 0 <= point < s.len() && s[point] == '.' {
        let f = digits_end(s, point + 1);
        if point > start || f > point + 1 {
            f
        } else {
            point
        }
    } else {
        point
    }
}

/// Where the exponent that begins at `at` ends; `at` where there is none.
pub open spec fn exponent_end(s: Seq<char>, at: int) -> int {
    if 0 <= at < s.len() && (s[at] == 'e' || s[at] == 'E') {
        let j = at + 1 + sign_len(s, at + 1);
        let x = digits_end(s, j);
        if x > j {
            x
        } else {
            at
        }
    } else {
        at
    }
}

/// The length of the number that `s` begins with, as C reads one: a sign,
/// then infinity, not-a-number, or digits with a point and an exponent.
pub open spec fn float_len(s: Seq<char>) -> int {
    let i = sign_len(s, 0);
    if word_at(s, i, "infinity"@) {
        i + 8
    } else if word_at(s, i, "inf"@) {
        i + 3
    } else if word_at(s, i, "nan"@) {
        i + 3
    } else {
        let d = digits_end(s, i);
        let f = fraction_end(s, i, d);
        if d == i && f == d {
            0
        } else {
            exponent_end(s, f)
        }
    }
}

fn float_prefix(s: &Vec<char>) -> (n: usize)
    ensures
        n == float_len(s@),
        n <= s@.len(),
{
    proof {
        reveal_strlit("infinity");
        reveal_strlit("inf");
        reveal_strlit("nan");
    }
    let i: usize = sign_at(s.as_slice(), 0);
    if has_word(s, i, "infinity") {
        return i + 8;
    }
    if has_word(s, i, "inf") || has_word(s, i, "nan") {
        return i + 3;
    }
    let len: usize = s.len();
    let d: usize = run_of_digits(s.as_slice(), i);
    let mut f: usize = d;
    if d < len && s[d] == '.' {
        let g: usize = run_of_digits(s.as_slice(), d + 1);
        if d > i || g > d + 1 {
            f = g;
        }
    }
    if d == i && f == d {
        return 0;
    }
    if f < len && (s[f] == 'e' || s[f] == 'E') {
        let j: usize = f + 1 + sign_at(s.as_slice(), f + 1);
        let x: usize = run_of_digits(s.as_slice(), j);
        if x > j {
            return x;
        }
    }
    f
}

/// The number that a text begins with, after white space.
pub open spec fn float_lexeme(s: Seq<char>) -> Seq<char> {
    let t = without_space(s);
    t.take(float_len(t))
}

/// The number that a text begins with, after white space; the empty text
/// where there is none.
pub fn strtof_lexeme(s: &str) -> (r: String)
    ensures
        r@ == float_lexeme(s@),
{
    let t = skip_c_whitespace(s);
    let n: usize = float_prefix(&t);
    assert(t@.take(n as int) =~= t@.subrange(0, n as int));
    text_of(t.as_slice(), 0, n)
}

/// A text read as a single, as C reads one.
pub fn strtof(s: &str) -> (r: Scalar)
    ensures
        r@ == Number::Lexeme(float_lexeme(s@)),
{
    Scalar::Lexeme(strtof_lexeme(s))
}

/// The value of a run of decimal digits.
pub open spec fn digits_value(s: Seq<char>) -> nat
    decreases s.len(),
{
    if s.len() == 0 {
        0
    } else {
        digits_value(s.drop_last()) * 10 + ((s.last() as u32) - 48) as nat
    }
}

/// The whole number that a text begins with, after white space: zero where
/// there is none or it does not fit 64 bits.
pub open spec fn whole_number(s: Seq<char>) -> int {
    let t = without_space(s);
    let sign = sign_len(t, 0);
    let end = digits_end(t, sign);
    let m = digits_value(t.subrange(sign, end)) as int;
    let v = if sign == 1 && t[0] == '-' {
        -m
    } else {
        m
    };
    if end > sign && i64::MIN <= v <= i64::MAX {
        v
    } else {
        0
    }
}

proof fn lemma_digits_end_holds_digits(s: Seq<char>, from: int)
    requires
        0 <= from <= s.len(),
    ensures
        from <= digits_end(s, from) <= s.len(),
        forall|i: int| from <= i < digits_end(s, from) ==> digit_char(#[trigger] s[i]),
    decreases s.len() - from,
{
    if from < s.len() && digit_char(s[from]) {
        lemma_digits_end_holds_digits(s, from + 1);
    }
}

proof fn lemma_digits_value_grows(s: Seq<char>, k: int)
    requires
        0 <= k <= s.len(),
        forall|i: int| 0 <= i < s.len() ==> digit_char(#[trigger] s[i]),
    ensures
        digits_value(s.take(k)) <= digits_value(s),
    decreases s.len() - k,
{
    if k < s.len() {
        lemma_digits_value_grows(s, k + 1);
        let t = s.take(k + 1);
        assert(t.drop_last() =~= s.take(k));
        assert(digit_char(t.last()));
    } else {
        assert(s.take(k) =~= s);
    }
}

fn strtoi(s: &str) -> (r: i64)
    ensures
        r == whole_number(s@),
{
    let t = skip_c_whitespace(s);
    let sign: usize = sign_at(t.as_slice(), 0);
    let end: usize = run_of_digits(t.as_slice(), sign);
    if end == sign {
        return 0;
    }
    let ghost run = t@.subrange(sign as int, end as int);
    proof {
        lemma_digits_end_holds_digits(t@, sign as int);
        assert forall|i: int| 0 <= i < run.len() implies digit_char(#[trigger] run[i]) by {
            assert(run[i] == t@[sign + i]);
        }
    }
    let mut m: u128 = 0;
    let mut i: usize = sign;
    assert(run.take(0) =~= Seq::empty());
    while i < end
        invariant
            sign <= i <= end <= t@.len(),
            t@ == without_space(s@),
            sign == sign_len(t@, 0),
            end == digits_end(t@, sign as int),
            end > sign,
            run == t@.subrange(sign as int, end as int),
            forall|k: int| 0 <= k < run.len() ==> digit_char(#[trigger] run[k]),
            m == digits_value(run.take(i - sign)),
            m <= 0x8000_0000_0000_0000,
        decreases end - i,
    {
        let c = t[i];
        assert(run[i - sign] == c);
        assert(digit_char(c));
        let d: u128 = (c as u32 - 48) as u128;
        proof {
            assert(run.take(i - sign + 1).drop_last() =~= run.take(i - sign));
            assert(run.take(i - sign + 1).last() == c);
            lemma_digits_value_grows(run, i - sign + 1);
        }
        m = m * 10 + d;
        i += 1;
        if m > 0x8000_0000_0000_0000 {
            return 0;
        }
    }
    assert(run.take(end - sign) =~= run);
    let negative = sign == 1 && t[0] == '-';
    if negative {
        if m == 0x8000_0000_0000_0000 {
            i64::MIN
        } else {
            -(m as i64)
        }
    } else if m < 0x8000_0000_0000_0000 {
        m as i64
    } else {
        0
    }
}

/// `m` halved `k` times, rounded down.
pub open spec fn halved(m: nat, k: nat) -> nat
    decreases k,
{
    if k == 0 {
        m
    } else {
        halved(m / 2, (k - 1) as nat)
    }
}

/// `m` doubled `k` times.
pub open spec fn doubled(m: nat, k: nat) -> nat
    decreases k,
{
    if k == 0 {
        m
    } else {
        2 * doubled(m, (k - 1) as nat)
    }
}

/// The exponent field of a double.
pub open spec fn double_exponent(bits: u64) -> int {
    (bits / 0x10_0000_0000_0000) as int % 2048
}

/// The fraction field of a double.
pub open spec fn double_fraction(bits: u64) -> int {
    bits as int % 0x10_0000_0000_0000
}

/// The magnitude of a finite double, rounded down to a whole number.
pub open spec fn double_magnitude(bits: u64) -> nat {
    let e = double_exponent(bits);
    let m = (0x10_0000_0000_0000 + double_fraction(bits)) as nat;
    if e < 1023 {
        0
    } else if e < 1075 {
        halved(m, (1075 - e) as nat)
    } else {
        doubled(m, (e - 1075) as nat)
    }
}

/// The nearest number that fits 64 bits with a sign.
pub open spec fn saturated(v: int) -> int {
    if v < i64::MIN {
        i64::MIN as int
    } else if v > i64::MAX {
        i64::MAX as int
    } else {
        v
    }
}

/// A double as a whole number, rounded towards zero; one too large becomes
/// the nearest that fits, and what is not a number becomes zero.
pub open spec fn double_whole(bits: u64) -> int {
    if double_exponent(bits) == 2047 && double_fraction(bits) != 0 {
        0
    } else if bits >= 0x8000_0000_0000_0000 {
        saturated(-(double_magnitude(bits) as int))
    } else {
        saturated(double_magnitude(bits) as int)
    }
}

proof fn lemma_doubled_is_large(m: nat, k: nat)
    requires
        m >= 0x10_0000_0000_0000,
        k >= 11,
    ensures
        doubled(m, k) >= 0x8000_0000_0000_0000,
    decreases k,
{
    if k > 11 {
        lemma_doubled_is_large(m, (k - 1) as nat);
    } else {
        reveal_with_fuel(doubled, 12);
    }
}

proof fn lemma_double_again(m: nat, k: nat)
    ensures
        doubled(2 * m, k) == 2 * doubled(m, k),
    decreases k,
{
    if k > 0 {
        lemma_double_again(m, (k - 1) as nat);
    }
}

fn truncate_double(bits: u64) -> (r: i64)
    ensures
        r == double_whole(bits),
{
    let e: u64 = (bits / 0x10_0000_0000_0000) % 2048;
    let f: u64 = bits % 0x10_0000_0000_0000;
    let negative = bits >= 0x8000_0000_0000_0000;
    if e == 2047 && f != 0 {
        return 0;
    }
    if e < 1023 {
        return 0;
    }
    let start: u64 = 0x10_0000_0000_0000 + f;
    if e >= 1086 {
        proof {
            lemma_doubled_is_large(start as nat, (e - 1075) as nat);
        }
        return if negative {
            i64::MIN
        } else {
            i64::MAX
        };
    }
    let mut m: u64 = start;
    if e < 1075 {
        let mut k: u64 = 1075 - e;
        while k > 0
            invariant
                k <= 52,
                halved(start as nat, (1075 - e) as nat) == halved(m as nat, k as nat),
                m <= start < 0x20_0000_0000_0000,
            decreases k,
        {
            m = m / 2;
            k -= 1;
        }
    } else {
        let mut k: u64 = e - 1075;
        let ghost whole = k;
        assert(k <= 10);
        let ghost mut done: nat = 0;
        while k > 0
            invariant
                k + done == whole,
                whole <= 10,
                doubled(start as nat, whole as nat) == doubled(m as nat, k as nat),
                m == doubled(start as nat, done),
                start < 0x20_0000_0000_0000,
                m < 0x20_0000_0000_0000 * doubled(1, done),
            decreases k,
        {
            proof {
                reveal_with_fuel(doubled, 12);
                assert(doubled(1, done) <= 512) by {
                    assert(done <= 9);
                }
                lemma_double_again(m as nat, (k - 1) as nat);
            }
            m = m * 2;
            proof {
                done = done + 1;
            }
            k -= 1;
        }
        proof {
            reveal_with_fuel(doubled, 12);
        }
    }
    assert(m == double_magnitude(bits));
    assert(m <= 0x7fff_ffff_ffff_ffff);
    if negative {
        -(m as i64)
    } else {
        m as i64
    }
}

/// The texts that read as true.
pub open spec fn says_true(s: Seq<char>) -> bool {
    s == "1"@ || s == "true"@ || s == "True"@ || s == "TRUE"@
}

pub fn is_true_text(s: &str) -> (r: bool)
    ensures
        r == says_true(s@),
{
    same_text(s, "1") || same_text(s, "true") || same_text(s, "True") || same_text(s, "TRUE")
}

/// A JSON value as a flag, if it can be one.
pub open spec fn json_bool(t: Tree) -> Option<bool> {
    match t {
        Tree::Bool(b) => Some(b),
        Tree::Int(i) => Some(i != 0),
        Tree::UInt(u) => Some(u != 0),
        Tree::Real(bits) => Some(bits % 0x8000_0000_0000_0000 != 0),
        Tree::Text(s) => Some(says_true(s)),
        _ => None,
    }
}

pub fn coerce_bool(v: &Json) -> (r: Option<bool>)
    ensures
        r == json_bool(v@),
{
    match v {
        Json::Bool(b) => Some(*b),
        Json::Int(i) => Some(*i != 0),
        Json::UInt(u) => Some(*u != 0),
        Json::Real(bits) => Some(*bits % 0x8000_0000_0000_0000 != 0),
        Json::Text(s) => Some(is_true_text(s.as_str())),
        _ => None,
    }
}

/// A JSON value as a number, if it can be one.
pub open spec fn json_number(t: Tree) -> Option<Number> {
    match t {
        Tree::Int(i) => Some(Number::Int(i)),
        Tree::UInt(u) => Some(Number::UInt(u)),
        Tree::Real(bits) => Some(Number::Real(bits)),
        Tree::Bool(b) => Some(
            Number::Single(
                if b {
                    ONE_BITS
                } else {
                    ZERO_BITS
                },
            ),
        ),
        Tree::Text(s) => Some(Number::Wide(float_lexeme(s))),
        _ => None,
    }
}

pub fn coerce_f64(v: &Json) -> (r: Option<Scalar>)
    ensures
        match r {
            Some(s) => json_number(v@) == Some(s@),
            None => json_number(v@) is None,
        },
{
    match v {
        Json::Int(i) => Some(Scalar::Int(*i)),
        Json::UInt(u) => Some(Scalar::UInt(*u)),
        Json::Real(bits) => Some(Scalar::Real(*bits)),
        Json::Bool(b) => Some(
            Scalar::Single(
                if *b {
                    ONE_BITS
                } else {
                    ZERO_BITS
                },
            ),
        ),
        Json::Text(s) => Some(Scalar::Wide(strtof_lexeme(s.as_str()))),
        _ => None,
    }
}

/// A JSON value as a whole number, if it can be one. A number without a whole
/// value is rounded towards zero.
pub open spec fn json_whole(t: Tree) -> Option<i64> {
    match t {
        Tree::Int(i) => Some(i),
        Tree::UInt(u) => Some(saturated(u as int) as i64),
        Tree::Real(bits) => Some(double_whole(bits) as i64),
        Tree::Bool(b) => Some(
            if b {
                1i64
            } else {
                0i64
            },
        ),
        Tree::Text(s) => Some(whole_number(s) as i64),
        _ => None,
    }
}

pub fn coerce_i64(v: &Json) -> (r: Option<i64>)
    ensures
        r == json_whole(v@),
{
    match v {
        Json::Int(i) => Some(*i),
        Json::UInt(u) => Some(
            if *u <= 0x7fff_ffff_ffff_ffff {
                *u as i64
            } else {
                i64::MAX
            },
        ),
        Json::Real(bits) => Some(truncate_double(*bits)),
        Json::Bool(b) => Some(
            if *b {
                1
            } else {
                0
            },
        ),
        Json::Text(s) => Some(strtoi(s.as_str())),
        _ => None,
    }
}

/// A whole number as one of 32 bits without a sign: the nearest that fits.
pub open spec fn clamped_u32(i: i64) -> u32 {
    if i < 0 {
        0
    } else if i > u32::MAX {
        u32::MAX
    } else {
        i as u32
    }
}

/// A JSON value as a whole number of 32 bits without a sign.
pub open spec fn json_u32(t: Tree) -> Option<u32> {
    match json_whole(t) {
        Some(i) => Some(clamped_u32(i)),
        None => None,
    }
}

pub fn coerce_u32(v: &Json) -> (r: Option<u32>)
    ensures
        r == json_u32(v@),
{
    match coerce_i64(v) {
        Some(i) => Some(
            if i < 0 {
                0
            } else if i > 0xffff_ffff {
                0xffff_ffff
            } else {
                i as u32
            },
        ),
        None => None,
    }
}

/// The components of a vector that a text spells: at most four.
pub open spec fn vec_numbers(s: Seq<char>) -> Seq<Number> {
    let parts = split(s, ' ');
    let n = if parts.len() < 4 {
        parts.len()
    } else {
        4
    };
    Seq::new(n, |i: int| Number::Lexeme(float_lexeme(parts[i])))
}

pub fn parse_vec_components(s: &str) -> (r: Vec<Scalar>)
    ensures
        views(r@) == vec_numbers(s@),
{
    let parts = split_text(s, ' ');
    let mut out: Vec<Scalar> = Vec::new();
    let mut i: usize = 0;
    while i < parts.len() && i < 4
        invariant
            i <= parts@.len(),
            i <= 4,
            views(parts@) == split(s@, ' '),
            out@.len() == i,
            forall|j: int|
                0 <= j < i ==> (#[trigger] out@[j])@ == Number::Lexeme(
                    float_lexeme(split(s@, ' ')[j]),
                ),
        decreases parts@.len() - i,
    {
        assert(views(parts@)[i as int] == parts@[i as int]@);
        out.push(strtof(parts[i].as_str()));
        i += 1;
    }
    assert(views(out@) =~= vec_numbers(s@));
    out
}

/// A text as a vector of three, or how many components it has.
pub fn parse_vec3(s: &str) -> (r: Result<Vec3, VecError>)
    ensures
        match r {
            Ok(v) => vec_numbers(s@) == seq![v@.0, v@.1, v@.2],
            Err(e) => vec_numbers(s@).len() != 3 && e == (VecError::ComponentCount {
                expected: 3,
                found: vec_numbers(s@).len() as usize,
            }),
        },
{
    let parts = parse_vec_components(s);
    assert(views(parts@).len() == parts@.len());
    if parts.len() != 3 {
        return Err(VecError::ComponentCount { expected: 3, found: parts.len() });
    }
    let v = Vec3 { x: parts[0].duplicate(), y: parts[1].duplicate(), z: parts[2].duplicate() };
    assert(views(parts@) =~= seq![v@.0, v@.1, v@.2]);
    Ok(v)
}

/// A text as a vector of two, or how many components it has.
pub fn parse_vec2(s: &str) -> (r: Result<Vec2, VecError>)
    ensures
        match r {
            Ok(v) => vec_numbers(s@) == seq![v@.0, v@.1],
            Err(e) => vec_numbers(s@).len() != 2 && e == (VecError::ComponentCount {
                expected: 2,
                found: vec_numbers(s@).len() as usize,
            }),
        },
{
    let parts = parse_vec_components(s);
    assert(views(parts@).len() == parts@.len());
    if parts.len() != 2 {
        return Err(VecError::ComponentCount { expected: 2, found: parts.len() });
    }
    let v = Vec2 { x: parts[0].duplicate(), y: parts[1].duplicate() };
    assert(views(parts@) =~= seq![v@.0, v@.1]);
    Ok(v)
}

/// What a [`ColorError`] holds.
pub enum ColorFailure {
    HexLength { len: usize },
    HexDigits { digits: Seq<char> },
    ComponentCount { count: usize },
}

impl View for ColorError {
    type V = ColorFailure;

    open spec fn view(&self) -> ColorFailure {
        match self {
            ColorError::HexLength { len } => ColorFailure::HexLength { len: *len },
            ColorError::HexDigits { digits } => ColorFailure::HexDigits { digits: digits@ },
            ColorError::ComponentCount { count } => ColorFailure::ComponentCount { count: *count },
        }
    }
}

/// A text with its commas turned into spaces.
pub open spec fn spaced(s: Seq<char>) -> Seq<char> {
    s.map_values(
        |c: char|
            if c == ',' {
                ' '
            } else {
                c
            },
    )
}

/// The value of a hexadecimal digit.
pub open spec fn hex_digit(c: char) -> Option<nat> {
    let n = c as u32;
    if 48 <= n <= 57 {
        Some((n - 48) as nat)
    } else if 97 <= n <= 102 {
        Some((n - 87) as nat)
    } else if 65 <= n <= 70 {
        Some((n - 55) as nat)
    } else {
        None
    }
}

/// The value of a run of hexadecimal digits.
pub open spec fn hex_run(s: Seq<char>) -> Option<nat>
    decreases s.len(),
{
    if s.len() == 0 {
        Some(0)
    } else {
        match (hex_run(s.drop_last()), hex_digit(s.last())) {
            (Some(h), Some(d)) => Some(h * 16 + d),
            _ => None,
        }
    }
}

/// The value of a hexadecimal number, which a plus sign may stand before.
pub open spec fn hex_value(s: Seq<char>) -> Option<nat> {
    let t = if s.len() > 0 && s[0] == '+' {
        s.skip(1)
    } else {
        s
    };
    if t.len() == 0 {
        None
    } else {
        hex_run(t)
    }
}

/// Every character twice.
pub open spec fn twice(s: Seq<char>) -> Seq<char> {
    Seq::new(2 * s.len(), |i: int| s[i / 2])
}

/// The eight digits that the digits of a colour stand for; short forms repeat
/// each digit, and a colour without alpha is opaque. The length is in bytes.
pub open spec fn hex_expanded(digits: Seq<char>) -> Option<Seq<char>> {
    let n = vstd::utf8::encode_utf8(digits).len();
    if n == 3 {
        Some(twice(digits) + "ff"@)
    } else if n == 4 {
        Some(twice(digits))
    } else if n == 6 {
        Some(digits + "ff"@)
    } else if n == 8 {
        Some(digits)
    } else {
        None
    }
}

/// One of the four channels of a colour in eight digits.
pub open spec fn channel(v: nat, unit: nat) -> Number {
    Number::Channel(((v / unit) % 256) as i64)
}

/// A component of a colour in plain numbers.
pub open spec fn color_part(part: Seq<char>, is_float: bool) -> Number {
    if is_float {
        Number::Lexeme(float_lexeme(part))
    } else {
        Number::Channel(whole_number(part) as i64)
    }
}

/// The colour that a text spells: `#` and hexadecimal digits, or three or four
/// numbers, out of 255 unless one is written with a point.
pub open spec fn color_of(
    s: Seq<char>,
    alpha: Number,
    force_float: bool,
) -> Result<(Number, Number, Number, Number), ColorFailure> {
    let n = spaced(s);
    if n.len() > 0 && n[0] == '#' {
        let digits = n.skip(1);
        match hex_expanded(digits) {
            None => Err(
                ColorFailure::HexLength { len: vstd::utf8::encode_utf8(digits).len() as usize },
            ),
            Some(e) => match hex_value(e) {
                None => Err(ColorFailure::HexDigits { digits }),
                Some(v) => Ok(
                    (channel(v, 0x100_0000), channel(v, 0x1_0000), channel(v, 0x100), channel(v, 1)),
                ),
            },
        }
    } else {
        let parts = split(n, ' ');
        let is_float = force_float || n.contains('.');
        if parts.len() == 3 {
            Ok(
                (
                    color_part(parts[0], is_float),
                    color_part(parts[1], is_float),
                    color_part(parts[2], is_float),
                    alpha,
                ),
            )
        } else if parts.len() == 4 {
            Ok(
                (
                    color_part(parts[0], is_float),
                    color_part(parts[1], is_float),
                    color_part(parts[2], is_float),
                    color_part(parts[3], is_float),
                ),
            )
        } else {
            Err(ColorFailure::ComponentCount { count: parts.len() as usize })
        }
    }
}

fn space_commas(s: &str) -> (r: Vec<char>)
    ensures
        r@ == spaced(s@),
{
    let chars = chars_of(s);
    let mut out: Vec<char> = Vec::new();
    let mut i: usize = 0;
    while i < chars.len()
        invariant
            i <= chars@.len(),
            chars@ == s@,
            out@.len() == i,
            forall|j: int| 0 <= j < i ==> out@[j] == spaced(s@)[j],
        decreases chars@.len() - i,
    {
        if chars[i] == ',' {
            out.push(' ');
        } else {
            out.push(chars[i]);
        }
        i += 1;
    }
    assert(out@ =~= spaced(s@));
    out
}

fn hex_digit_of(c: char) -> (r: Option<u32>)
    ensures
        match r {
            Some(d) => hex_digit(c) == Some(d as nat) && d < 16,
            None => hex_digit(c) is None,
        },
{
    let n: u32 = c as u32;
    if 48 <= n && n <= 57 {
        Some(n - 48)
    } else if 97 <= n && n <= 102 {
        Some(n - 87)
    } else if 65 <= n && n <= 70 {
        Some(n - 55)
    } else {
        None
    }
}

proof fn lemma_hex_run_stays_none(s: Seq<char>, k: int)
    requires
        0 <= k <= s.len(),
        hex_run(s.take(k)) is None,
    ensures
        hex_run(s) is None,
    decreases s.len() - k,
{
    if k < s.len() {
        assert(s.take(k + 1).drop_last() =~= s.take(k));
        lemma_hex_run_stays_none(s, k + 1);
    } else {
        assert(s.take(k) =~= s);
    }
}

fn hex_number(s: &Vec<char>) -> (r: Option<u64>)
    requires
        s@.len() <= 8,
    ensures
        match r {
            Some(v) => hex_value(s@) == Some(v as nat) && v <= 0xffff_ffff,
            None => hex_value(s@) is None,
        },
{
    let start: usize = if s.len() > 0 && s[0] == '+' {
        1
    } else {
        0
    };
    if start == s.len() {
        return None;
    }
    let ghost run = s@.skip(start as int);
    assert(start == 0 ==> run =~= s@);
    assert(run.take(0) =~= Seq::empty());
    let mut v: u64 = 0;
    let mut bound: u64 = 1;
    let mut i: usize = start;
    while i < s.len()
        invariant
            s@.len() <= 8,
            start <= i <= s@.len(),
            run == s@.skip(start as int),
            hex_run(run.take(i - start)) == Some(v as nat),
            v < bound,
            bound <= 0x1_0000_0000,
            i - start <= 8,
            bound == (if i - start == 0 {
                1u64
            } else if i - start == 1 {
                0x10
            } else if i - start == 2 {
                0x100
            } else if i - start == 3 {
                0x1000
            } else if i - start == 4 {
                0x1_0000
            } else if i - start == 5 {
                0x10_0000
            } else if i - start == 6 {
                0x100_0000
            } else if i - start == 7 {
                0x1000_0000
            } else {
                0x1_0000_0000
            }),
            hex_value(s@) == hex_run(run),
        decreases s@.len() - i,
    {
        proof {
            assert(run.take(i - start + 1).drop_last() =~= run.take(i - start));
            assert(run.take(i - start + 1).last() == s@[i as int]);
        }
        match hex_digit_of(s[i]) {
            Some(d) => {
                v = v * 16 + d as u64;
                bound = bound * 16;
            },
            None => {
                proof {
                    lemma_hex_run_stays_none(run, i - start + 1);
                }
                return None;
            },
        }
        i += 1;
    }
    assert(run.take(s@.len() - start) =~= run);
    Some(v)
}

fn double_chars(s: &Vec<char>, suffix: bool) -> (r: Vec<char>)
    ensures
        r@ == twice(s@) + (if suffix {
            "ff"@
        } else {
            Seq::empty()
        }),
{
    let mut out: Vec<char> = Vec::new();
    let mut i: usize = 0;
    while i < s.len()
        invariant
            i <= s@.len(),
            out@.len() == 2 * i,
            forall|j: int| 0 <= j < 2 * i ==> out@[j] == s@[j / 2],
        decreases s@.len() - i,
    {
        out.push(s[i]);
        out.push(s[i]);
        i += 1;
    }
    proof {
        reveal_strlit("ff");
    }
    if suffix {
        out.push('f');
        out.push('f');
        assert(out@ =~= twice(s@) + "ff"@);
    } else {
        assert(out@ =~= twice(s@) + Seq::empty());
    }
    out
}

proof fn lemma_utf8_is_no_shorter(s: Seq<char>)
    ensures
        s.len() <= vstd::utf8::encode_utf8(s).len(),
    decreases s.len(),
{
    reveal_with_fuel(vstd::utf8::encode_utf8, 2);
    if s.len() > 0 {
        lemma_utf8_is_no_shorter(s.drop_first());
    }
}

/// The colour that a text spells.
pub fn parse_color(s: &str, alpha: Scalar, force_float: bool) -> (r: Result<Color, ColorError>)
    ensures
        match r {
            Ok(c) => color_of(s@, alpha@, force_float) == Ok::<
                (Number, Number, Number, Number),
                ColorFailure,
            >(c@),
            Err(e) => color_of(s@, alpha@, force_float) == Err::<
                (Number, Number, Number, Number),
                ColorFailure,
            >(e@),
        },
{
    let n = space_commas(s);
    if n.len() > 0 && n[0] == '#' {
        let digits = text_of(n.as_slice(), 1, n.len());
        assert(digits@ =~= n@.skip(1));
        let chars = chars_of(digits.as_str());
        let len: usize = digits.as_str().as_bytes().len();
        proof {
            lemma_utf8_is_no_shorter(digits@);
        }
        let expanded: Vec<char> = if len == 3 {
            double_chars(&chars, true)
        } else if len == 4 {
            let e = double_chars(&chars, false);
            assert(e@ =~= twice(chars@));
            e
        } else if len == 6 {
            let mut e = chars_of(digits.as_str());
            proof {
                reveal_strlit("ff");
            }
            e.push('f');
            e.push('f');
            assert(e@ =~= digits@ + "ff"@);
            e
        } else if len == 8 {
            chars
        } else {
            return Err(ColorError::HexLength { len });
        };
        proof {
            reveal_strlit("ff");
            assert(hex_expanded(digits@) == Some(expanded@));
        }
        return match hex_number(&expanded) {
            Some(v) => Ok(
                Color {
                    r: Scalar::Channel(((v / 0x100_0000) % 256) as i64),
                    g: Scalar::Channel(((v / 0x1_0000) % 256) as i64),
                    b: Scalar::Channel(((v / 0x100) % 256) as i64),
                    a: Scalar::Channel((v % 256) as i64),
                },
            ),
            None => Err(ColorError::HexDigits { digits }),
        };
    }
    let normalized = text_of(n.as_slice(), 0, n.len());
    assert(normalized@ =~= n@);
    let mut is_float = force_float;
    let mut i: usize = 0;
    while i < n.len()
        invariant
            i <= n@.len(),
            is_float == (force_float || exists|j: int| 0 <= j < i && n@[j] == '.'),
        decreases n@.len() - i,
    {
        if n[i] == '.' {
            is_float = true;
        }
        i += 1;
    }
    assert(is_float == (force_float || n@.contains('.')));
    let parts = split_text(normalized.as_str(), ' ');
    let ghost pieces = split(n@, ' ');
    assert(views(parts@) == pieces);
    assert(parts@.len() == pieces.len());
    if parts.len() == 3 {
        assert(pieces[0] == parts@[0]@ && pieces[1] == parts@[1]@ && pieces[2] == parts@[2]@);
        Ok(
            Color {
                r: color_scalar(parts[0].as_str(), is_float),
                g: color_scalar(parts[1].as_str(), is_float),
                b: color_scalar(parts[2].as_str(), is_float),
                a: alpha,
            },
        )
    } else if parts.len() == 4 {
        assert(pieces[0] == parts@[0]@ && pieces[1] == parts@[1]@ && pieces[2] == parts@[2]@
            && pieces[3] == parts@[3]@);
        Ok(
            Color {
                r: color_scalar(parts[0].as_str(), is_float),
                g: color_scalar(parts[1].as_str(), is_float),
                b: color_scalar(parts[2].as_str(), is_float),
                a: color_scalar(parts[3].as_str(), is_float),
            },
        )
    } else {
        Err(ColorError::ComponentCount { count: parts.len() })
    }
}

fn color_scalar(part: &str, is_float: bool) -> (r: Scalar)
    ensures
        r@ == color_part(part@, is_float),
{
    if is_float {
        strtof(part)
    } else {
        Scalar::Channel(strtoi(part))
    }
}

/// White space, as Unicode has it.
pub open spec fn white(c: char) -> bool {
    let n = c as u32;
    9 <= n <= 13 || n == 0x20 || n == 0x85 || n == 0xa0 || n == 0x1680 || 0x2000 <= n <= 0x200a || n
        == 0x2028 || n == 0x2029 || n == 0x202f || n == 0x205f || n == 0x3000
}

pub fn is_white(c: char) -> (r: bool)
    ensures
        r == white(c),
{
    let n: u32 = c as u32;
    (9 <= n && n <= 13) || n == 0x20 || n == 0x85 || n == 0xa0 || n == 0x1680 || (0x2000 <= n && n
        <= 0x200a) || n == 0x2028 || n == 0x2029 || n == 0x202f || n == 0x205f || n == 0x3000
}

/// The position after the white space that begins at `from`.
pub open spec fn after_white(s: Seq<char>, from: int) -> int
    decreases s.len() - from,
{
    if from < 0 || from >= s.len() || !white(s[from]) {
        from
    } else {
        after_white(s, from + 1)
    }
}

/// The position where the white space begins that ends at `to`.
pub open spec fn before_white(s: Seq<char>, to: int) -> int
    decreases to,
{
    if to <= 0 || to > s.len() || !white(s[to - 1]) {
        to
    } else {
        before_white(s, to - 1)
    }
}

/// A text without the white space at its two ends.
pub open spec fn trimmed(s: Seq<char>) -> Seq<char> {
    let from = after_white(s, 0);
    let to = before_white(s, s.len() as int);
    if from < to {
        s.subrange(from, to)
    } else {
        Seq::empty()
    }
}

/// A text without the white space at its two ends.
pub fn trimmed_text(s: &str) -> (r: String)
    ensures
        r@ == trimmed(s@),
{
    let chars = chars_of(s);
    let mut from: usize = 0;
    while from < chars.len() && is_white(chars[from])
        invariant
            chars@ == s@,
            from <= chars@.len(),
            after_white(s@, 0) == after_white(s@, from as int),
        decreases chars@.len() - from,
    {
        from += 1;
    }
    let mut to: usize = chars.len();
    while to > 0 && is_white(chars[to - 1])
        invariant
            chars@ == s@,
            to <= chars@.len(),
            before_white(s@, s@.len() as int) == before_white(s@, to as int),
        decreases to,
    {
        to -= 1;
    }
    if from < to {
        text_of(chars.as_slice(), from, to)
    } else {
        String::new()
    }
}

/// The number that a text is, if it is nothing but a number and white space.
pub open spec fn whole_lexeme(s: Seq<char>) -> Option<Seq<char>> {
    let t = without_space(s);
    let n = float_len(t);
    if n > 0 && forall|i: int| n <= i < t.len() ==> white(#[trigger] t[i]) {
        Some(t.take(n))
    } else {
        None
    }
}

fn parse_whole_f32(s: &str) -> (r: Option<String>)
    ensures
        match r {
            Some(x) => whole_lexeme(s@) == Some(x@),
            None => whole_lexeme(s@) is None,
        },
{
    let t = skip_c_whitespace(s);
    let n: usize = float_prefix(&t);
    if n == 0 {
        return None;
    }
    let mut i: usize = n;
    while i < t.len()
        invariant
            n <= i <= t@.len(),
            t@ == without_space(s@),
            n == float_len(t@),
            forall|j: int| n <= j < i ==> white(#[trigger] t@[j]),
        decreases t@.len() - i,
    {
        if !is_white(t[i]) {
            assert(!white(t@[i as int]));
            return None;
        }
        i += 1;
    }
    assert(t@.take(n as int) =~= t@.subrange(0, n as int));
    Some(text_of(t.as_slice(), 0, n))
}

/// Whether a text is a number and nothing else.
pub fn is_whole_float(s: &str) -> (r: bool)
    ensures
        r == (float_len(s@) == s@.len()),
{
    let chars = chars_of(s);
    float_prefix(&chars) == chars.len()
}

/// What a JSON value is where any value may stand: a text may spell a colour,
/// a number or a vector.
pub open spec fn decoded(t: Tree, color_expected: bool) -> Dynamic {
    match t {
        Tree::Null => Dynamic::Null,
        Tree::Bool(b) => Dynamic::Bool(b),
        Tree::Int(i) => Dynamic::Int(i),
        Tree::UInt(u) => Dynamic::Int(0),
        Tree::Real(bits) => Dynamic::Float(Number::Real(bits)),
        Tree::Text(s) => if color_expected {
            match color_of(s, Number::Single(ONE_BITS), false) {
                Ok(c) => Dynamic::Color(c),
                Err(e) => Dynamic::Str(s),
            }
        } else if split(s, ' ').len() == 1 {
            match whole_lexeme(s) {
                Some(x) => Dynamic::Float(Number::Lexeme(x)),
                None => Dynamic::Str(s),
            }
        } else {
            Dynamic::Vec(vec_numbers(s))
        },
        _ => Dynamic::Str(printed(t)),
    }
}

impl DynamicValue {
    pub fn decode(value: &Json, color_expected: bool) -> (r: Self)
        ensures
            r@ == decoded(value@, color_expected),
    {
        match value {
            Json::Null => DynamicValue::Null,
            Json::Bool(b) => DynamicValue::Bool(*b),
            Json::Int(i) => DynamicValue::Int(*i),
            Json::UInt(_) => DynamicValue::Int(0),
            Json::Real(bits) => DynamicValue::Float(Scalar::Real(*bits)),
            Json::Text(s) => {
                if color_expected {
                    return match parse_color(s.as_str(), Scalar::Single(ONE_BITS), false) {
                        Ok(c) => DynamicValue::Color(c),
                        Err(_) => DynamicValue::Str(s.clone()),
                    };
                }
                let parts = split_text(s.as_str(), ' ');
                assert(views(parts@).len() == parts@.len());
                if parts.len() == 1 {
                    match parse_whole_f32(s.as_str()) {
                        Some(x) => DynamicValue::Float(Scalar::Lexeme(x)),
                        None => DynamicValue::Str(s.clone()),
                    }
                } else {
                    DynamicValue::Vec(parse_vec_components(s.as_str()))
                }
            },
            other => DynamicValue::Str(json_text(other)),
        }
    }

    /// The value as a flag. For a number, a vector or a colour `first_is_set`
    /// says whether the number that it reads as is not zero.
    pub fn as_bool(&self, first_is_set: bool) -> (r: bool)
        ensures
            r == (match self@ {
                Dynamic::Bool(b) => b,
                Dynamic::Null => false,
                Dynamic::Str(s) => says_true(s),
                Dynamic::Int(i) => i != 0,
                _ => first_is_set,
            }),
    {
        match self {
            DynamicValue::Bool(b) => *b,
            DynamicValue::Null => false,
            DynamicValue::Str(s) => is_true_text(s.as_str()),
            DynamicValue::Int(i) => *i != 0,
            _ => first_is_set,
        }
    }

    /// The value as text. For a number that is not whole, a vector or a colour
    /// `shown` is the text of its numbers.
    pub fn as_string(&self, shown: &str) -> (r: String)
        ensures
            r@ == (match self@ {
                Dynamic::Str(s) => s,
                Dynamic::Bool(b) => if b {
                    "true"@
                } else {
                    "false"@
                },
                Dynamic::Int(i) => decimal(i as int),
                Dynamic::Null => Seq::empty(),
                _ => shown@,
            }),
    {
        match self {
            DynamicValue::Str(s) => s.clone(),
            DynamicValue::Bool(b) => if *b {
                "true".to_owned()
            } else {
                "false".to_owned()
            },
            DynamicValue::Int(i) => decimal_of(*i),
            DynamicValue::Null => String::new(),
            _ => shown.to_owned(),
        }
    }
}

} // verus!
