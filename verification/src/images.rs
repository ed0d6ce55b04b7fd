//! The sizes of render targets, and the pixels and indices that fill them.
use vstd::arithmetic::power2::{
    lemma2_to64, lemma2_to64_rest, lemma_pow2_pos, lemma_pow2_strictly_increases, lemma_pow2_unfold, pow2,
};
use vstd::prelude::*;

use crate::value::{doubled, halved};

verus! {

/// Two to the power of 52: the least mantissa of a double.
pub const UNIT: u128 = 0x10_0000_0000_0000;

/// Two to the power of 53: one more than the greatest mantissa of a double.
pub const TOP: u128 = 0x20_0000_0000_0000;

/// The whole number nearest to a quotient; of two, the even one.
pub open spec fn nearest(n: nat, d: nat) -> nat {
    let q = n / d;
    let r = n % d;
    if 2 * r > d || (2 * r == d && q % 2 == 1) {
        q + 1
    } else {
        q
    }
}

/// How often a number is doubled until it is at least `UNIT` times another.
pub open spec fn steps_up(n: nat, l: nat) -> nat
    decreases TOP * l - n,
{
    if n == 0 || n >= UNIT * l {
        0
    } else {
        1 + steps_up(2 * n, l)
    }
}

/// A number doubled until it is at least `UNIT` times another.
pub open spec fn scaled_up(n: nat, l: nat) -> nat
    decreases TOP * l - n,
{
    if n == 0 || n >= UNIT * l {
        n
    } else {
        scaled_up(2 * n, l)
    }
}

/// How often a number is halved until a double's mantissa can hold it.
pub open spec fn steps_down(p: nat) -> nat
    decreases p,
{
    if p < TOP {
        0
    } else {
        1 + steps_down(p / 2)
    }
}

/// A side shrunk as doubles do it: times the double nearest to the ratio of
/// `c` to `l`, the product again the nearest double, rounded down.
pub open spec fn shrunk(side: nat, c: nat, l: nat) -> nat {
    let m = nearest(scaled_up(c, l), l);
    let e = steps_up(c, l);
    let p = side * m;
    let k = steps_down(p);
    halved(nearest(p, doubled(1, k)), (e - k) as nat)
}

/// The greater of a number and one.
pub open spec fn at_least_one(n: u32) -> u32 {
    if n < 1 {
        1
    } else {
        n
    }
}

/// A number brought between one and a ceiling.
pub open spec fn clamped(n: nat, ceiling: u32) -> u32 {
    if n < 1 {
        1
    } else if n > ceiling {
        ceiling
    } else {
        n as u32
    }
}

/// A size that fits a ceiling: a side of zero counts as one, and a size with
/// a side above the ceiling is shrunk in its shape.
pub open spec fn fitted_size(width: u32, height: u32, ceiling: u32) -> (u32, u32) {
    let w = at_least_one(width);
    let h = at_least_one(height);
    let c = at_least_one(ceiling);
    if w <= c && h <= c {
        (w, h)
    } else {
        let l = if w > h {
            w
        } else {
            h
        };
        (
            clamped(shrunk(w as nat, c as nat, l as nat), c),
            clamped(shrunk(h as nat, c as nat, l as nat), c),
        )
    }
}

proof fn lemma_scaled_up(n: nat, l: nat)
    requires
        n > 0,
        n < TOP * l,
    ensures
        UNIT * l <= scaled_up(n, l) < TOP * l,
        scaled_up(n, l) == n * pow2(steps_up(n, l)),
    decreases TOP * l - n,
{
    lemma2_to64();
    lemma2_to64_rest();
    if n < UNIT * l {
        assert(2 * n < TOP * l) by (nonlinear_arith)
            requires
                n < UNIT * l,
        ;
        lemma_scaled_up(2 * n, l);
        lemma_pow2_unfold(steps_up(n, l));
        let p = pow2(steps_up(2 * n, l));
        assert(n * (2 * p) == (2 * n) * p) by (nonlinear_arith);
    } else {
        assert(n * 1 == n);
    }
}

proof fn lemma_steps_up_are_many(c: nat, l: nat)
    requires
        0 < c < l,
    ensures
        steps_up(c, l) >= 53,
{
    assert(c < TOP * l) by (nonlinear_arith)
        requires
            0 < c < l,
    ;
    lemma_scaled_up(c, l);
    lemma2_to64();
    lemma2_to64_rest();
    let e = steps_up(c, l);
    if e <= 52 {
        if e < 52 {
            lemma_pow2_strictly_increases(e, 52);
        }
        assert(pow2(e) <= UNIT);
        assert(c * pow2(e) < UNIT * l) by (nonlinear_arith)
            requires
                0 < c < l,
                pow2(e) <= UNIT,
        ;
    }
}

proof fn lemma_steps_down_are_few(p: nat, j: nat)
    requires
        p < TOP * pow2(j),
    ensures
        steps_down(p) <= j,
    decreases j,
{
    lemma2_to64();
    lemma2_to64_rest();
    if p >= TOP {
        if j == 0 {
            assert(TOP * 1 == TOP);
        } else {
            lemma_pow2_unfold(j);
            let h = pow2((j - 1) as nat);
            assert(TOP * (2 * h) == 2 * (TOP * h)) by (nonlinear_arith);
            assert(p / 2 < TOP * h);
            lemma_steps_down_are_few(p / 2, (j - 1) as nat);
        }
    }
}

/// A number below `TOP` is what is left of `p` after its steps down.
proof fn lemma_steps_down_reach(p: nat)
    ensures
        p < TOP * pow2(steps_down(p)),
    decreases p,
{
    lemma2_to64();
    lemma2_to64_rest();
    if p >= TOP {
        lemma_steps_down_reach(p / 2);
        lemma_pow2_unfold(steps_down(p));
        let h = pow2(steps_down(p / 2));
        assert(TOP * (2 * h) == 2 * (TOP * h)) by (nonlinear_arith);
    } else {
        assert(TOP * 1 == TOP);
    }
}

proof fn lemma_nearest_bound(n: nat, d: nat, top: nat)
    requires
        d > 0,
        n < top * d,
    ensures
        nearest(n, d) <= top,
{
    assert(n / d < top) by (nonlinear_arith)
        requires
            d > 0,
            n < top * d,
    ;
}

fn nearest_of(n: u128, d: u128) -> (r: u128)
    requires
        0 < d <= 0x1_0000_0000_0000_0000,
        n < 0x4000_0000_0000_0000_0000_0000,
    ensures
        r == nearest(n as nat, d as nat),
{
    let q: u128 = n / d;
    let r: u128 = n % d;
    assert(r < d) by (nonlinear_arith)
        requires
            d > 0,
            r == n % d,
    ;
    assert(q <= n) by (nonlinear_arith)
        requires
            d > 0,
            q == n / d,
    ;
    if 2 * r > d || (2 * r == d && q % 2 == 1) {
        q + 1
    } else {
        q
    }
}

fn shrink(side: u32, c: u32, l: u32) -> (r: u64)
    requires
        0 < c < l,
        0 < side <= l,
    ensures
        r == shrunk(side as nat, c as nat, l as nat),
{
    let l128: u128 = l as u128;
    let goal: u128 = UNIT * l128;
    let mut n: u128 = c as u128;
    let mut e: u32 = 0;
    proof {
        assert((c as nat) < TOP * l) by (nonlinear_arith)
            requires
                0 < c < l,
        ;
        lemma_scaled_up(c as nat, l as nat);
        lemma_steps_up_are_many(c as nat, l as nat);
        lemma_steps_up_bounded(c as nat, l as nat);
    }
    while n < goal
        invariant
            l128 == l,
            goal == UNIT * l,
            0 < n < TOP * l,
            scaled_up(n as nat, l as nat) == scaled_up(c as nat, l as nat),
            e + steps_up(n as nat, l as nat) == steps_up(c as nat, l as nat),
            steps_up(c as nat, l as nat) <= 85,
        decreases TOP * l - n,
    {
        n = n * 2;
        e = e + 1;
    }
    assert(TOP * l <= 0x20_0000_0000_0000 * 0xffff_ffff) by (nonlinear_arith)
        requires
            l <= 0xffff_ffff,
            TOP == 0x20_0000_0000_0000,
    ;
    let m: u128 = nearest_of(n, l128);
    proof {
        lemma_nearest_bound(n as nat, l as nat, TOP as nat);
    }
    assert(side * m <= 0xffff_ffff * 0x20_0000_0000_0000) by (nonlinear_arith)
        requires
            side <= 0xffff_ffff,
            m <= 0x20_0000_0000_0000,
            0 <= m,
    ;
    let p: u128 = side as u128 * m;
    proof {
        lemma2_to64();
        lemma2_to64_rest();
        lemma_steps_down_are_few(p as nat, 32);
    }
    let mut rest: u128 = p;
    let mut d: u128 = 1;
    let mut k: u32 = 0;
    proof {
        assert(doubled(1, 0) == 1);
    }
    while rest >= TOP
        invariant
            k + steps_down(rest as nat) == steps_down(p as nat),
            steps_down(p as nat) <= 32,
            d == doubled(1, k as nat),
            d <= 0x1_0000_0000,
            k < 32 ==> d <= 0x8000_0000,
            d == pow2(k as nat),
        decreases rest,
    {
        rest = rest / 2;
        proof {
            lemma2_to64();
            lemma2_to64_rest();
            lemma_pow2_unfold((k + 1) as nat);
            if k + 1 < 31 {
                lemma_pow2_strictly_increases((k + 1) as nat, 31);
            }
        }
        d = d * 2;
        k = k + 1;
    }
    let q: u128 = nearest_of(p, d);
    proof {
        lemma_steps_down_reach(p as nat);
        lemma_pow2_pos(k as nat);
        lemma_nearest_bound(p as nat, d as nat, TOP as nat);
    }
    let mut v: u128 = q;
    let mut left: u32 = e - k;
    while left > 0
        invariant
            v <= TOP,
            halved(v as nat, left as nat) == halved(q as nat, (e - k) as nat),
        decreases left,
    {
        v = v / 2;
        left = left - 1;
    }
    v as u64
}

proof fn lemma_steps_up_bounded(c: nat, l: nat)
    requires
        0 < c < l <= 0xffff_ffff,
    ensures
        steps_up(c, l) <= 85,
{
    assert(c < TOP * l) by (nonlinear_arith)
        requires
            0 < c < l,
    ;
    lemma_scaled_up(c, l);
    let e = steps_up(c, l);
    if e > 85 {
        lemma_pow2_strictly_increases(85, e);
        vstd::arithmetic::power2::lemma_pow2_adds(53, 32);
        lemma2_to64();
        lemma2_to64_rest();
        assert(pow2(e) > 0x20_0000_0000_0000 * 0x1_0000_0000);
        assert(c * pow2(e) >= TOP * l) by (nonlinear_arith)
            requires
                c >= 1,
                l <= 0xffff_ffff,
                pow2(e) > 0x20_0000_0000_0000 * 0x1_0000_0000,
                TOP == 0x20_0000_0000_0000,
        ;
    }
}

fn clamp_to(n: u64, ceiling: u32) -> (r: u32)
    requires
        ceiling >= 1,
    ensures
        r == clamped(n as nat, ceiling),
{
    if n < 1 {
        1
    } else if n > ceiling as u64 {
        ceiling
    } else {
        n as u32
    }
}

/// A size that fits a ceiling.
pub fn fit_within(width: u32, height: u32, ceiling: u32) -> (r: (u32, u32))
    ensures
        r == fitted_size(width, height, ceiling),
{
    let w: u32 = if width < 1 {
        1
    } else {
        width
    };
    let h: u32 = if height < 1 {
        1
    } else {
        height
    };
    let c: u32 = if ceiling < 1 {
        1
    } else {
        ceiling
    };
    if w <= c && h <= c {
        return (w, h);
    }
    let l: u32 = if w > h {
        w
    } else {
        h
    };
    (clamp_to(shrink(w, c, l), c), clamp_to(shrink(h, c, l), c))
}

/// A fitted size has no empty side and none above the ceiling, and a size that
/// fits already is left alone.
pub proof fn law_fitted_sizes_fit(width: u32, height: u32, ceiling: u32)
    ensures
        1 <= fitted_size(width, height, ceiling).0 <= at_least_one(ceiling),
        1 <= fitted_size(width, height, ceiling).1 <= at_least_one(ceiling),
        1 <= width <= ceiling && 1 <= height <= ceiling ==> fitted_size(width, height, ceiling) == (
            width,
            height,
        ),
{
}

proof fn lemma_doubled(n: nat, k: nat)
    ensures
        doubled(n, k) == n * pow2(k),
    decreases k,
{
    lemma2_to64();
    if k > 0 {
        lemma_doubled(n, (k - 1) as nat);
        lemma_pow2_unfold(k);
        let h = pow2((k - 1) as nat);
        assert(2 * (n * h) == n * (2 * h)) by (nonlinear_arith);
    } else {
        assert(n * 1 == n);
    }
}

proof fn lemma_halved(n: nat, k: nat)
    ensures
        halved(n, k) * pow2(k) <= n < (halved(n, k) + 1) * pow2(k),
    decreases k,
{
    lemma2_to64();
    if k > 0 {
        let h = pow2((k - 1) as nat);
        let v = halved(n / 2, (k - 1) as nat);
        lemma_halved(n / 2, (k - 1) as nat);
        lemma_pow2_unfold(k);
        assert(v * (2 * h) == 2 * (v * h)) by (nonlinear_arith);
        assert((v + 1) * (2 * h) == 2 * ((v + 1) * h)) by (nonlinear_arith);
    } else {
        assert(halved(n, k) * 1 == n);
    }
}

proof fn lemma_nearest_is_near(n: nat, d: nat)
    requires
        d > 0,
    ensures
        2 * (nearest(n, d) * d) <= 2 * n + d,
        2 * n <= 2 * (nearest(n, d) * d) + d,
{
    vstd::arithmetic::div_mod::lemma_fundamental_div_mod(n as int, d as int);
    let q = n / d;
    assert((q + 1) * d == q * d + d) by (nonlinear_arith);
    assert(q * d == d * q) by (nonlinear_arith);
}

/// A side that is shrunk is at most one away from its share of the ceiling.
proof fn lemma_shrunk_is_near(side: nat, c: nat, l: nat)
    requires
        0 < c < l <= 0xffff_ffff,
        0 < side <= l,
    ensures
        shrunk(side, c, l) <= side * c / l + 1,
        side * c / l <= shrunk(side, c, l) + 1,
{
    assert(c < TOP * l) by (nonlinear_arith)
        requires
            0 < c < l,
    ;
    lemma_scaled_up(c, l);
    lemma_steps_up_are_many(c, l);
    let up = scaled_up(c, l);
    let e = steps_up(c, l);
    let big = pow2(e);
    let m = nearest(up, l);
    let p = side * m;
    lemma_nearest_is_near(up, l);
    lemma_nearest_bound(up, l, TOP as nat);
    lemma2_to64();
    lemma2_to64_rest();
    assert(p < TOP * pow2(32)) by (nonlinear_arith)
        requires
            p == side * m,
            side <= 0xffff_ffff,
            m <= TOP,
            TOP == 0x20_0000_0000_0000,
            pow2(32) == 0x1_0000_0000,
    ;
    lemma_steps_down_are_few(p, 32);
    let k = steps_down(p);
    let d = doubled(1, k);
    lemma_doubled(1, k);
    assert(d == pow2(k));
    lemma_pow2_pos(k);
    if k < 32 {
        lemma_pow2_strictly_increases(k, 32);
    }
    let q = nearest(p, d);
    lemma_nearest_is_near(p, d);
    let rest = (e - k) as nat;
    let v = halved(q, rest);
    lemma_halved(q, rest);
    vstd::arithmetic::power2::lemma_pow2_adds(k, rest);
    let r = pow2(rest);
    assert(d * r == big);
    if e > 53 {
        lemma_pow2_strictly_increases(53, e);
    }
    assert(big >= 0x20_0000_0000_0000);
    assert(v * big <= q * d < (v + 1) * big) by (nonlinear_arith)
        requires
            v * r <= q < (v + 1) * r,
            d * r == big,
            d > 0,
    ;
    let x = side * c / l;
    vstd::arithmetic::div_mod::lemma_fundamental_div_mod((side * c) as int, l as int);
    assert(l * x <= side * c < l * x + l);
    assert(2 * (p * l) <= 2 * (side * c * big) + side * l && 2 * (side * c * big) <= 2 * (p * l) + side
        * l) by (nonlinear_arith)
        requires
            p == side * m,
            up == c * big,
            2 * (m * l) <= 2 * up + l,
            2 * up <= 2 * (m * l) + l,
    ;
    assert(2 * (q * d * l) <= 2 * (p * l) + d * l && 2 * (p * l) <= 2 * (q * d * l) + d * l)
        by (nonlinear_arith)
        requires
            2 * (q * d) <= 2 * p + d,
            2 * p <= 2 * (q * d) + d,
            l > 0,
    ;
    assert(side * l + d * l <= 2 * (l * big)) by (nonlinear_arith)
        requires
            side <= 0xffff_ffff,
            d <= 0x1_0000_0000,
            big >= 0x20_0000_0000_0000,
            l > 0,
    ;
    assert(q * d * l <= side * c * big + l * big && side * c * big <= q * d * l + l * big);
    assert(v < x + 2) by (nonlinear_arith)
        requires
            v * big <= q * d,
            q * d * l <= side * c * big + l * big,
            side * c < l * x + l,
            big > 0,
            l > 0,
    {
        assert((v * big) * l <= (q * d) * l);
        assert(side * c * big <= (l * x + l) * big);
        assert((v * big) * l == (v * l) * big);
        assert(side * c * big < (l * x + l) * big);
        assert((l * x + l) * big + l * big == ((x + 2) * l) * big);
        assert((v * l) * big < ((x + 2) * l) * big);
        assert(v * l < (x + 2) * l);
    }
    assert(x < v + 2) by (nonlinear_arith)
        requires
            q * d < (v + 1) * big,
            side * c * big <= q * d * l + l * big,
            l * x <= side * c,
            big > 0,
            l > 0,
    {
        assert((q * d) * l < ((v + 1) * big) * l);
        assert((l * x) * big <= side * c * big);
        assert(((v + 1) * big) * l + l * big == ((v + 2) * l) * big);
        assert((l * x) * big < ((v + 2) * l) * big);
        assert(l * x < (v + 2) * l);
    }
}

/// The longer of two sides, of which an empty one counts as one.
pub open spec fn longest(width: u32, height: u32) -> u32 {
    if at_least_one(width) > at_least_one(height) {
        at_least_one(width)
    } else {
        at_least_one(height)
    }
}

/// Whether a side is at most one away from another.
pub open spec fn within_one(a: int, b: int) -> bool {
    a <= b + 1 && b <= a + 1
}

/// A size with a side above the ceiling keeps its shape: each side is at most
/// one away from its share of the ceiling, in whole pixels. The share of the
/// longest is the ceiling itself.
pub proof fn law_fitted_sizes_keep_their_shape(width: u32, height: u32, ceiling: u32)
    requires
        longest(width, height) > at_least_one(ceiling),
    ensures
        within_one(
            fitted_size(width, height, ceiling).0 as int,
            at_least_one(width) * at_least_one(ceiling) / longest(width, height) as int,
        ),
        within_one(
            fitted_size(width, height, ceiling).1 as int,
            at_least_one(height) * at_least_one(ceiling) / longest(width, height) as int,
        ),
{
    let c = at_least_one(ceiling);
    let l = longest(width, height);
    let (w, h) = (at_least_one(width), at_least_one(height));
    lemma_shrunk_is_near(w as nat, c as nat, l as nat);
    lemma_shrunk_is_near(h as nat, c as nat, l as nat);
    lemma_share(w as nat, c as nat, l as nat);
    lemma_share(h as nat, c as nat, l as nat);
}

proof fn lemma_share(side: nat, c: nat, l: nat)
    requires
        0 < side <= l,
    ensures
        side * c / l <= c,
{
    assert(side * c / l <= c) by (nonlinear_arith)
        requires
            0 < side <= l,
    ;
}

/// A run of indices of an even length: an odd one is made even by repeating
/// its last index.
pub open spec fn padded(indices: Seq<u16>) -> Seq<u16> {
    if indices.len() % 2 == 0 {
        indices
    } else {
        indices.push(indices.last())
    }
}

/// A run of indices: one that is there already, or one made for the purpose.
#[derive(Debug)]
pub enum Indices<'a> {
    Borrowed(&'a [u16]),
    Owned(Vec<u16>),
}

impl<'a> View for Indices<'a> {
    type V = Seq<u16>;

    open spec fn view(&self) -> Seq<u16> {
        match self {
            Indices::Borrowed(s) => s@,
            Indices::Owned(v) => v@,
        }
    }
}

impl<'a> Indices<'a> {
    pub fn as_slice(&self) -> (r: &[u16])
        ensures
            r@ == self@,
    {
        match self {
            Indices::Borrowed(s) => s,
            Indices::Owned(v) => v.as_slice(),
        }
    }

    pub fn len(&self) -> (n: usize)
        ensures
            n == self@.len(),
    {
        self.as_slice().len()
    }

    pub fn is_empty(&self) -> (r: bool)
        ensures
            r == (self@.len() == 0),
    {
        self.as_slice().len() == 0
    }
}

/// A run of indices of an even length. One that is even already is left alone.
pub fn padded_indices(indices: &[u16]) -> (r: Indices<'_>)
    ensures
        r@ == padded(indices@),
        r is Borrowed == (indices@.len() % 2 == 0),
{
    let n: usize = indices.len();
    if n % 2 == 0 {
        return Indices::Borrowed(indices);
    }
    let mut out: Vec<u16> = Vec::new();
    let mut i: usize = 0;
    while i < n
        invariant
            i <= n,
            n == indices@.len(),
            out@ == indices@.take(i as int),
        decreases n - i,
    {
        out.push(indices[i]);
        assert(indices@.take(i + 1) =~= indices@.take(i as int).push(indices@[i as int]));
        i += 1;
    }
    assert(indices@.take(n as int) =~= indices@);
    out.push(indices[n - 1]);
    Indices::Owned(out)
}

/// Padding makes the run even and draws nothing new: every index in the padded
/// run is one of the run's own, in its place.
pub proof fn law_padding_repeats(indices: Seq<u16>)
    ensures
        padded(indices).len() % 2 == 0,
        padded(indices).take(indices.len() as int) == indices,
        forall|i: int|
            0 <= i < padded(indices).len() ==> indices.contains(#[trigger] padded(indices)[i]),
{
    let p = padded(indices);
    assert(p.take(indices.len() as int) =~= indices);
    assert forall|i: int| 0 <= i < p.len() implies indices.contains(#[trigger] p[i]) by {
        if i < indices.len() {
            assert(indices[i] == p[i]);
        } else {
            assert(indices[indices.len() - 1] == p[i]);
        }
    }
}

/// Where a frame lies in its page, in pixels.
#[derive(Clone, Copy, Debug, PartialEq, Eq, Structural)]
pub struct Region {
    pub x: i64,
    pub y: i64,
    pub width: i64,
    pub height: i64,
}

/// Whether a region lies in a page.
pub open spec fn region_fits(r: Region, width: u32, height: u32) -> bool {
    r.x >= 0 && r.y >= 0 && r.width >= 1 && r.height >= 1 && r.x + r.width <= width && r.y + r.height
        <= height
}

/// The pixels of a region, row by row. Each pixel has four bytes.
pub open spec fn cropped(pixels: Seq<u8>, width: int, r: Region) -> Seq<u8> {
    Seq::new(
        (r.width * r.height * 4) as nat,
        |i: int|
            pixels[(r.y + i / (r.width * 4)) * (width * 4) + r.x * 4 + i % (r.width * 4)],
    )
}

/// The pixels of a region of a page; none where the region leaves the page.
pub fn crop(pixels: &Vec<u8>, width: u32, height: u32, r: Region) -> (out: Option<Vec<u8>>)
    requires
        pixels@.len() == width * height * 4,
        r.width >= 1,
        r.height >= 1,
    ensures
        match out {
            Some(v) => region_fits(r, width, height) && v@ == cropped(pixels@, width as int, r),
            None => !region_fits(r, width, height),
        },
{
    let w: i64 = width as i64;
    let h: i64 = height as i64;
    if r.x < 0 || r.y < 0 || r.width > w || r.height > h {
        return None;
    }
    if r.x > w - r.width || r.y > h - r.height {
        return None;
    }
    let total: usize = pixels.len();
    assert(width * 4 <= total) by (nonlinear_arith)
        requires
            total == width * height * 4,
            height >= 1,
            width >= 0,
    ;
    let stride: usize = r.width as usize * 4;
    let mut out: Vec<u8> = Vec::new();
    let ghost goal = cropped(pixels@, width as int, r);
    let mut row: usize = 0;
    let rows: usize = r.height as usize;
    while row < rows
        invariant
            row <= rows,
            rows == r.height,
            stride == r.width * 4,
            total == pixels@.len(),
            width * 4 <= total,
            region_fits(r, width, height),
            pixels@.len() == width * height * 4,
            goal == cropped(pixels@, width as int, r),
            out@.len() == row * stride,
            forall|i: int| 0 <= i < row * stride ==> #[trigger] out@[i] == goal[i],
        decreases rows - row,
    {
        proof {
            lemma_row_in_page(r, width as int, height as int, row as int);
        }
        let start: usize = (r.y as usize + row) * (width as usize * 4) + r.x as usize * 4;
        let mut i: usize = 0;
        while i < stride
            invariant
                i <= stride,
                0 <= row < rows,
                rows == r.height,
                stride == r.width * 4,
                total == pixels@.len(),
                region_fits(r, width, height),
                goal == cropped(pixels@, width as int, r),
                start == (r.y + row) * (width * 4) + r.x * 4,
                start + stride <= total,
                out@.len() == row * stride + i,
                forall|j: int| 0 <= j < row * stride + i ==> #[trigger] out@[j] == goal[j],
            decreases stride - i,
        {
            proof {
                let j = row * stride + i;
                assert(j / (stride as int) == row && j % (stride as int) == i) by (nonlinear_arith)
                    requires
                        j == row * stride + i,
                        0 <= i < stride,
                        0 <= row,
                ;
                assert(j < r.width * r.height * 4) by (nonlinear_arith)
                    requires
                        j == row * stride + i,
                        i < stride,
                        stride == r.width * 4,
                        0 <= row < r.height,
                ;
            }
            out.push(pixels[start + i]);
            i += 1;
        }
        assert((row + 1) * stride == row * stride + stride) by (nonlinear_arith);
        row += 1;
    }
    assert(rows * stride == r.width * r.height * 4) by (nonlinear_arith)
        requires
            rows == r.height,
            stride == r.width * 4,
    ;
    assert(out@ =~= goal);
    Some(out)
}

proof fn lemma_row_in_page(r: Region, width: int, height: int, row: int)
    requires
        r.x >= 0,
        r.y >= 0,
        r.x + r.width <= width,
        r.y + r.height <= height,
        r.width >= 1,
        0 <= row < r.height,
    ensures
        (r.y + row) * (width * 4) >= 0,
        (r.y + row) * (width * 4) + r.x * 4 + r.width * 4 <= width * height * 4,
        (r.y + row) * (width * 4) <= width * height * 4,
{
    assert((r.y + row) * (width * 4) + r.x * 4 + r.width * 4 <= width * height * 4 && (r.y + row) * (
    width * 4) >= 0 && (r.y + row) * (width * 4) <= width * height * 4) by (nonlinear_arith)
        requires
            r.x >= 0,
            r.y >= 0,
            r.x + r.width <= width,
            r.y + r.height <= height,
            r.width >= 1,
            0 <= row < r.height,
    ;
}

/// Whether an animated texture is played, and whether its pages have to be
/// sent as it goes: it has several frames that take time, and one of them is
/// not on the first page. `pages` holds the page of each frame.
pub fn atlas_animates(pages: &Vec<usize>, takes_time: bool) -> (r: Option<bool>)
    ensures
        r == (if pages@.len() <= 1 || !takes_time {
            None
        } else {
            Some(exists|i: int| 0 <= i < pages@.len() && #[trigger] pages@[i] != 0)
        }),
{
    if pages.len() <= 1 || !takes_time {
        return None;
    }
    let mut i: usize = 0;
    while i < pages.len()
        invariant
            i <= pages@.len(),
            pages@.len() > 1,
            takes_time,
            forall|j: int| 0 <= j < i ==> #[trigger] pages@[j] == 0,
        decreases pages@.len() - i,
    {
        if pages[i] != 0 {
            assert(pages@[i as int] != 0);
            return Some(true);
        }
        i += 1;
    }
    Some(false)
}

/// The bytes that the pixels of a texture take, where 32 bits hold them.
pub fn pixels_needed(width: u32, height: u32) -> (r: usize)
    requires
        at_least_one(width) * at_least_one(height) * 4 <= u32::MAX,
    ensures
        r == at_least_one(width) * at_least_one(height) * 4,
{
    let w: u32 = if width < 1 {
        1
    } else {
        width
    };
    let h: u32 = if height < 1 {
        1
    } else {
        height
    };
    assert(w * h <= u32::MAX) by (nonlinear_arith)
        requires
            w * h * 4 <= u32::MAX,
            w >= 1,
            h >= 1,
    ;
    (w * h * 4) as usize
}

/// The indices of a puppet, an odd run made even by a zero.
pub fn puppet_indices(indices: &[u16]) -> (out: Vec<u16>)
    ensures
        out@ == (if indices@.len() % 2 == 0 {
            indices@
        } else {
            indices@.push(0)
        }),
{
    let n: usize = indices.len();
    let mut out: Vec<u16> = Vec::new();
    let mut i: usize = 0;
    while i < n
        invariant
            i <= n,
            n == indices@.len(),
            out@ == indices@.take(i as int),
        decreases n - i,
    {
        out.push(indices[i]);
        assert(indices@.take(i + 1) =~= indices@.take(i as int).push(indices@[i as int]));
        i += 1;
    }
    assert(indices@.take(n as int) =~= indices@);
    if n % 2 != 0 {
        out.push(0);
    }
    out
}

/// Where the file of a texture lies.
pub fn texture_path(name: &str) -> (r: String)
    ensures
        r@ == "materials/"@ + name@ + ".tex"@,
{
    let a = crate::strings::join2("materials/", name);
    crate::strings::join2(a.as_str(), ".tex")
}

/// How many bytes the two planes of a video frame have, where the frame holds
/// them: one byte for each pixel, and two for each block of four.
pub fn nv12_planes(width: u32, height: u32, data: usize) -> (r: Option<(usize, usize)>)
    requires
        width * height <= u32::MAX,
    ensures
        r == (if data < width * height + width * (height / 2) {
            None
        } else {
            Some(((width * height) as usize, (width * (height / 2)) as usize))
        }),
{
    assert(width * (height / 2) <= width * height) by (nonlinear_arith)
        requires
            0 <= width,
            0 <= height,
    ;
    let y_bytes: u32 = width * height;
    let uv_bytes: u32 = width * (height / 2);
    let needed: u64 = y_bytes as u64 + uv_bytes as u64;
    if (data as u64) < needed {
        None
    } else {
        Some((y_bytes as usize, uv_bytes as usize))
    }
}

} // verus!
