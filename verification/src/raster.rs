//! Texts as pixels.
use vstd::arithmetic::div_mod::{lemma_fundamental_div_mod, lemma_fundamental_div_mod_converse};
use vstd::arithmetic::power2::{
    lemma_pow2_pos, lemma_pow2_strictly_increases, lemma_pow2_unfold, pow2,
};
use vstd::prelude::*;

use crate::markup::{plain, without_markup};
use crate::singles::INFINITY_BITS;
use crate::strings::{chars_of, same_text};

verus! {

/// The longest side of a text, in pixels.
pub const MAX_EDGE: u32 = 4096;

/// The mantissa of a finite single above zero, which is this number times two
/// to the power of [`exponent_of`] less 150.
pub open spec fn mantissa_of(b: u32) -> int {
    if b < 0x80_0000 {
        b as int
    } else {
        0x80_0000 + b % 0x80_0000
    }
}

/// The exponent of a finite single above zero.
pub open spec fn exponent_of(b: u32) -> int {
    if b < 0x80_0000 {
        1
    } else {
        (b / 0x80_0000) as int
    }
}

/// Whether `n` is a finite single above zero, rounded up to a whole number.
pub open spec fn rounds_up_to(b: u32, n: int) -> bool {
    let m = mantissa_of(b);
    let e = exponent_of(b);
    if e >= 150 {
        n == m * pow2((e - 150) as nat)
    } else {
        (n - 1) * pow2((150 - e) as nat) < m <= n * pow2((150 - e) as nat)
    }
}

/// Whether `side` is the side, in pixels, of what is as long as a single says:
/// the next whole number within the limits, and one pixel where the single is
/// not above zero, infinite or no number.
pub open spec fn is_side(b: u32, side: u32) -> bool {
    if !(0 < b < INFINITY_BITS) {
        side == 1
    } else {
        exists|n: int| #[trigger]
            rounds_up_to(b, n) && side == if n < 1 {
                1
            } else if n > MAX_EDGE {
                MAX_EDGE as int
            } else {
                n
            }
    }
}

/// The side of a text that is as long as a single says.
pub fn ceil_clamp(v: u32) -> (side: u32)
    ensures
        is_side(v, side),
        1 <= side <= MAX_EDGE,
{
    if v == 0 || v >= INFINITY_BITS {
        return 1;
    }
    let (m, e): (u64, u64) = if v < 0x80_0000 {
        (v as u64, 1)
    } else {
        (0x80_0000 + (v % 0x80_0000) as u64, (v / 0x80_0000) as u64)
    };
    if e >= 150 {
        let ghost p = pow2((e - 150) as nat);
        proof {
            lemma_pow2_pos((e - 150) as nat);
            assert(m * p >= m) by (nonlinear_arith)
                requires
                    p >= 1,
                    m >= 0,
            ;
            assert(rounds_up_to(v, m * p));
        }
        return MAX_EDGE;
    }
    let shift: u64 = 150 - e;
    if shift >= 24 {
        proof {
            vstd::arithmetic::power2::lemma2_to64();
            if shift > 24 {
                lemma_pow2_strictly_increases(24, shift as nat);
            }
            assert(rounds_up_to(v, 1));
        }
        return 1;
    }
    let mut unit: u64 = 1;
    let mut k: u64 = 0;
    proof {
        vstd::arithmetic::power2::lemma2_to64();
    }
    while k < shift
        invariant
            k <= shift < 24,
            unit == pow2(k as nat),
            unit <= 0x100_0000,
        decreases shift - k,
    {
        proof {
            lemma_pow2_unfold((k + 1) as nat);
            vstd::arithmetic::power2::lemma2_to64();
            if k + 1 < 24 {
                lemma_pow2_strictly_increases((k + 1) as nat, 24);
            }
        }
        unit = 2 * unit;
        k += 1;
    }
    proof {
        lemma_pow2_pos(shift as nat);
    }
    let n: u64 = (m + unit - 1) / unit;
    proof {
        lemma_fundamental_div_mod((m + unit - 1) as int, unit as int);
        let q = n as int;
        let u = unit as int;
        assert((q - 1) * u == u * q - u) by (nonlinear_arith);
        assert(q * u == u * q) by (nonlinear_arith);
        assert(rounds_up_to(v, q));
    }
    if n < 1 {
        1
    } else if n > MAX_EDGE as u64 {
        MAX_EDGE
    } else {
        n as u32
    }
}

/// At what size a text is set: as large as it is shown, or as it is written.
#[derive(Clone, Copy, Debug, PartialEq, Eq, Structural)]
pub enum TextRasterScale {
    Screen,
    Engine,
}

/// The pixels of a text. Each has four bytes, the last its coverage.
#[derive(Debug)]
pub struct TextRaster {
    pub pixels: Vec<u8>,
    pub width: u32,
    pub height: u32,
    pub line_count: usize,
    pub any_coverage: bool,
}

/// What a [`TextRaster`] holds.
pub struct RasterModel {
    pub pixels: Seq<u8>,
    pub width: u32,
    pub height: u32,
    pub line_count: usize,
    pub any_coverage: bool,
}

impl View for TextRaster {
    type V = RasterModel;

    open spec fn view(&self) -> RasterModel {
        RasterModel {
            pixels: self.pixels@,
            width: self.width,
            height: self.height,
            line_count: self.line_count,
            any_coverage: self.any_coverage,
        }
    }
}

impl RasterModel {
    /// Whether a raster has a pixel for each place, and no side too long.
    pub open spec fn valid(self) -> bool {
        1 <= self.width <= MAX_EDGE && 1 <= self.height <= MAX_EDGE && self.pixels.len()
            == self.width * self.height * 4
    }
}

/// A block that is painted: where it begins, how large it is, and how much it
/// covers.
#[derive(Clone, Copy, Debug, PartialEq, Eq, Structural)]
pub struct Block {
    pub x: i64,
    pub y: i64,
    pub width: u32,
    pub height: u32,
    pub coverage: u8,
}

/// Whether a block lies over a place.
pub open spec fn lies_over(b: Block, x: int, y: int) -> bool {
    b.x <= x < b.x + b.width && b.y <= y < b.y + b.height
}

/// Whether a block paints pixel `p`: it lies over it, and covers more than
/// what is there.
pub open spec fn paints(b: Block, r: RasterModel, p: int) -> bool {
    lies_over(b, p % (r.width as int), p / (r.width as int)) && b.coverage > r.pixels[p * 4 + 3]
}

/// A byte of the pixels once a block is painted: white, with the block's
/// coverage, where it paints.
pub open spec fn painted_byte(b: Block, r: RasterModel, i: int) -> u8 {
    if paints(b, r, i / 4) {
        if i % 4 == 3 {
            b.coverage
        } else {
            255
        }
    } else {
        r.pixels[i]
    }
}

/// A raster once a block is painted.
pub open spec fn painted(b: Block, r: RasterModel) -> RasterModel {
    RasterModel {
        pixels: Seq::new(r.pixels.len(), |i: int| painted_byte(b, r, i)),
        any_coverage: r.any_coverage || exists|p: int|
            0 <= p < r.width * r.height && #[trigger] paints(b, r, p),
        ..r
    }
}

/// Whether pixel `p` has, of a block painted up to pixel `cur`, what it should.
pub open spec fn done_upto(b: Block, r: RasterModel, now: Seq<u8>, cur: int) -> bool {
    now.len() == r.pixels.len() && forall|i: int|
        0 <= i < now.len() ==> #[trigger] now[i] == (if i / 4 < cur {
            painted_byte(b, r, i)
        } else {
            r.pixels[i]
        })
}

proof fn lemma_place(w: int, x: int, y: int)
    requires
        0 <= x < w,
        0 <= y,
    ensures
        (y * w + x) / w == y,
        (y * w + x) % w == x,
        0 <= y * w + x,
{
    assert(y * w >= 0) by (nonlinear_arith)
        requires
            0 <= y,
            0 < w,
    ;
    lemma_fundamental_div_mod_converse(y * w + x, w, y, x);
}

proof fn lemma_place_of(w: int, p: int)
    requires
        0 < w,
        0 <= p,
    ensures
        p == (p / w) * w + p % w,
        0 <= p % w < w,
        0 <= p / w,
{
    assert(p == (p / w) * w + p % w && 0 <= p % w < w && 0 <= p / w) by (nonlinear_arith)
        requires
            0 < w,
            0 <= p,
    ;
}

/// No pixel between two places is under the block: the first lies behind the
/// block in its row, and the second before it in the next.
proof fn lemma_gap(b: Block, w: int, x0: int, x1: int, y: int, p: int)
    requires
        0 < w,
        0 <= x0 <= x1 <= w,
        0 <= y,
        x1 == w || b.x + b.width <= x1,
        x0 == 0 || x0 <= b.x,
        y * w + x1 <= p < (y + 1) * w + x0,
    ensures
        !lies_over(b, p % w, p / w),
{
    assert(y * w >= 0) by (nonlinear_arith)
        requires
            0 <= y,
            0 < w,
    ;
    assert((y + 1) * w == y * w + w) by (nonlinear_arith);
    if p < y * w + w {
        lemma_place(w, p - y * w, y);
    } else {
        lemma_place(w, p - (y + 1) * w, y + 1);
    }
}

proof fn lemma_done_skips(b: Block, r: RasterModel, now: Seq<u8>, from: int, to: int)
    requires
        done_upto(b, r, now, from),
        from <= to,
        forall|p: int| from <= p < to ==> !lies_over(b, #[trigger] (p % (r.width as int)), p / (r.width as int)),
    ensures
        done_upto(b, r, now, to),
{
    assert forall|i: int| 0 <= i < now.len() implies #[trigger] now[i] == (if i / 4 < to {
        painted_byte(b, r, i)
    } else {
        r.pixels[i]
    }) by {
        let p = i / 4;
        if from <= p < to {
            assert(!lies_over(b, p % (r.width as int), p / (r.width as int)));
        }
    }
}

impl TextRaster {
    /// A raster without a mark.
    pub fn empty(width: u32, height: u32, line_count: usize) -> (r: Self)
        requires
            1 <= width <= MAX_EDGE,
            1 <= height <= MAX_EDGE,
        ensures
            r@ == (RasterModel {
                pixels: Seq::new((width * height * 4) as nat, |i: int| 0u8),
                width,
                height,
                line_count,
                any_coverage: false,
            }),
            r@.valid(),
    {
        assert(width * height <= 4096 * 4096) by (nonlinear_arith)
            requires
                width <= 4096,
                height <= 4096,
                0 <= width,
                0 <= height,
        ;
        let n: usize = width as usize * height as usize * 4;
        let mut pixels: Vec<u8> = Vec::new();
        let mut i: usize = 0;
        while i < n
            invariant
                i <= n,
                pixels@ =~= Seq::new(i as nat, |j: int| 0u8),
            decreases n - i,
        {
            pixels.push(0);
            i += 1;
        }
        TextRaster { pixels, width, height, line_count, any_coverage: false }
    }

    /// The raster of a text that leaves no mark: one empty pixel.
    pub fn blank() -> (r: Self)
        ensures
            r@.valid(),
            r@.width == 1,
            r@.height == 1,
            !r@.any_coverage,
            r@.line_count == 0,
            r@.pixels == seq![0u8, 0, 0, 0],
    {
        let r = TextRaster::empty(1, 1, 0);
        assert(r@.pixels =~= seq![0u8, 0, 0, 0]);
        r
    }

    /// Paints a block of a glyph. What lies outside is left out, and a pixel
    /// keeps the most that anything covers of it.
    pub fn paint(&mut self, b: Block)
        requires
            old(self)@.valid(),
            -0x4000_0000_0000 <= b.x <= 0x4000_0000_0000,
            -0x4000_0000_0000 <= b.y <= 0x4000_0000_0000,
        ensures
            final(self)@ == painted(b, old(self)@),
            final(self)@.valid(),
    {
        let ghost start = self@;
        let w: i64 = self.width as i64;
        let h: i64 = self.height as i64;
        let x0: i64 = if b.x > 0 {
            if b.x < w {
                b.x
            } else {
                w
            }
        } else {
            0
        };
        let right: i64 = b.x + b.width as i64;
        let x1: i64 = if right < w {
            if right > x0 {
                right
            } else {
                x0
            }
        } else {
            w
        };
        let y0: i64 = if b.y > 0 {
            if b.y < h {
                b.y
            } else {
                h
            }
        } else {
            0
        };
        let bottom: i64 = b.y + b.height as i64;
        let y1: i64 = if bottom < h {
            if bottom > y0 {
                bottom
            } else {
                y0
            }
        } else {
            h
        };
        let ghost total = start.width * start.height;
        proof {
            assert(total <= 4096 * 4096) by (nonlinear_arith)
                requires
                    total == start.width * start.height,
                    start.width <= 4096,
                    start.height <= 4096,
            ;
            assert(y0 * w + x0 >= 0) by (nonlinear_arith)
                requires
                    y0 >= 0,
                    w > 0,
                    x0 >= 0,
            ;
            assert forall|p: int| 0 <= p < y0 * w + x0 implies !lies_over(
                b,
                #[trigger] (p % (start.width as int)),
                p / (start.width as int),
            ) by {
                lemma_place_of(w as int, p);
                if p / (w as int) >= y0 {
                    assert(p / (w as int) == y0) by (nonlinear_arith)
                        requires
                            p == (p / (w as int)) * w + p % (w as int),
                            0 <= p % (w as int),
                            p < y0 * w + x0,
                            x0 <= w,
                            w > 0,
                            p / (w as int) >= y0,
                    ;
                    assert(p % (w as int) < x0) by (nonlinear_arith)
                        requires
                            p == (p / (w as int)) * w + p % (w as int),
                            p / (w as int) == y0,
                            p < y0 * w + x0,
                    ;
                }
            }
            lemma_done_skips(b, start, self.pixels@, 0, y0 * w + x0);
        }
        let mut y: i64 = y0;
        while y < y1
            invariant
                start.valid(),
                w == start.width,
                h == start.height,
                total == start.width * start.height,
                total <= 4096 * 4096,
                0 <= y0 <= y <= y1 <= h,
                0 <= x0 <= x1 <= w,
                x1 == w || b.x + b.width <= x1,
                x0 == 0 || x0 <= b.x,
                x0 < x1 ==> b.x <= x0 && x1 <= b.x + b.width,
                y0 < y1 ==> b.y <= y0 && y1 <= b.y + b.height,
                self.width == start.width,
                self.height == start.height,
                self.line_count == start.line_count,
                done_upto(b, start, self.pixels@, y * w + x0),
                self.any_coverage == (start.any_coverage || exists|p: int|
                    0 <= p < y * w + x0 && p < total && #[trigger] paints(b, start, p)),
                y * w + x0 >= 0,
            decreases y1 - y,
        {
            let mut x: i64 = x0;
            while x < x1
                invariant
                    start.valid(),
                    w == start.width,
                    h == start.height,
                    total == start.width * start.height,
                    total <= 4096 * 4096,
                    0 <= y0 <= y < y1 <= h,
                    0 <= x0 <= x <= x1 <= w,
                    b.x <= x0 || x0 >= x1,
                    x1 <= b.x + b.width || x0 >= x1,
                    b.y <= y0,
                    y1 <= b.y + b.height,
                    self.width == start.width,
                    self.height == start.height,
                    self.line_count == start.line_count,
                    done_upto(b, start, self.pixels@, y * w + x),
                    self.any_coverage == (start.any_coverage || exists|p: int|
                        0 <= p < y * w + x && p < total && #[trigger] paints(b, start, p)),
                    y * w + x >= 0,
                decreases x1 - x,
            {
                let ghost p = y * w + x;
                proof {
                    lemma_place(w as int, x as int, y as int);
                    assert((y + 1) * w <= h * w) by (nonlinear_arith)
                        requires
                            y + 1 <= h,
                            0 <= w,
                    ;
                    assert((y + 1) * w == y * w + w) by (nonlinear_arith);
                    assert(h * w == total) by (nonlinear_arith)
                        requires
                            total == start.width * start.height,
                            w == start.width,
                            h == start.height,
                    ;
                    assert(y * w <= 4096 * 4096) by (nonlinear_arith)
                        requires
                            0 <= y <= 4096,
                            0 <= w <= 4096,
                    ;
                    assert(start.pixels.len() == total * 4);
                }
                let at: usize = (y * w + x) as usize * 4;
                let ghost before = self.pixels@;
                assert(before[at + 3] == start.pixels[at + 3]);
                assert(paints(b, start, p) == (b.coverage > start.pixels[p * 4 + 3]));
                if b.coverage > self.pixels[at + 3] {
                    self.pixels.set(at, 255);
                    self.pixels.set(at + 1, 255);
                    self.pixels.set(at + 2, 255);
                    self.pixels.set(at + 3, b.coverage);
                    self.any_coverage = true;
                    assert(paints(b, start, p));
                }
                proof {
                    lemma_step(b, start, before, self.pixels@, p);
                }
                x += 1;
            }
            proof {
                assert forall|p: int| y * w + x1 <= p < (y + 1) * w + x0 implies !lies_over(
                    b,
                    #[trigger] (p % (start.width as int)),
                    p / (start.width as int),
                ) by {
                    lemma_gap(b, w as int, x0 as int, x1 as int, y as int, p);
                }
                assert((y + 1) * w == y * w + w) by (nonlinear_arith);
                lemma_done_skips(b, start, self.pixels@, y * w + x1, (y + 1) * w + x0);
                assert forall|p: int| y * w + x1 <= p < (y + 1) * w + x0 implies !#[trigger] paints(
                    b,
                    start,
                    p,
                ) by {
                    assert(!lies_over(b, p % (start.width as int), p / (start.width as int)));
                }
            }
            y += 1;
        }
        proof {
            assert forall|p: int| y1 * w + x0 <= p < total implies !lies_over(
                b,
                #[trigger] (p % (start.width as int)),
                p / (start.width as int),
            ) by {
                lemma_place_of(w as int, p);
                assert(p / (w as int) >= y1) by (nonlinear_arith)
                    requires
                        p == (p / (w as int)) * w + p % (w as int),
                        p % (w as int) < w,
                        p >= y1 * w + x0,
                        x0 >= 0,
                        w > 0,
                ;
                assert(p / (w as int) < h) by (nonlinear_arith)
                    requires
                        p == (p / (w as int)) * w + p % (w as int),
                        p % (w as int) >= 0,
                        p < w * h,
                        w > 0,
                ;
                if y0 >= y1 {
                    assert(y1 == h || bottom <= y0);
                }
            }
            if y1 * w + x0 <= total {
                lemma_done_skips(b, start, self.pixels@, y1 * w + x0, total);
            }
            assert forall|p: int| y1 * w + x0 <= p < total implies !#[trigger] paints(b, start, p) by {
                assert(!lies_over(b, p % (start.width as int), p / (start.width as int)));
            }
            assert(self.pixels@ =~= painted(b, start).pixels);
            assert((exists|p: int| 0 <= p < total && #[trigger] paints(b, start, p)) ==> (exists|
                p: int,
            |
                0 <= p < y1 * w + x0 && p < total && #[trigger] paints(b, start, p))) by {
                if exists|p: int| 0 <= p < total && #[trigger] paints(b, start, p) {
                    let p = choose|p: int| 0 <= p < total && #[trigger] paints(b, start, p);
                    assert(p < y1 * w + x0);
                }
            }
        }
    }
}

proof fn lemma_step(b: Block, r: RasterModel, before: Seq<u8>, now: Seq<u8>, p: int)
    requires
        r.valid(),
        0 <= p < r.width * r.height,
        done_upto(b, r, before, p),
        now.len() == before.len(),
        forall|i: int| 0 <= i < now.len() && i / 4 != p ==> #[trigger] now[i] == before[i],
        paints(b, r, p) ==> now[p * 4] == 255 && now[p * 4 + 1] == 255 && now[p * 4 + 2] == 255
            && now[p * 4 + 3] == b.coverage,
        !paints(b, r, p) ==> now == before,
    ensures
        done_upto(b, r, now, p + 1),
{
    assert forall|i: int| 0 <= i < now.len() implies #[trigger] now[i] == (if i / 4 < p + 1 {
        painted_byte(b, r, i)
    } else {
        r.pixels[i]
    }) by {
        if i / 4 == p {
            assert(i == p * 4 || i == p * 4 + 1 || i == p * 4 + 2 || i == p * 4 + 3);
            if !paints(b, r, p) {
                assert(now[i] == before[i]);
            }
        } else {
            assert(now[i] == before[i]);
        }
    }
}

/// Painting only adds: no pixel covers less than before.
pub proof fn law_painting_only_adds(b: Block, r: RasterModel, p: int)
    requires
        r.valid(),
        0 <= p < r.width * r.height,
    ensures
        painted(b, r).pixels[p * 4 + 3] >= r.pixels[p * 4 + 3],
        r.any_coverage ==> painted(b, r).any_coverage,
{
    assert((p * 4 + 3) / 4 == p);
}

/// Whether a text is set at all: it is not empty, and not all of it is markup.
pub fn sets_text(text: &str) -> (r: Option<String>)
    ensures
        match r {
            Some(t) => text@.len() > 0 && plain(text@).len() > 0 && t@ == plain(text@),
            None => text@.len() == 0 || plain(text@).len() == 0,
        },
{
    let n: usize = chars_of(text).len();
    if n == 0 {
        return None;
    }
    let shown = without_markup(text);
    let m: usize = chars_of(shown.as_str()).len();
    if m == 0 {
        None
    } else {
        Some(shown)
    }
}

/// Whether a text has to be set anew for new words.
pub fn retexts(current: &str, new_text: &str) -> (r: bool)
    ensures
        r == (current@ != new_text@),
{
    !same_text(new_text, current)
}

} // verus!
