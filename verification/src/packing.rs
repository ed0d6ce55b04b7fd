//! The bytes of the block of values that a shader is given.
use vstd::prelude::*;

use crate::table::TextMap;
use crate::uniforms::{
    builtin_numbers, Builtins, GlType, GlobalsLayout, LayoutModel, Member, MemberModel,
};

verus! {

/// One byte of a number, the lowest first.
pub open spec fn byte_of(v: u32, i: int) -> u8 {
    if i == 0 {
        (v % 256) as u8
    } else if i == 1 {
        (v / 256 % 256) as u8
    } else if i == 2 {
        (v / 65536 % 256) as u8
    } else {
        (v / 16777216) as u8
    }
}

/// The number that four bytes are.
pub open spec fn word_at(bytes: Seq<u8>, at: int) -> int {
    bytes[at] + bytes[at + 1] * 256 + bytes[at + 2] * 65536 + bytes[at + 3] * 16777216
}

/// Bytes with a number in them; one that does not fit is left out.
pub open spec fn put(bytes: Seq<u8>, at: int, v: u32) -> Seq<u8> {
    if at + 4 <= bytes.len() {
        bytes.update(at, byte_of(v, 0)).update(at + 1, byte_of(v, 1)).update(
            at + 2,
            byte_of(v, 2),
        ).update(at + 3, byte_of(v, 3))
    } else {
        bytes
    }
}

/// Where a number of a value stands: a column of a matrix of three, or a
/// member of an array, takes 16 bytes; other numbers take four.
pub open spec fn place_in(ty: GlType, offset: int, j: int) -> int {
    match ty {
        GlType::Mat3 => offset + j / 3 * 16 + j % 3 * 4,
        GlType::FloatArray(n) => offset + j * 16,
        _ => offset + j * 4,
    }
}

/// How many numbers of a value are written.
pub open spec fn written_count(ty: GlType, given: nat) -> int {
    match ty {
        GlType::Mat3 => 9,
        GlType::FloatArray(n) => if n < given {
            n as int
        } else {
            given as int
        },
        _ => given as int,
    }
}

/// A number of a value, zero where it is not given.
pub open spec fn number_at(numbers: Seq<u32>, j: int) -> u32 {
    if j < numbers.len() {
        numbers[j]
    } else {
        0
    }
}

/// Bytes with the first `k` numbers of a value written into them.
pub open spec fn with_numbers(
    bytes: Seq<u8>,
    ty: GlType,
    offset: int,
    numbers: Seq<u32>,
    k: int,
) -> Seq<u8>
    decreases k,
{
    if k <= 0 {
        bytes
    } else {
        put(
            with_numbers(bytes, ty, offset, numbers, k - 1),
            place_in(ty, offset, k - 1),
            number_at(numbers, k - 1),
        )
    }
}

/// Bytes with a value written into them.
pub open spec fn with_member(bytes: Seq<u8>, m: MemberModel, numbers: Seq<u32>) -> Seq<u8> {
    with_numbers(bytes, m.ty, m.offset as int, numbers, written_count(m.ty, numbers.len()))
}

/// The numbers of a value: those that every shader has it by, or else those of
/// the shader's own parameter.
pub open spec fn numbers_for(
    b: Builtins,
    params: Map<Seq<char>, Seq<u32>>,
    name: Seq<char>,
) -> Option<Seq<u32>> {
    match builtin_numbers(b, name) {
        Some(n) => Some(n),
        None => if params.contains_key(name) {
            Some(params[name])
        } else {
            None
        },
    }
}

/// The block with the first `k` values written; what has no numbers is zero.
pub open spec fn packed_upto(
    layout: LayoutModel,
    b: Builtins,
    params: Map<Seq<char>, Seq<u32>>,
    k: int,
) -> Seq<u8>
    decreases k,
{
    if k <= 0 {
        Seq::new(layout.size as nat, |i: int| 0u8)
    } else {
        let before = packed_upto(layout, b, params, k - 1);
        let m = layout.members[k - 1];
        match numbers_for(b, params, m.name) {
            Some(n) => with_member(before, m, n),
            None => before,
        }
    }
}

/// Numbers as the bits of singles.
#[derive(Debug)]
pub struct Bits {
    pub values: Vec<u32>,
}

impl View for Bits {
    type V = Seq<u32>;

    open spec fn view(&self) -> Seq<u32> {
        self.values@
    }
}

fn put_number(bytes: &mut Vec<u8>, at: usize, v: u32)
    requires
        at <= usize::MAX - 4,
    ensures
        final(bytes)@ == put(old(bytes)@, at as int, v),
{
    if at + 4 <= bytes.len() {
        bytes.set(at, (v % 256) as u8);
        bytes.set(at + 1, (v / 256 % 256) as u8);
        bytes.set(at + 2, (v / 65536 % 256) as u8);
        bytes.set(at + 3, (v / 16777216) as u8);
    }
}

/// The most that an offset or a count of numbers is here.
pub const REACH: usize = usize::MAX / 4;

fn write_member(bytes: &mut Vec<u8>, m: &Member, numbers: &Vec<u32>)
    requires
        m.offset <= REACH,
        numbers@.len() <= REACH / 32,
    ensures
        final(bytes)@ == with_member(old(bytes)@, m@, numbers@),
{
    let ghost start = bytes@;
    let count: usize = match m.ty {
        GlType::Mat3 => 9,
        GlType::FloatArray(n) => if n < numbers.len() {
            n
        } else {
            numbers.len()
        },
        _ => numbers.len(),
    };
    let mut j: usize = 0;
    while j < count
        invariant
            j <= count,
            count <= REACH / 32 || count <= 9,
            m.offset <= REACH,
            count == written_count(m.ty, numbers@.len()),
            bytes@ == with_numbers(start, m.ty, m.offset as int, numbers@, j as int),
        decreases count - j,
    {
        let at: usize = match m.ty {
            GlType::Mat3 => m.offset + j / 3 * 16 + j % 3 * 4,
            GlType::FloatArray(_) => m.offset + j * 16,
            _ => m.offset + j * 4,
        };
        let v: u32 = if j < numbers.len() {
            numbers[j]
        } else {
            0
        };
        put_number(bytes, at, v);
        j += 1;
    }
}

/// Whether a layout and parameters are of a size that can be packed.
pub open spec fn packable(layout: LayoutModel, params: Map<Seq<char>, Seq<u32>>) -> bool {
    &&& forall|i: int| 0 <= i < layout.members.len() ==> (#[trigger] layout.members[i]).offset <= REACH
    &&& forall|k: Seq<char>| #[trigger] params.contains_key(k) ==> params[k].len() <= REACH / 32
}

proof fn lemma_builtin_numbers_are_few(b: Builtins, name: Seq<char>)
    ensures
        builtin_numbers(b, name) matches Some(n) ==> n.len() <= 64,
{
}

/// The block of values that a shader is given.
pub fn pack_globals(layout: &GlobalsLayout, builtins: &Builtins, params: &TextMap<Bits>) -> (out:
    Vec<u8>)
    requires
        packable(layout@, params@),
    ensures
        out@ == packed_upto(layout@, *builtins, params@, layout@.members.len() as int),
{
    let mut out: Vec<u8> = Vec::new();
    let mut n: usize = 0;
    while n < layout.size
        invariant
            n <= layout.size,
            out@ =~= Seq::new(n as nat, |i: int| 0u8),
        decreases layout.size - n,
    {
        out.push(0);
        n += 1;
    }
    let ghost all = layout@;
    let mut i: usize = 0;
    while i < layout.members.len()
        invariant
            i <= layout.members@.len(),
            all == layout@,
            packable(all, params@),
            out@ == packed_upto(all, *builtins, params@, i as int),
        decreases layout.members@.len() - i,
    {
        let m = &layout.members[i];
        assert(all.members[i as int] == m@);
        proof {
            lemma_builtin_numbers_are_few(*builtins, m@.name);
        }
        match builtins.components_into(m.name.as_str()) {
            Some(numbers) => {
                write_member(&mut out, m, &numbers);
            },
            None => {
                if let Some(v) = params.get(m.name.as_str()) {
                    write_member(&mut out, m, &v.values);
                }
            },
        }
        i += 1;
    }
    out
}

proof fn lemma_put_reads_back(bytes: Seq<u8>, at: int, v: u32)
    requires
        0 <= at,
        at + 4 <= bytes.len(),
    ensures
        word_at(put(bytes, at, v), at) == v,
{
    let a = v as int / 256;
    let b = v as int / 65536;
    let c = v as int / 16777216;
    assert(a / 256 == b);
    assert(b / 256 == c);
    assert(v as int == a * 256 + v as int % 256);
    assert(a == b * 256 + a % 256);
    assert(b == c * 256 + b % 256);
}

proof fn lemma_put_keeps(bytes: Seq<u8>, at: int, v: u32, other: int)
    requires
        0 <= at,
        0 <= other,
        other + 4 <= bytes.len(),
        other + 4 <= at || at + 4 <= other,
    ensures
        word_at(put(bytes, at, v), other) == word_at(bytes, other),
        put(bytes, at, v).len() == bytes.len(),
{
}

proof fn lemma_numbers_len(bytes: Seq<u8>, ty: GlType, offset: int, numbers: Seq<u32>, k: int)
    requires
        0 <= offset,
    ensures
        with_numbers(bytes, ty, offset, numbers, k).len() == bytes.len(),
    decreases k,
{
    if k > 0 {
        lemma_numbers_len(bytes, ty, offset, numbers, k - 1);
        assert(place_in(ty, offset, k - 1) >= 0);
    }
}

/// Every number of a value can be read back from the bytes that the value was
/// written into, where these hold the place it goes to.
pub proof fn law_written_numbers_read_back(
    bytes: Seq<u8>,
    ty: GlType,
    offset: int,
    numbers: Seq<u32>,
    k: int,
    j: int,
)
    requires
        0 <= offset,
        0 <= j < k,
        place_in(ty, offset, j) + 4 <= bytes.len(),
    ensures
        word_at(with_numbers(bytes, ty, offset, numbers, k), place_in(ty, offset, j))
            == number_at(numbers, j),
    decreases k,
{
    lemma_numbers_len(bytes, ty, offset, numbers, k - 1);
    let before = with_numbers(bytes, ty, offset, numbers, k - 1);
    let at = place_in(ty, offset, j);
    if j == k - 1 {
        lemma_put_reads_back(before, at, number_at(numbers, j));
    } else {
        law_written_numbers_read_back(bytes, ty, offset, numbers, k - 1, j);
        let last = place_in(ty, offset, k - 1);
        if ty == GlType::Mat3 {
            assert(at + 4 <= last);
        }
        lemma_put_keeps(before, last, number_at(numbers, k - 1), at);
    }
}

proof fn lemma_numbers_keep(
    bytes: Seq<u8>,
    ty: GlType,
    offset: int,
    numbers: Seq<u32>,
    k: int,
    at: int,
)
    requires
        0 <= at,
        at + 4 <= offset,
        at + 4 <= bytes.len(),
    ensures
        word_at(with_numbers(bytes, ty, offset, numbers, k), at) == word_at(bytes, at),
    decreases k,
{
    if k > 0 {
        lemma_numbers_keep(bytes, ty, offset, numbers, k - 1, at);
        lemma_numbers_len(bytes, ty, offset, numbers, k - 1);
        lemma_put_keeps(
            with_numbers(bytes, ty, offset, numbers, k - 1),
            place_in(ty, offset, k - 1),
            number_at(numbers, k - 1),
            at,
        );
    }
}

proof fn lemma_packed_len(
    layout: LayoutModel,
    b: Builtins,
    params: Map<Seq<char>, Seq<u32>>,
    k: int,
)
    ensures
        packed_upto(layout, b, params, k).len() == layout.size,
    decreases k,
{
    if k > 0 {
        lemma_packed_len(layout, b, params, k - 1);
        let m = layout.members[k - 1];
        if let Some(n) = numbers_for(b, params, m.name) {
            lemma_numbers_len(
                packed_upto(layout, b, params, k - 1),
                m.ty,
                m.offset as int,
                n,
                written_count(m.ty, n.len()),
            );
        }
    }
}

/// A shader reads what it was given: in a packed block, number `j` of value
/// `i` stands at its place, provided that the values that follow begin behind
/// that place and the block reaches that far. Layouts are built so.
pub proof fn law_packed_values_read_back(
    layout: LayoutModel,
    b: Builtins,
    params: Map<Seq<char>, Seq<u32>>,
    k: int,
    i: int,
    j: int,
)
    requires
        0 <= i < k <= layout.members.len(),
        numbers_for(b, params, layout.members[i].name) is Some,
        0 <= j < written_count(
            layout.members[i].ty,
            numbers_for(b, params, layout.members[i].name)->0.len(),
        ),
        place_in(layout.members[i].ty, layout.members[i].offset as int, j) + 4 <= layout.size,
        forall|l: int|
            i < l < k ==> place_in(layout.members[i].ty, layout.members[i].offset as int, j) + 4
                <= (#[trigger] layout.members[l]).offset,
    ensures
        word_at(
            packed_upto(layout, b, params, k),
            place_in(layout.members[i].ty, layout.members[i].offset as int, j),
        ) == number_at(numbers_for(b, params, layout.members[i].name)->0, j),
    decreases k,
{
    let m = layout.members[i];
    let n = numbers_for(b, params, m.name)->0;
    let at = place_in(m.ty, m.offset as int, j);
    lemma_packed_len(layout, b, params, k - 1);
    let before = packed_upto(layout, b, params, k - 1);
    if i == k - 1 {
        law_written_numbers_read_back(
            before,
            m.ty,
            m.offset as int,
            n,
            written_count(m.ty, n.len()),
            j,
        );
    } else {
        law_packed_values_read_back(layout, b, params, k - 1, i, j);
        let last = layout.members[k - 1];
        assert(at + 4 <= last.offset);
        if let Some(x) = numbers_for(b, params, last.name) {
            lemma_numbers_keep(
                before,
                last.ty,
                last.offset as int,
                x,
                written_count(last.ty, x.len()),
                at,
            );
        }
    }
}

} // verus!
