//! The keys under which built scenes and unpacked videos are kept.
use vstd::prelude::*;

verus! {

/// What `blake3::hash` makes of bytes.
pub uninterp spec fn blake3_hash(bytes: Seq<u8>) -> [u8; 32];

/// `blake3::hash`: the 32 bytes that it makes of bytes. They depend on the
/// bytes alone; the contract names them and says nothing more.
#[verifier::external_body]
fn hash(bytes: &[u8]) -> (r: [u8; 32])
    ensures
        r == blake3_hash(bytes@),
{
    *blake3::hash(bytes).as_bytes()
}

/// The bytes that every key begins with.
pub open spec fn descriptor_tag() -> Seq<u8> {
    seq![107u8, 105, 114, 105, 101, 45, 115, 99, 101, 110, 101, 45, 98, 117, 110, 100, 108, 101, 45, 115, 114, 99, 2]
}

/// A length as four bytes, the lowest first; a longer one is the longest.
pub open spec fn length_bytes(n: nat) -> Seq<u8> {
    let m = if n > u32::MAX {
        u32::MAX as nat
    } else {
        n
    };
    seq![
        (m % 256) as u8,
        (m / 256 % 256) as u8,
        (m / 65536 % 256) as u8,
        (m / 16777216) as u8,
    ]
}

/// Bytes behind their length.
pub open spec fn with_length(bytes: Seq<u8>) -> Seq<u8> {
    length_bytes(bytes.len()) + bytes
}

/// The part of a key that stands for the project file.
pub open spec fn project_part(project: Option<Seq<u8>>) -> Seq<u8> {
    match project {
        Some(b) => seq![1u8] + blake3_hash(b)@,
        None => seq![0u8],
    }
}

/// The part of a key that stands for the folder of assets.
pub open spec fn assets_part(assets: Option<Seq<u8>>) -> Seq<u8> {
    match assets {
        Some(b) => seq![1u8] + with_length(b),
        None => seq![0u8],
    }
}

/// The key of a scene: what stands for its package, for its project file, and
/// for the folder of assets.
pub open spec fn bundle_key(pkg: Seq<u8>, project: Option<Seq<u8>>, assets: Option<Seq<u8>>) -> Seq<
    u8,
> {
    descriptor_tag() + blake3_hash(pkg)@ + project_part(project) + assets_part(assets)
}

/// The bytes that an optional slice holds.
pub open spec fn bytes_in(b: Option<&[u8]>) -> Option<Seq<u8>> {
    match b {
        Some(s) => Some(s@),
        None => None,
    }
}

fn append(out: &mut Vec<u8>, bytes: &[u8])
    ensures
        final(out)@ == old(out)@ + bytes@,
{
    let ghost start = out@;
    let mut i: usize = 0;
    assert(start + bytes@.take(0) =~= start);
    while i < bytes.len()
        invariant
            i <= bytes@.len(),
            out@ == start + bytes@.take(i as int),
        decreases bytes@.len() - i,
    {
        assert((start + bytes@.take(i as int)).push(bytes@[i as int]) =~= start + bytes@.take(
            i + 1,
        ));
        out.push(bytes[i]);
        i += 1;
    }
    assert(bytes@.take(bytes@.len() as int) =~= bytes@);
}

/// Appends bytes behind their length.
pub fn push_bytes(out: &mut Vec<u8>, bytes: &[u8])
    ensures
        final(out)@ == old(out)@ + with_length(bytes@),
{
    let ghost start = out@;
    let n: usize = bytes.len();
    let m: u32 = if n > 4294967295 {
        u32::MAX
    } else {
        n as u32
    };
    out.push((m % 256) as u8);
    out.push((m / 256 % 256) as u8);
    out.push((m / 65536 % 256) as u8);
    out.push((m / 16777216) as u8);
    assert(out@ =~= start + length_bytes(bytes@.len()));
    append(out, bytes);
    assert(start + length_bytes(bytes@.len()) + bytes@ =~= start + with_length(bytes@));
}

/// The key of a scene. The folder of assets is given by the bytes of its path.
pub fn bundle_source(
    pkg_bytes: &[u8],
    project_bytes: Option<&[u8]>,
    assets_dir: Option<&[u8]>,
) -> (src: Vec<u8>)
    ensures
        src@ == bundle_key(pkg_bytes@, bytes_in(project_bytes), bytes_in(assets_dir)),
{
    let mut src: Vec<u8> = vec![107u8, 105, 114, 105, 101, 45, 115, 99, 101, 110, 101, 45, 98, 117, 110, 100, 108, 101, 45, 115, 114, 99, 2];
    assert(src@ =~= descriptor_tag());
    let h = hash(pkg_bytes);
    append(&mut src, vstd::array::array_as_slice(&h));
    let ghost head = src@;
    match project_bytes {
        Some(bytes) => {
            src.push(1);
            let p = hash(bytes);
            append(&mut src, vstd::array::array_as_slice(&p));
        },
        None => {
            src.push(0);
        },
    }
    assert(src@ =~= head + project_part(bytes_in(project_bytes)));
    let ghost middle = src@;
    match assets_dir {
        Some(bytes) => {
            src.push(1);
            push_bytes(&mut src, bytes);
        },
        None => {
            src.push(0);
        },
    }
    assert(src@ =~= middle + assets_part(bytes_in(assets_dir)));
    src
}

/// A key tells scenes apart: two scenes with one key have packages with one
/// hash, both or neither have a project file, of one hash, and both or neither
/// have a folder of assets, with one path.
pub proof fn law_keys_tell_scenes_apart(
    pkg1: Seq<u8>,
    project1: Option<Seq<u8>>,
    assets1: Option<Seq<u8>>,
    pkg2: Seq<u8>,
    project2: Option<Seq<u8>>,
    assets2: Option<Seq<u8>>,
)
    requires
        bundle_key(pkg1, project1, assets1) == bundle_key(pkg2, project2, assets2),
    ensures
        blake3_hash(pkg1)@ == blake3_hash(pkg2)@,
        match (project1, project2) {
            (Some(a), Some(b)) => blake3_hash(a)@ == blake3_hash(b)@,
            (None, None) => true,
            _ => false,
        },
        assets1 == assets2,
{
    let k1 = bundle_key(pkg1, project1, assets1);
    let k2 = bundle_key(pkg2, project2, assets2);
    let t = descriptor_tag().len() as int;
    assert(blake3_hash(pkg1)@ =~= k1.subrange(t, t + 32));
    assert(blake3_hash(pkg2)@ =~= k2.subrange(t, t + 32));
    assert(k1[t + 32] == project_part(project1)[0]);
    assert(k2[t + 32] == project_part(project2)[0]);
    let p = t + 33;
    let a = match project1 {
        Some(_) => p + 32,
        None => p,
    };
    if let (Some(x), Some(y)) = (project1, project2) {
        assert(blake3_hash(x)@ =~= k1.subrange(p, p + 32));
        assert(blake3_hash(y)@ =~= k2.subrange(p, p + 32));
    }
    assert(k1[a] == assets_part(assets1)[0]);
    assert(k2[a] == assets_part(assets2)[0]);
    if let (Some(x), Some(y)) = (assets1, assets2) {
        assert(x =~= k1.skip(a + 5));
        assert(y =~= k2.skip(a + 5));
    }
}

/// What the key of a video starts from.
pub const FNV_START: u64 = 0xcbf2_9ce4_8422_2325;

/// What the key of a video is multiplied by for each byte.
pub const FNV_PRIME: u64 = 0x0000_0100_0000_01b3;

/// The key that the first `k` bytes of a video give: for each byte its bits
/// are flipped in, and the key is multiplied, as far as 64 bits hold it.
pub open spec fn fnv(bytes: Seq<u8>, k: int) -> u64
    decreases k,
{
    if k <= 0 {
        FNV_START
    } else {
        (((fnv(bytes, k - 1) ^ (bytes[k - 1] as u64)) * FNV_PRIME) % 0x1_0000_0000_0000_0000) as u64
    }
}

/// The key of a video.
pub fn video_key(payload: &[u8]) -> (key: u64)
    ensures
        key == fnv(payload@, payload@.len() as int),
{
    let mut key: u64 = FNV_START;
    let mut i: usize = 0;
    while i < payload.len()
        invariant
            i <= payload@.len(),
            key == fnv(payload@, i as int),
        decreases payload@.len() - i,
    {
        let mixed: u64 = key ^ payload[i] as u64;
        assert(mixed * FNV_PRIME <= 0xffff_ffff_ffff_ffff * 0x0000_0100_0000_01b3)
            by (nonlinear_arith)
            requires
                mixed <= 0xffff_ffff_ffff_ffff,
                FNV_PRIME == 0x0000_0100_0000_01b3,
        ;
        let wide: u128 = mixed as u128 * FNV_PRIME as u128;
        key = (wide % 0x1_0000_0000_0000_0000) as u64;
        i += 1;
    }
    key
}

/// The character of a hexadecimal digit.
pub open spec fn hex_char(d: int) -> char {
    if d < 10 {
        (48 + d) as char
    } else {
        (87 + d) as char
    }
}

/// The lowest `k` hexadecimal digits of a number.
pub open spec fn hex_digits(n: nat, k: nat) -> Seq<char>
    decreases k,
{
    if k == 0 {
        Seq::empty()
    } else {
        hex_digits(n / 16, (k - 1) as nat).push(hex_char((n % 16) as int))
    }
}

fn hex_of(d: u8) -> (r: char)
    requires
        d < 16,
    ensures
        r == hex_char(d as int),
{
    if d < 10 {
        (48 + d) as char
    } else {
        (87 + d) as char
    }
}

fn hex_text(n: u64, k: u32) -> (r: String)
    ensures
        r@ == hex_digits(n as nat, k as nat),
    decreases k,
{
    if k == 0 {
        String::new()
    } else {
        let mut out = hex_text(n / 16, k - 1);
        out.push(hex_of((n % 16) as u8));
        out
    }
}

/// The name of the file that a video is unpacked to.
pub fn video_file_name(payload: &[u8]) -> (r: String)
    ensures
        r@ == "kirie-vtex-"@ + hex_digits(fnv(payload@, payload@.len() as int) as nat, 16) + ".mp4"@,
{
    let digits = hex_text(video_key(payload), 16);
    let a = crate::strings::join2("kirie-vtex-", digits.as_str());
    crate::strings::join2(a.as_str(), ".mp4")
}

} // verus!
