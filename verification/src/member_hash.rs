//! Hashed member ids of DDS-XTypes 1.3 (7.3.1.2.1.1): the MD5 digest
//! (RFC 1321) of the member name, whose first four bytes, read
//! little-endian and masked to 28 bits, are the member id.

use vstd::prelude::*;
use vstd::string::StringSliceAdditionalSpecFns;

verus! {

/// The MD5 state: the four 32-bit words A, B, C, D.
pub type Md5State = (u32, u32, u32, u32);

/// The initial MD5 state.
pub open spec fn md5_init() -> Md5State {
    (0x67452301u32, 0xefcdab89u32, 0x98badcfeu32, 0x10325476u32)
}

/// The 64 additive constants of MD5, `floor(2^32 * |sin(i + 1)|)`.
pub open spec fn md5_constants() -> Seq<u32> {
    seq![
        0xd76aa478u32, 0xe8c7b756, 0x242070db, 0xc1bdceee, 0xf57c0faf, 0x4787c62a, 0xa8304613, 0xfd469501,
        0x698098d8, 0x8b44f7af, 0xffff5bb1, 0x895cd7be, 0x6b901122, 0xfd987193, 0xa679438e, 0x49b40821,
        0xf61e2562, 0xc040b340, 0x265e5a51, 0xe9b6c7aa, 0xd62f105d, 0x02441453, 0xd8a1e681, 0xe7d3fbc8,
        0x21e1cde6, 0xc33707d6, 0xf4d50d87, 0x455a14ed, 0xa9e3e905, 0xfcefa3f8, 0x676f02d9, 0x8d2a4c8a,
        0xfffa3942, 0x8771f681, 0x6d9d6122, 0xfde5380c, 0xa4beea44, 0x4bdecfa9, 0xf6bb4b60, 0xbebfbc70,
        0x289b7ec6, 0xeaa127fa, 0xd4ef3085, 0x04881d05, 0xd9d4d039, 0xe6db99e5, 0x1fa27cf8, 0xc4ac5665,
        0xf4292244, 0x432aff97, 0xab9423a7, 0xfc93a039, 0x655b59c3, 0x8f0ccc92, 0xffeff47d, 0x85845dd1,
        0x6fa87e4f, 0xfe2ce6e0, 0xa3014314, 0x4e0811a1, 0xf7537e82, 0xbd3af235, 0x2ad7d2bb, 0xeb86d391,
    ]
}

/// The left-rotation amount of round `i`.
pub open spec fn md5_shift(i: int) -> u32 {
    let r = i % 4;
    if i < 16 {
        if r == 0 { 7 } else if r == 1 { 12 } else if r == 2 { 17 } else { 22 }
    } else if i < 32 {
        if r == 0 { 5 } else if r == 1 { 9 } else if r == 2 { 14 } else { 20 }
    } else if i < 48 {
        if r == 0 { 4 } else if r == 1 { 11 } else if r == 2 { 16 } else { 23 }
    } else {
        if r == 0 { 6 } else if r == 1 { 10 } else if r == 2 { 15 } else { 21 }
    }
}

/// The message word used by round `i`.
pub open spec fn md5_word_index(i: int) -> int {
    if i < 16 {
        i
    } else if i < 32 {
        (5 * i + 1) % 16
    } else if i < 48 {
        (3 * i + 5) % 16
    } else {
        (7 * i) % 16
    }
}

/// The boolean function of round `i` (F, G, H or I).
pub open spec fn md5_mix(i: int, b: u32, c: u32, d: u32) -> u32 {
    if i < 16 {
        (b & c) | (!b & d)
    } else if i < 32 {
        (d & b) | (!d & c)
    } else if i < 48 {
        b ^ c ^ d
    } else {
        c ^ (b | !d)
    }
}

/// `x` rotated left by `n` bits, for `0 < n < 32`.
pub open spec fn rotl(x: u32, n: u32) -> u32 {
    (x << n) | (x >> ((32 - n) as u32))
}

/// One round of MD5 on the 16 words of a block.
pub open spec fn md5_step(st: Md5State, m: Seq<u32>, i: int) -> Md5State {
    let f = md5_mix(i, st.1, st.2, st.3).wrapping_add(st.0).wrapping_add(md5_constants()[i]).wrapping_add(
        m[md5_word_index(i)],
    );
    (st.3, st.1.wrapping_add(rotl(f, md5_shift(i))), st.1, st.2)
}

/// The first `n` rounds of MD5 on a block.
pub open spec fn md5_rounds(st: Md5State, m: Seq<u32>, n: nat) -> Md5State
    decreases n,
{
    if n == 0 {
        st
    } else {
        md5_step(md5_rounds(st, m, (n - 1) as nat), m, n - 1)
    }
}

/// The little-endian word of the four bytes at `k`.
pub open spec fn le_word(bytes: Seq<u8>, k: int) -> u32 {
    (bytes[k] as u32) | ((bytes[k + 1] as u32) << 8u32) | ((bytes[k + 2] as u32) << 16u32) | ((bytes[k + 3] as u32)
        << 24u32)
}

/// The 16 little-endian words of a 64-byte block.
pub open spec fn block_words(block: Seq<u8>) -> Seq<u32> {
    Seq::new(16, |j: int| le_word(block, 4 * j))
}

/// The state after one 64-byte block.
pub open spec fn md5_block(st: Md5State, block: Seq<u8>) -> Md5State {
    let r = md5_rounds(st, block_words(block), 64);
    (st.0.wrapping_add(r.0), st.1.wrapping_add(r.1), st.2.wrapping_add(r.2), st.3.wrapping_add(r.3))
}

/// The state after the first `n` 64-byte blocks of `bytes`.
pub open spec fn md5_blocks(bytes: Seq<u8>, n: nat) -> Md5State
    decreases n,
{
    if n == 0 {
        md5_init()
    } else {
        md5_block(md5_blocks(bytes, (n - 1) as nat), bytes.subrange(64 * (n - 1), (64 * n) as int))
    }
}

/// The number of zero bytes between the `0x80` byte and the length.
pub open spec fn md5_zero_count(len: nat) -> nat {
    if len % 64 < 56 { (55 - len % 64) as nat } else { (119 - len % 64) as nat }
}

/// The eight little-endian bytes of a `u64`.
pub open spec fn le_u64_bytes(n: u64) -> Seq<u8> {
    Seq::new(8, |i: int| ((n >> (8 * i) as u64) & 0xff) as u8)
}

/// The four little-endian bytes of a `u32`.
pub open spec fn le_u32_bytes(n: u32) -> Seq<u8> {
    seq![(n & 0xff) as u8, ((n >> 8u32) & 0xff) as u8, ((n >> 16u32) & 0xff) as u8, ((n >> 24u32) & 0xff) as u8]
}

/// The padded message: the bytes, `0x80`, zeros up to 56 modulo 64, then
/// the length in bits modulo 2^64, little-endian.
pub open spec fn md5_padded(msg: Seq<u8>) -> Seq<u8> {
    msg + seq![0x80u8] + Seq::new(md5_zero_count(msg.len()), |i: int| 0u8) + le_u64_bytes(
        ((msg.len() * 8) % 0x1_0000_0000_0000_0000) as u64,
    )
}

/// The MD5 digest of a byte string.
pub open spec fn md5(msg: Seq<u8>) -> Seq<u8> {
    let p = md5_padded(msg);
    let st = md5_blocks(p, p.len() / 64);
    le_u32_bytes(st.0) + le_u32_bytes(st.1) + le_u32_bytes(st.2) + le_u32_bytes(st.3)
}

/// The hashed member id of a name: the first four digest bytes, read
/// little-endian, masked to 28 bits.
pub open spec fn hashed_member_id(name: Seq<u8>) -> u32 {
    le_word(md5(name), 0) & 0x0fff_ffffu32
}

/// A hashed member id fits in 28 bits, below the ids reserved by
/// DDS-XTypes, and the digest it is read from has 16 bytes.
pub proof fn law_hashed_member_id_fits_28_bits(name: Seq<u8>)
    ensures
        md5(name).len() == 16,
        hashed_member_id(name) <= 0x0fff_ffff,
{
    let w = le_word(md5(name), 0);
    assert(w & 0x0fff_ffffu32 <= 0x0fff_ffffu32) by (bit_vector);
}

/// The additive constant of round `i`.
fn md5_constant(i: usize) -> (r: u32)
    requires
        i < 64,
    ensures
        r == md5_constants()[i as int],
{
    let k: [u32; 64] = [
        0xd76aa478u32, 0xe8c7b756, 0x242070db, 0xc1bdceee, 0xf57c0faf, 0x4787c62a, 0xa8304613, 0xfd469501,
        0x698098d8, 0x8b44f7af, 0xffff5bb1, 0x895cd7be, 0x6b901122, 0xfd987193, 0xa679438e, 0x49b40821,
        0xf61e2562, 0xc040b340, 0x265e5a51, 0xe9b6c7aa, 0xd62f105d, 0x02441453, 0xd8a1e681, 0xe7d3fbc8,
        0x21e1cde6, 0xc33707d6, 0xf4d50d87, 0x455a14ed, 0xa9e3e905, 0xfcefa3f8, 0x676f02d9, 0x8d2a4c8a,
        0xfffa3942, 0x8771f681, 0x6d9d6122, 0xfde5380c, 0xa4beea44, 0x4bdecfa9, 0xf6bb4b60, 0xbebfbc70,
        0x289b7ec6, 0xeaa127fa, 0xd4ef3085, 0x04881d05, 0xd9d4d039, 0xe6db99e5, 0x1fa27cf8, 0xc4ac5665,
        0xf4292244, 0x432aff97, 0xab9423a7, 0xfc93a039, 0x655b59c3, 0x8f0ccc92, 0xffeff47d, 0x85845dd1,
        0x6fa87e4f, 0xfe2ce6e0, 0xa3014314, 0x4e0811a1, 0xf7537e82, 0xbd3af235, 0x2ad7d2bb, 0xeb86d391,
    ];
    assert(k@ =~= md5_constants());
    k[i]
}


/// The boolean function of round `i`.
fn mix(i: usize, b: u32, c: u32, d: u32) -> (r: u32)
    ensures
        r == md5_mix(i as int, b, c, d),
{
    if i < 16 {
        (b & c) | (!b & d)
    } else if i < 32 {
        (d & b) | (!d & c)
    } else if i < 48 {
        b ^ c ^ d
    } else {
        c ^ (b | !d)
    }
}

/// The left-rotation amount of round `i`.
fn shift(i: usize) -> (r: u32)
    ensures
        r == md5_shift(i as int),
        4 <= r <= 23,
{
    let t: usize = i % 4;
    if i < 16 {
        if t == 0 { 7 } else if t == 1 { 12 } else if t == 2 { 17 } else { 22 }
    } else if i < 32 {
        if t == 0 { 5 } else if t == 1 { 9 } else if t == 2 { 14 } else { 20 }
    } else if i < 48 {
        if t == 0 { 4 } else if t == 1 { 11 } else if t == 2 { 16 } else { 23 }
    } else {
        if t == 0 { 6 } else if t == 1 { 10 } else if t == 2 { 15 } else { 21 }
    }
}

/// The message word used by round `i`.
fn word_index(i: usize) -> (r: usize)
    requires
        i < 64,
    ensures
        r == md5_word_index(i as int),
        r < 16,
{
    if i < 16 {
        i
    } else if i < 32 {
        (5 * i + 1) % 16
    } else if i < 48 {
        (3 * i + 5) % 16
    } else {
        (7 * i) % 16
    }
}

/// The state after the 64-byte block of `bytes` at `start`.
fn md5_block_at(st: Md5State, bytes: &[u8], start: usize) -> (r: Md5State)
    requires
        start + 64 <= bytes@.len(),
    ensures
        r == md5_block(st, bytes@.subrange(start as int, start + 64)),
{
    let ghost blk = bytes@.subrange(start as int, start + 64);
    let mut m: Vec<u32> = Vec::new();
    let mut j: usize = 0;
    while j < 16
        invariant
            j <= 16,
            start + 64 <= bytes@.len(),
            bytes@.len() == bytes.len(),
            blk == bytes@.subrange(start as int, start + 64),
            m@.len() == j,
            forall|t: int| 0 <= t < j ==> m@[t] == #[trigger] block_words(blk)[t],
        decreases 16 - j,
    {
        let k = start + 4 * j;
        let w = (bytes[k] as u32) | ((bytes[k + 1] as u32) << 8u32) | ((bytes[k + 2] as u32) << 16u32)
            | ((bytes[k + 3] as u32) << 24u32);
        assert(blk[4 * j as int] == bytes@[k as int]);
        assert(blk[4 * j + 1] == bytes@[k + 1]);
        assert(blk[4 * j + 2] == bytes@[k + 2]);
        assert(blk[4 * j + 3] == bytes@[k + 3]);
        m.push(w);
        j = j + 1;
    }
    assert(m@ =~= block_words(blk));
    let mut a = st.0;
    let mut b = st.1;
    let mut c = st.2;
    let mut d = st.3;
    let mut i: usize = 0;
    while i < 64
        invariant
            i <= 64,
            m@ == block_words(blk),
            (a, b, c, d) == md5_rounds(st, m@, i as nat),
        decreases 64 - i,
    {
        let f = mix(i, b, c, d).wrapping_add(a).wrapping_add(md5_constant(i)).wrapping_add(m[word_index(i)]);
        let s = shift(i);
        let rot = (f << s) | (f >> (32 - s));
        let nb = b.wrapping_add(rot);
        a = d;
        d = c;
        c = b;
        b = nb;
        i = i + 1;
    }
    (st.0.wrapping_add(a), st.1.wrapping_add(b), st.2.wrapping_add(c), st.3.wrapping_add(d))
}


/// The MD5 digest of a byte string (RFC 1321).
pub fn md5_digest(msg: &[u8]) -> (r: Vec<u8>)
    ensures
        r@ == md5(msg@),
{
    let ghost p = md5_padded(msg@);
    let len = msg.len();
    let full = len / 64;
    let mut st: Md5State = (0x67452301u32, 0xefcdab89u32, 0x98badcfeu32, 0x10325476u32);
    let mut c: usize = 0;
    assert(p.subrange(0, len as int) =~= msg@);
    while c < full
        invariant
            c <= full,
            full == len / 64,
            len == msg@.len(),
            p == md5_padded(msg@),
            st == md5_blocks(p, c as nat),
        decreases full - c,
    {
        proof {
            assert(p.subrange(64 * c, 64 * c + 64) =~= msg@.subrange(64 * c, 64 * c + 64));
            assert(md5_blocks(p, (c + 1) as nat) == md5_block(md5_blocks(p, c as nat), p.subrange(64 * c, 64 * (c + 1))));
        }
        st = md5_block_at(st, msg, 64 * c);
        c = c + 1;
    }
    let mut tail: Vec<u8> = Vec::new();
    let mut k: usize = 64 * full;
    while k < len
        invariant
            64 * full <= k <= len,
            len == msg@.len(),
            tail@ == msg@.subrange(64 * full, k as int),
        decreases len - k,
    {
        tail.push(msg[k]);
        k = k + 1;
    }
    tail.push(0x80);
    let rem = len % 64;
    let z: usize = if rem < 56 { 55 - rem } else { 119 - rem };
    let mut t: usize = 0;
    while t < z
        invariant
            t <= z,
            z < 64,
            tail@ == msg@.subrange(64 * full, len as int) + seq![0x80u8] + Seq::new(t as nat, |i: int| 0u8),
        decreases z - t,
    {
        tail.push(0);
        t = t + 1;
        assert(Seq::new(t as nat, |i: int| 0u8) =~= Seq::new((t - 1) as nat, |i: int| 0u8).push(0u8));
    }
    let bits: u64 = (len as u64).wrapping_mul(8);
    let ghost zeros = tail@;
    let mut b: usize = 0;
    while b < 8
        invariant
            b <= 8,
            tail@ == zeros + le_u64_bytes(bits).take(b as int),
        decreases 8 - b,
    {
        tail.push(((bits >> ((8 * b) as u64)) & 0xff) as u8);
        b = b + 1;
        assert(le_u64_bytes(bits).take(b as int) =~= le_u64_bytes(bits).take(b - 1).push(
            ((bits >> ((8 * (b - 1)) as u64)) & 0xff) as u8,
        ));
    }
    proof {
        assert(le_u64_bytes(bits).take(8) =~= le_u64_bytes(bits));
        assert(md5_zero_count(len as nat) == z);
        assert(bits == ((len * 8) % 0x1_0000_0000_0000_0000) as u64);
        assert(tail@ =~= p.subrange(64 * full, p.len() as int));
        assert(tail@.len() == 64 || tail@.len() == 128);
        assert(p.len() == 64 * full + tail@.len());
    }
    let blocks = tail.len() / 64;
    let mut j: usize = 0;
    while j < blocks
        invariant
            j <= blocks,
            blocks <= 2,
            blocks == tail@.len() / 64,
            tail@.len() == 64 * blocks,
            tail@ == p.subrange(64 * full, p.len() as int),
            p.len() == 64 * full + tail@.len(),
            st == md5_blocks(p, (full + j) as nat),
        decreases blocks - j,
    {
        proof {
            let n = full + j;
            assert(tail@.subrange(64 * j, 64 * j + 64) =~= p.subrange(64 * n, 64 * (n + 1)));
            assert(md5_blocks(p, (n + 1) as nat) == md5_block(md5_blocks(p, n as nat), p.subrange(64 * n, 64 * (n + 1))));
        }
        st = md5_block_at(st, tail.as_slice(), 64 * j);
        j = j + 1;
    }
    let mut out: Vec<u8> = Vec::new();
    let words = [st.0, st.1, st.2, st.3];
    let mut w: usize = 0;
    assert(p.len() / 64 == full + blocks);
    while w < 4
        invariant
            w <= 4,
            words@ == seq![st.0, st.1, st.2, st.3],
            out@ == digest_prefix(st, w as nat),
        decreases 4 - w,
    {
        let x = words[w];
        out.push((x & 0xff) as u8);
        out.push(((x >> 8u32) & 0xff) as u8);
        out.push(((x >> 16u32) & 0xff) as u8);
        out.push(((x >> 24u32) & 0xff) as u8);
        w = w + 1;
    }
    proof {
        reveal_with_fuel(digest_prefix, 5);
        assert(j == blocks);
        assert(st == md5_blocks(p, p.len() / 64));
        assert(out@ =~= md5(msg@));
    }
    out
}

/// The little-endian bytes of the first `n` state words.
pub open spec fn digest_prefix(st: Md5State, n: nat) -> Seq<u8>
    decreases n,
{
    if n == 0 {
        Seq::empty()
    } else {
        let x = seq![st.0, st.1, st.2, st.3][n - 1];
        digest_prefix(st, (n - 1) as nat) + le_u32_bytes(x)
    }
}

/// The hashed member id of a member name (DDS-XTypes 1.3, 7.3.1.2.1.1).
pub fn member_name_hash(name: &str) -> (r: u32)
    ensures
        r == hashed_member_id(name.spec_bytes()),
{
    let d = md5_digest(name.as_bytes());
    let w = (d[0] as u32) | ((d[1] as u32) << 8u32) | ((d[2] as u32) << 16u32) | ((d[3] as u32) << 24u32);
    w & 0x0fff_ffffu32
}

} // verus!
