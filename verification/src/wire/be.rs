//! Big-endian integers of 2, 4, 6 and 8 bytes.

use vstd::prelude::*;

verus! {

/// The number that two bytes spell, most significant byte first.
pub open spec fn be16(s: Seq<u8>) -> int
    recommends
        s.len() == 2,
{
    s[0] as int * 0x100 + s[1] as int
}

/// The number that four bytes spell, most significant byte first.
pub open spec fn be32(s: Seq<u8>) -> int
    recommends
        s.len() == 4,
{
    s[0] as int * 0x100_0000 + s[1] as int * 0x1_0000 + s[2] as int * 0x100 + s[3] as int
}

/// The number that six bytes spell, most significant byte first.
pub open spec fn be48(s: Seq<u8>) -> int
    recommends
        s.len() == 6,
{
    s[0] as int * 0x100_0000_0000 + s[1] as int * 0x1_0000_0000 + s[2] as int * 0x100_0000
        + s[3] as int * 0x1_0000 + s[4] as int * 0x100 + s[5] as int
}

/// The number that eight bytes spell, most significant byte first.
pub open spec fn be64(s: Seq<u8>) -> int
    recommends
        s.len() == 8,
{
    s[0] as int * 0x100_0000_0000_0000 + s[1] as int * 0x1_0000_0000_0000 + s[2] as int
        * 0x100_0000_0000 + s[3] as int * 0x1_0000_0000 + s[4] as int * 0x100_0000 + s[5] as int
        * 0x1_0000 + s[6] as int * 0x100 + s[7] as int
}

/// The two bytes that spell `x`, most significant first.
pub open spec fn be16_bytes(x: u16) -> Seq<u8> {
    seq![(x / 0x100) as u8, (x % 0x100) as u8]
}

/// The four bytes that spell `x`, most significant first.
pub open spec fn be32_bytes(x: u32) -> Seq<u8> {
    seq![
        (x / 0x100_0000) as u8,
        (x / 0x1_0000 % 0x100) as u8,
        (x / 0x100 % 0x100) as u8,
        (x % 0x100) as u8,
    ]
}

/// The six bytes that spell the low 48 bits of `x`, most significant first.
pub open spec fn be48_bytes(x: u64) -> Seq<u8> {
    seq![
        (x / 0x100_0000_0000 % 0x100) as u8,
        (x / 0x1_0000_0000 % 0x100) as u8,
        (x / 0x100_0000 % 0x100) as u8,
        (x / 0x1_0000 % 0x100) as u8,
        (x / 0x100 % 0x100) as u8,
        (x % 0x100) as u8,
    ]
}

/// The eight bytes that spell `x`, most significant first.
pub open spec fn be64_bytes(x: u64) -> Seq<u8> {
    seq![
        (x / 0x100_0000_0000_0000) as u8,
        (x / 0x1_0000_0000_0000 % 0x100) as u8,
        (x / 0x100_0000_0000 % 0x100) as u8,
        (x / 0x1_0000_0000 % 0x100) as u8,
        (x / 0x100_0000 % 0x100) as u8,
        (x / 0x1_0000 % 0x100) as u8,
        (x / 0x100 % 0x100) as u8,
        (x % 0x100) as u8,
    ]
}

/// Two bytes, most significant first, that spell `x`.
pub fn u16_to_be(x: u16) -> (out: [u8; 2])
    ensures
        out@ == be16_bytes(x),
        be16(out@) == x,
{
    let out = [(x / 0x100) as u8, (x % 0x100) as u8];
    assert(out@ =~= be16_bytes(x));
    out
}

/// Reads back what `u16_to_be` wrote.
pub fn u16_from_be(b: [u8; 2]) -> (x: u16)
    ensures
        x == be16(b@),
{
    b[0] as u16 * 0x100 + b[1] as u16
}

/// The low 48 bits of `value` as six bytes, most significant first: bytes 2 to 8
/// of the eight-byte big-endian form. The upper 16 bits are dropped.
pub fn encode_u48(value: u64) -> (out: [u8; 6])
    ensures
        out@ == be48_bytes(value),
        be48(out@) == value % 0x1_0000_0000_0000,
{
    let out = [
        (value / 0x100_0000_0000 % 0x100) as u8,
        (value / 0x1_0000_0000 % 0x100) as u8,
        (value / 0x100_0000 % 0x100) as u8,
        (value / 0x1_0000 % 0x100) as u8,
        (value / 0x100 % 0x100) as u8,
        (value % 0x100) as u8,
    ];
    proof {
        assert(out@ =~= be48_bytes(value));
        be48_of_bytes(value);
    }
    out
}

/// Six big-endian bytes as a number, as if two zero bytes stood before them.
pub fn decode_u48(ts: [u8; 6]) -> (value: u64)
    ensures
        value == be48(ts@),
        value < 0x1_0000_0000_0000,
{
    ts[0] as u64 * 0x100_0000_0000 + ts[1] as u64 * 0x1_0000_0000 + ts[2] as u64 * 0x100_0000
        + ts[3] as u64 * 0x1_0000 + ts[4] as u64 * 0x100 + ts[5] as u64
}

/// Four bytes, most significant first, that spell `x`.
pub fn u32_to_be(x: u32) -> (out: [u8; 4])
    ensures
        out@ == be32_bytes(x),
        be32(out@) == x,
{
    let out = [
        (x / 0x100_0000) as u8,
        (x / 0x1_0000 % 0x100) as u8,
        (x / 0x100 % 0x100) as u8,
        (x % 0x100) as u8,
    ];
    proof {
        assert(out@ =~= be32_bytes(x));
        be32_of_bytes(x);
    }
    out
}

/// Reads back what `u32_to_be` wrote.
pub fn u32_from_be(b: [u8; 4]) -> (x: u32)
    ensures
        x == be32(b@),
{
    b[0] as u32 * 0x100_0000 + b[1] as u32 * 0x1_0000 + b[2] as u32 * 0x100 + b[3] as u32
}

/// Eight bytes, most significant first, that spell `x`.
pub fn u64_to_be(x: u64) -> (out: [u8; 8])
    ensures
        out@ == be64_bytes(x),
        be64(out@) == x,
{
    let out = [
        (x / 0x100_0000_0000_0000) as u8,
        (x / 0x1_0000_0000_0000 % 0x100) as u8,
        (x / 0x100_0000_0000 % 0x100) as u8,
        (x / 0x1_0000_0000 % 0x100) as u8,
        (x / 0x100_0000 % 0x100) as u8,
        (x / 0x1_0000 % 0x100) as u8,
        (x / 0x100 % 0x100) as u8,
        (x % 0x100) as u8,
    ];
    proof {
        assert(out@ =~= be64_bytes(x));
        be64_of_bytes(x);
    }
    out
}

/// Reads back what `u64_to_be` wrote.
pub fn u64_from_be(b: [u8; 8]) -> (x: u64)
    ensures
        x == be64(b@),
{
    b[0] as u64 * 0x100_0000_0000_0000 + b[1] as u64 * 0x1_0000_0000_0000 + b[2] as u64
        * 0x100_0000_0000 + b[3] as u64 * 0x1_0000_0000 + b[4] as u64 * 0x100_0000 + b[5] as u64
        * 0x1_0000 + b[6] as u64 * 0x100 + b[7] as u64
}

/// A number has one last byte and one rest: the step from which the
/// uniqueness of each width follows.
proof fn split_last_byte(h1: int, l1: int, h2: int, l2: int)
    requires
        0 <= l1 < 0x100,
        0 <= l2 < 0x100,
        h1 * 0x100 + l1 == h2 * 0x100 + l2,
    ensures
        h1 == h2,
        l1 == l2,
{
}

/// Two byte strings of the same width that spell the same number are the same
/// string: a big-endian field has exactly one reading and one writing.
pub proof fn be16_unique(a: Seq<u8>, b: Seq<u8>)
    requires
        a.len() == 2,
        b.len() == 2,
        be16(a) == be16(b),
    ensures
        a == b,
{
    split_last_byte(a[0] as int, a[1] as int, b[0] as int, b[1] as int);
    assert(a =~= b);
}

/// As `be16_unique`, for four bytes.
pub proof fn be32_unique(a: Seq<u8>, b: Seq<u8>)
    requires
        a.len() == 4,
        b.len() == 4,
        be32(a) == be32(b),
    ensures
        a == b,
{
    let a2 = a[0] as int * 0x100 + a[1] as int;
    let b2 = b[0] as int * 0x100 + b[1] as int;
    let a3 = a2 * 0x100 + a[2] as int;
    let b3 = b2 * 0x100 + b[2] as int;
    assert(be32(a) == a3 * 0x100 + a[3] as int);
    assert(be32(b) == b3 * 0x100 + b[3] as int);
    split_last_byte(a3, a[3] as int, b3, b[3] as int);
    split_last_byte(a2, a[2] as int, b2, b[2] as int);
    split_last_byte(a[0] as int, a[1] as int, b[0] as int, b[1] as int);
    assert(a =~= b);
}

/// As `be16_unique`, for six bytes.
pub proof fn be48_unique(a: Seq<u8>, b: Seq<u8>)
    requires
        a.len() == 6,
        b.len() == 6,
        be48(a) == be48(b),
    ensures
        a == b,
{
    let a2 = a[0] as int * 0x100 + a[1] as int;
    let b2 = b[0] as int * 0x100 + b[1] as int;
    let a3 = a2 * 0x100 + a[2] as int;
    let b3 = b2 * 0x100 + b[2] as int;
    let a4 = a3 * 0x100 + a[3] as int;
    let b4 = b3 * 0x100 + b[3] as int;
    let a5 = a4 * 0x100 + a[4] as int;
    let b5 = b4 * 0x100 + b[4] as int;
    assert(be48(a) == a5 * 0x100 + a[5] as int);
    assert(be48(b) == b5 * 0x100 + b[5] as int);
    split_last_byte(a5, a[5] as int, b5, b[5] as int);
    split_last_byte(a4, a[4] as int, b4, b[4] as int);
    split_last_byte(a3, a[3] as int, b3, b[3] as int);
    split_last_byte(a2, a[2] as int, b2, b[2] as int);
    split_last_byte(a[0] as int, a[1] as int, b[0] as int, b[1] as int);
    assert(a =~= b);
}

/// As `be16_unique`, for eight bytes.
pub proof fn be64_unique(a: Seq<u8>, b: Seq<u8>)
    requires
        a.len() == 8,
        b.len() == 8,
        be64(a) == be64(b),
    ensures
        a == b,
{
    let a2 = a[0] as int * 0x100 + a[1] as int;
    let b2 = b[0] as int * 0x100 + b[1] as int;
    let a3 = a2 * 0x100 + a[2] as int;
    let b3 = b2 * 0x100 + b[2] as int;
    let a4 = a3 * 0x100 + a[3] as int;
    let b4 = b3 * 0x100 + b[3] as int;
    let a5 = a4 * 0x100 + a[4] as int;
    let b5 = b4 * 0x100 + b[4] as int;
    let a6 = a5 * 0x100 + a[5] as int;
    let b6 = b5 * 0x100 + b[5] as int;
    let a7 = a6 * 0x100 + a[6] as int;
    let b7 = b6 * 0x100 + b[6] as int;
    assert(be64(a) == a7 * 0x100 + a[7] as int);
    assert(be64(b) == b7 * 0x100 + b[7] as int);
    split_last_byte(a7, a[7] as int, b7, b[7] as int);
    split_last_byte(a6, a[6] as int, b6, b[6] as int);
    split_last_byte(a5, a[5] as int, b5, b[5] as int);
    split_last_byte(a4, a[4] as int, b4, b[4] as int);
    split_last_byte(a3, a[3] as int, b3, b[3] as int);
    split_last_byte(a2, a[2] as int, b2, b[2] as int);
    split_last_byte(a[0] as int, a[1] as int, b[0] as int, b[1] as int);
    assert(a =~= b);
}

/// Six bytes that spell the number that `ts` spells are `ts`: encoding what
/// `decode_u48` read gives the same six bytes back.
pub proof fn u48_roundtrip(ts: [u8; 6], back: [u8; 6])
    requires
        be48(back@) == be48(ts@) % 0x1_0000_0000_0000,
    ensures
        back@ == ts@,
{
    assert(be48(ts@) < 0x1_0000_0000_0000);
    be48_unique(back@, ts@);
}

/// Reading the bytes that spell a number gives the number.
pub proof fn be16_of_bytes(x: u16)
    ensures
        be16(be16_bytes(x)) == x,
{
}

/// Dividing by a power of 256 and then by 256 divides by the next power.
proof fn next_power(x: int, d: int)
    requires
        0 <= x,
        0 < d,
    ensures
        x / d / 0x100 == x / (d * 0x100),
        x / d == 0x100 * (x / (d * 0x100)) + x / d % 0x100,
        0 <= x / d % 0x100 < 0x100,
{
    vstd::arithmetic::div_mod::lemma_div_denominator(x, d, 0x100);
}

/// As `be16_of_bytes`, for four bytes.
pub proof fn be32_of_bytes(x: u32)
    ensures
        be32(be32_bytes(x)) == x,
{
    let v = x as int;
    next_power(v, 1);
    next_power(v, 0x100);
    next_power(v, 0x1_0000);
    let b3 = v % 0x100;
    let b2 = v / 0x100 % 0x100;
    let b1 = v / 0x1_0000 % 0x100;
    let b0 = v / 0x100_0000;
    assert(v == 0x100 * (v / 0x100) + b3);
    assert(v / 0x100 == 0x100 * (v / 0x1_0000) + b2);
    assert(v / 0x1_0000 == 0x100 * b0 + b1);
    assert(v == b0 * 0x100_0000 + b1 * 0x1_0000 + b2 * 0x100 + b3);
    assert(0 <= b0 < 0x100);
}

/// As `be16_of_bytes`, for six bytes: the upper 16 bits of the number are lost.
pub proof fn be48_of_bytes(x: u64)
    ensures
        be48(be48_bytes(x)) == x % 0x1_0000_0000_0000,
{
    let v = x as int;
    next_power(v, 1);
    next_power(v, 0x100);
    next_power(v, 0x1_0000);
    next_power(v, 0x100_0000);
    next_power(v, 0x1_0000_0000);
    next_power(v, 0x100_0000_0000);
    let b5 = v % 0x100;
    let b4 = v / 0x100 % 0x100;
    let b3 = v / 0x1_0000 % 0x100;
    let b2 = v / 0x100_0000 % 0x100;
    let b1 = v / 0x1_0000_0000 % 0x100;
    let b0 = v / 0x100_0000_0000 % 0x100;
    let top = v / 0x1_0000_0000_0000;
    assert(v == 0x100 * (v / 0x100) + b5);
    assert(v / 0x100 == 0x100 * (v / 0x1_0000) + b4);
    assert(v / 0x1_0000 == 0x100 * (v / 0x100_0000) + b3);
    assert(v / 0x100_0000 == 0x100 * (v / 0x1_0000_0000) + b2);
    assert(v / 0x1_0000_0000 == 0x100 * (v / 0x100_0000_0000) + b1);
    assert(v / 0x100_0000_0000 == 0x100 * top + b0);
    let low = b0 * 0x100_0000_0000 + b1 * 0x1_0000_0000 + b2 * 0x100_0000 + b3 * 0x1_0000 + b4
        * 0x100 + b5;
    assert(v == top * 0x1_0000_0000_0000 + low);
    assert(0 <= low < 0x1_0000_0000_0000);
    assert(low == v % 0x1_0000_0000_0000) by {
        vstd::arithmetic::div_mod::lemma_fundamental_div_mod_converse(
            v,
            0x1_0000_0000_0000,
            top,
            low,
        );
    }
}

/// As `be16_of_bytes`, for eight bytes.
pub proof fn be64_of_bytes(x: u64)
    ensures
        be64(be64_bytes(x)) == x,
{
    let v = x as int;
    next_power(v, 1);
    next_power(v, 0x100);
    next_power(v, 0x1_0000);
    next_power(v, 0x100_0000);
    next_power(v, 0x1_0000_0000);
    next_power(v, 0x100_0000_0000);
    next_power(v, 0x1_0000_0000_0000);
    let b7 = v % 0x100;
    let b6 = v / 0x100 % 0x100;
    let b5 = v / 0x1_0000 % 0x100;
    let b4 = v / 0x100_0000 % 0x100;
    let b3 = v / 0x1_0000_0000 % 0x100;
    let b2 = v / 0x100_0000_0000 % 0x100;
    let b1 = v / 0x1_0000_0000_0000 % 0x100;
    let b0 = v / 0x100_0000_0000_0000;
    assert(v == 0x100 * (v / 0x100) + b7);
    assert(v / 0x100 == 0x100 * (v / 0x1_0000) + b6);
    assert(v / 0x1_0000 == 0x100 * (v / 0x100_0000) + b5);
    assert(v / 0x100_0000 == 0x100 * (v / 0x1_0000_0000) + b4);
    assert(v / 0x1_0000_0000 == 0x100 * (v / 0x100_0000_0000) + b3);
    assert(v / 0x100_0000_0000 == 0x100 * (v / 0x1_0000_0000_0000) + b2);
    assert(v / 0x1_0000_0000_0000 == 0x100 * b0 + b1);
    assert(v == b0 * 0x100_0000_0000_0000 + b1 * 0x1_0000_0000_0000 + b2 * 0x100_0000_0000 + b3
        * 0x1_0000_0000 + b4 * 0x100_0000 + b5 * 0x1_0000 + b6 * 0x100 + b7);
    assert(0 <= b0 < 0x100);
}

/// The array that holds the `N` bytes of `s`.
pub open spec fn array_of<const N: usize>(s: Seq<u8>) -> [u8; N]
    recommends
        s.len() == N,
{
    choose|a: [u8; N]| a@ == s
}

/// An array whose first `k` bytes are those of `s`.
proof fn array_with_prefix<const N: usize>(s: Seq<u8>, k: nat) -> (a: [u8; N])
    requires
        s.len() == N,
        k <= N,
    ensures
        forall|j: int| 0 <= j < k ==> a@[j] == s[j],
    decreases k,
{
    if k == 0 {
        arbitrary()
    } else {
        let before = array_with_prefix::<N>(s, (k - 1) as nat);
        vstd::array::spec_array_update(before, k - 1, s[k - 1])
    }
}

/// `array_of` of `N` bytes holds those bytes.
pub proof fn array_of_view<const N: usize>(s: Seq<u8>)
    requires
        s.len() == N,
    ensures
        array_of::<N>(s)@ == s,
{
    let a = array_with_prefix::<N>(s, N as nat);
    assert(a@ =~= s);
}

/// Copies `N` bytes out of `bytes`, starting at `at`.
pub fn read_array<const N: usize>(bytes: &[u8], at: usize) -> (out: [u8; N])
    requires
        at + N <= bytes.len(),
    ensures
        out@ == bytes@.subrange(at as int, at + N),
{
    let mut out: [u8; N] = [0u8; N];
    let mut i: usize = 0;
    while i < N
        invariant
            i <= N,
            at + N <= bytes.len(),
            forall|j: int| 0 <= j < i ==> out@[j] == bytes@[at + j],
        decreases N - i,
    {
        out[i] = bytes[at + i];
        i += 1;
    }
    assert(out@ =~= bytes@.subrange(at as int, at + N));
    out
}

/// The big-endian number in the two bytes at `at`.
pub fn read_u16(bytes: &[u8], at: usize) -> (x: u16)
    requires
        at + 2 <= bytes.len(),
    ensures
        x == be16(bytes@.subrange(at as int, at + 2)),
{
    u16_from_be(read_array::<2>(bytes, at))
}

/// The big-endian number in the four bytes at `at`.
pub fn read_u32(bytes: &[u8], at: usize) -> (x: u32)
    requires
        at + 4 <= bytes.len(),
    ensures
        x == be32(bytes@.subrange(at as int, at + 4)),
{
    u32_from_be(read_array::<4>(bytes, at))
}

/// The big-endian number in the eight bytes at `at`.
pub fn read_u64(bytes: &[u8], at: usize) -> (x: u64)
    requires
        at + 8 <= bytes.len(),
    ensures
        x == be64(bytes@.subrange(at as int, at + 8)),
{
    u64_from_be(read_array::<8>(bytes, at))
}

/// Appends the bytes of `src` to `out`.
pub fn append<const N: usize>(out: &mut Vec<u8>, src: &[u8; N])
    ensures
        final(out)@ == old(out)@ + src@,
{
    let mut i: usize = 0;
    while i < N
        invariant
            i <= N,
            out@ == old(out)@ + src@.subrange(0, i as int),
        decreases N - i,
    {
        out.push(src[i]);
        assert(src@.subrange(0, i + 1) =~= src@.subrange(0, i as int).push(src@[i as int]));
        i += 1;
    }
    assert(src@.subrange(0, N as int) =~= src@);
}

} // verus!
