//! Fixed-width little-endian integers, the only number format on the wire.

use vstd::prelude::*;

verus! {

/// The two bytes of `x`, least significant first.
pub open spec fn le16(x: u16) -> Seq<u8> {
    seq![(x % 256) as u8, (x / 256) as u8]
}

/// The number whose two bytes, least significant first, start `s`.
pub open spec fn le16_value(s: Seq<u8>) -> u16 {
    (s[0] + 256 * s[1]) as u16
}

/// The four bytes of `x`, least significant first.
pub open spec fn le32(x: u32) -> Seq<u8> {
    seq![
        (x % 256) as u8,
        (x / 256 % 256) as u8,
        (x / 65536 % 256) as u8,
        (x / 16777216) as u8,
    ]
}

/// The number whose four bytes, least significant first, start `s`.
pub open spec fn le32_value(s: Seq<u8>) -> u32 {
    (s[0] + 256 * s[1] + 65536 * s[2] + 16777216 * s[3]) as u32
}

/// The two's complement bit pattern of `x`, read as an unsigned number.
pub open spec fn i32_bits(x: i32) -> u32 {
    if x >= 0 {
        x as u32
    } else {
        (x + 0x1_0000_0000) as u32
    }
}

/// The signed number whose two's complement bit pattern is `bits`.
pub open spec fn i32_of_bits(bits: u32) -> i32 {
    if bits < 0x8000_0000 {
        bits as i32
    } else {
        (bits - 0x1_0000_0000) as i32
    }
}

/// What a length becomes in a 32-bit length field: its low 32 bits.
pub open spec fn len32(n: nat) -> u32 {
    (n % 0x1_0000_0000) as u32
}

/// Reading back the four bytes of a number gives the number.
pub proof fn le32_roundtrip(x: u32)
    ensures
        le32(x).len() == 4,
        le32_value(le32(x)) == x,
{
    assert(x == (x % 256) + 256 * (x / 256 % 256) + 65536 * (x / 65536 % 256) + 16777216 * (x
        / 16777216));
}

/// Four bytes are the encoding of the number that they hold.
pub proof fn le32_value_roundtrip(s: Seq<u8>)
    requires
        s.len() == 4,
    ensures
        le32(le32_value(s)) == s,
{
    let (a, b, c, d) = (s[0] as int, s[1] as int, s[2] as int, s[3] as int);
    let x = a + 256 * b + 65536 * c + 16777216 * d;
    assert(x / 256 == b + 256 * c + 65536 * d && x % 256 == a);
    assert(x / 65536 == c + 256 * d);
    assert(x / 16777216 == d);
    assert((b + 256 * c + 65536 * d) % 256 == b);
    assert((c + 256 * d) % 256 == c);
    let v = le32_value(s);
    assert(v == x);
    assert(le32(v)[0] == s[0]);
    assert(le32(v)[1] == s[1]);
    assert(le32(v)[2] == s[2]);
    assert(le32(v)[3] == s[3]);
    assert(le32(v) =~= s);
}

/// Reading back the two bytes of a number gives the number.
pub proof fn le16_roundtrip(x: u16)
    ensures
        le16(x).len() == 2,
        le16_value(le16(x)) == x,
{
}

/// Two bytes are the encoding of the number that they hold.
pub proof fn le16_value_roundtrip(s: Seq<u8>)
    requires
        s.len() == 2,
    ensures
        le16(le16_value(s)) == s,
{
    assert(le16(le16_value(s)) =~= s);
}

/// A signed number survives the passage through its bit pattern.
pub proof fn i32_roundtrip(x: i32)
    ensures
        i32_of_bits(i32_bits(x)) == x,
{
}

/// Appends the four bytes of `x`.
pub fn push_le32(out: &mut Vec<u8>, x: u32)
    ensures
        final(out)@ == old(out)@ + le32(x),
{
    out.push((x % 256) as u8);
    out.push((x / 256 % 256) as u8);
    out.push((x / 65536 % 256) as u8);
    out.push((x / 16777216) as u8);
    assert(out@ =~= old(out)@ + le32(x));
}

/// Appends the two bytes of `x`.
pub fn push_le16(out: &mut Vec<u8>, x: u16)
    ensures
        final(out)@ == old(out)@ + le16(x),
{
    out.push((x % 256) as u8);
    out.push((x / 256) as u8);
    assert(out@ =~= old(out)@ + le16(x));
}

/// The number whose four bytes, least significant first, stand at `at`.
pub fn read_le32(buf: &[u8], at: usize) -> (x: u32)
    requires
        at + 4 <= buf@.len(),
    ensures
        x == le32_value(buf@.subrange(at as int, at + 4)),
{
    buf[at] as u32 + 256 * (buf[at + 1] as u32) + 65536 * (buf[at + 2] as u32) + 16777216 * (buf[at
        + 3] as u32)
}

/// The number whose two bytes, least significant first, stand at `at`.
pub fn read_le16(buf: &[u8], at: usize) -> (x: u16)
    requires
        at + 2 <= buf@.len(),
    ensures
        x == le16_value(buf@.subrange(at as int, at + 2)),
{
    buf[at] as u16 + 256 * (buf[at + 1] as u16)
}

/// The two's complement bit pattern of `x`.
pub fn bits_of_i32(x: i32) -> (bits: u32)
    ensures
        bits == i32_bits(x),
{
    if x >= 0 {
        x as u32
    } else {
        (x as i64 + 0x1_0000_0000) as u32
    }
}

/// The signed number with the given two's complement bit pattern.
pub fn i32_from_bits(bits: u32) -> (x: i32)
    ensures
        x == i32_of_bits(bits),
{
    if bits < 0x8000_0000 {
        bits as i32
    } else {
        (bits as i64 - 0x1_0000_0000) as i32
    }
}

/// The low 32 bits of a length.
pub fn length_field(n: usize) -> (len: u32)
    ensures
        len == len32(n as nat),
{
    (n as u64 % 0x1_0000_0000u64) as u32
}

/// A copy of the bytes of `buf` from `from` up to `to`.
pub fn copy_range(buf: &[u8], from: usize, to: usize) -> (out: Vec<u8>)
    requires
        from <= to <= buf@.len(),
    ensures
        out@ == buf@.subrange(from as int, to as int),
{
    let mut out: Vec<u8> = Vec::with_capacity(to - from);
    let mut i: usize = from;
    while i < to
        invariant
            from <= i <= to <= buf@.len(),
            out@ == buf@.subrange(from as int, i as int),
        decreases to - i,
    {
        out.push(buf[i]);
        i = i + 1;
        assert(out@ =~= buf@.subrange(from as int, i as int));
    }
    out
}

/// Whether two byte strings are the same.
pub fn same_bytes(a: &[u8], b: &[u8]) -> (same: bool)
    ensures
        same == (a@ == b@),
{
    if a.len() != b.len() {
        return false;
    }
    let mut i: usize = 0;
    while i < a.len()
        invariant
            i <= a@.len(),
            a@.len() == b@.len(),
            forall|k: int| 0 <= k < i ==> a@[k] == b@[k],
        decreases a@.len() - i,
    {
        if a[i] != b[i] {
            return false;
        }
        i = i + 1;
    }
    assert(a@ =~= b@);
    true
}

/// The bytes of a number are its digits to the base 256, the lowest first.
pub proof fn bytes_are_digits(x: u32, y: u16)
    ensures
        le32(x).len() == 4,
        x == le32(x)[0] + 0x100 * le32(x)[1] + 0x1_0000 * le32(x)[2] + 0x100_0000 * le32(x)[3],
        le16(y).len() == 2,
        y == le16(y)[0] + 0x100 * le16(y)[1],
{
    le32_roundtrip(x);
    le16_roundtrip(y);
}

/// What bytes hold is what their digits to the base 256 add up to, the lowest first.
pub proof fn digits_add_up(s: Seq<u8>)
    ensures
        s.len() >= 4 ==> le32_value(s) == s[0] + 0x100 * s[1] + 0x1_0000 * s[2] + 0x100_0000 * s[3],
        s.len() >= 2 ==> le16_value(s) == s[0] + 0x100 * s[1],
{
}

/// A bit pattern and its number are the same up to a multiple of two to the 32nd, and a
/// length field holds a length that fits as it is.
pub proof fn patterns_wrap_around(x: i32, bits: u32, n: nat)
    ensures
        x >= 0 ==> i32_bits(x) == x,
        x < 0 ==> i32_bits(x) == x + 0x1_0000_0000,
        i32_bits(i32_of_bits(bits)) == bits,
        n < 0x1_0000_0000 ==> len32(n) == n,
        len32(n + 0x1_0000_0000) == len32(n),
{
}

} // verus!
