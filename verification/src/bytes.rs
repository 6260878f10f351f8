//! Byte-string helpers: copying, and fixed-width integers in both byte orders.

use vstd::prelude::*;

verus! {

/// The two bytes of `x`, least significant first.
pub open spec fn le16(x: u16) -> Seq<u8> {
    seq![(x % 256) as u8, (x / 256) as u8]
}

/// The four bytes of `x`, least significant first.
pub open spec fn le32(x: u32) -> Seq<u8> {
    seq![
        (x % 256) as u8,
        (x / 256 % 256) as u8,
        (x / 65536 % 256) as u8,
        (x / 16777216) as u8,
    ]
}

/// The two bytes of `x`, most significant first.
pub open spec fn be16(x: u16) -> Seq<u8> {
    seq![(x / 256) as u8, (x % 256) as u8]
}

/// The four bytes of `x`, most significant first.
pub open spec fn be32(x: u32) -> Seq<u8> {
    seq![
        (x / 16777216) as u8,
        (x / 65536 % 256) as u8,
        (x / 256 % 256) as u8,
        (x % 256) as u8,
    ]
}

/// The number written least significant byte first at `at`.
pub open spec fn le16_at(s: Seq<u8>, at: int) -> u16 {
    (s[at] + 256 * s[at + 1]) as u16
}

/// The number written least significant byte first at `at`.
pub open spec fn le32_at(s: Seq<u8>, at: int) -> u32 {
    (s[at] + 256 * s[at + 1] + 65536 * s[at + 2] + 16777216 * s[at + 3]) as u32
}

/// The number written most significant byte first at `at`.
pub open spec fn be16_at(s: Seq<u8>, at: int) -> u16 {
    (256 * s[at] + s[at + 1]) as u16
}

/// The number written most significant byte first at `at`.
pub open spec fn be32_at(s: Seq<u8>, at: int) -> u32 {
    (16777216 * s[at] + 65536 * s[at + 1] + 256 * s[at + 2] + s[at + 3]) as u32
}

/// Appends a copy of `src` to `dst`.
pub fn append_bytes(dst: &mut Vec<u8>, src: &[u8])
    ensures
        final(dst)@ == old(dst)@ + src@,
{
    let n: usize = src.len();
    let mut i: usize = 0;
    while i < n
        invariant
            i <= n == src@.len(),
            dst@ == old(dst)@ + src@.take(i as int),
        decreases n - i,
    {
        dst.push(src[i]);
        i += 1;
        assert(src@.take(i as int) =~= src@.take(i - 1).push(src@[i - 1]));
    }
    assert(src@.take(n as int) =~= src@);
}

/// A copy of `src` from `from` up to `to`.
pub fn copy_range(src: &[u8], from: usize, to: usize) -> (out: Vec<u8>)
    requires
        from <= to <= src@.len(),
    ensures
        out@ == src@.subrange(from as int, to as int),
{
    let mut out: Vec<u8> = Vec::with_capacity(to - from);
    let mut i: usize = from;
    while i < to
        invariant
            from <= i <= to <= src@.len(),
            out@ == src@.subrange(from as int, i as int),
        decreases to - i,
    {
        out.push(src[i]);
        i += 1;
        assert(src@.subrange(from as int, i as int) =~= src@.subrange(from as int, i - 1).push(
            src@[i - 1],
        ));
    }
    out
}

/// Whether two byte strings are the same.
pub fn same_bytes(a: &[u8], b: &[u8]) -> (same: bool)
    ensures
        same == (a@ == b@),
{
    if a.len() != b.len() {
        return false;
    }
    let n: usize = a.len();
    let mut i: usize = 0;
    while i < n
        invariant
            i <= n == a@.len() == b@.len(),
            a@.take(i as int) == b@.take(i as int),
        decreases n - i,
    {
        if a[i] != b[i] {
            return false;
        }
        i += 1;
        assert(a@.take(i as int) =~= a@.take(i - 1).push(a@[i - 1]));
        assert(b@.take(i as int) =~= b@.take(i - 1).push(b@[i - 1]));
    }
    assert(a@.take(n as int) =~= a@);
    assert(b@.take(n as int) =~= b@);
    true
}

/// Appends `x`, least significant byte first.
pub fn push_le16(dst: &mut Vec<u8>, x: u16)
    ensures
        final(dst)@ == old(dst)@ + le16(x),
{
    dst.push((x % 256) as u8);
    dst.push((x / 256) as u8);
    assert(dst@ =~= old(dst)@ + le16(x));
}

/// Appends `x`, least significant byte first.
pub fn push_le32(dst: &mut Vec<u8>, x: u32)
    ensures
        final(dst)@ == old(dst)@ + le32(x),
{
    dst.push((x % 256) as u8);
    dst.push((x / 256 % 256) as u8);
    dst.push((x / 65536 % 256) as u8);
    dst.push((x / 16777216) as u8);
    assert(dst@ =~= old(dst)@ + le32(x));
}

/// Appends `x`, most significant byte first.
pub fn push_be16(dst: &mut Vec<u8>, x: u16)
    ensures
        final(dst)@ == old(dst)@ + be16(x),
{
    dst.push((x / 256) as u8);
    dst.push((x % 256) as u8);
    assert(dst@ =~= old(dst)@ + be16(x));
}

/// Appends `x`, most significant byte first.
pub fn push_be32(dst: &mut Vec<u8>, x: u32)
    ensures
        final(dst)@ == old(dst)@ + be32(x),
{
    dst.push((x / 16777216) as u8);
    dst.push((x / 65536 % 256) as u8);
    dst.push((x / 256 % 256) as u8);
    dst.push((x % 256) as u8);
    assert(dst@ =~= old(dst)@ + be32(x));
}

/// Reads two bytes, least significant first.
pub fn read_le16(s: &[u8], at: usize) -> (x: u16)
    requires
        at + 2 <= s@.len(),
    ensures
        x == le16_at(s@, at as int),
{
    s[at] as u16 + 256 * (s[at + 1] as u16)
}

/// Reads four bytes, least significant first.
pub fn read_le32(s: &[u8], at: usize) -> (x: u32)
    requires
        at + 4 <= s@.len(),
    ensures
        x == le32_at(s@, at as int),
{
    s[at] as u32 + 256 * (s[at + 1] as u32) + 65536 * (s[at + 2] as u32) + 16777216 * (
    s[at + 3] as u32)
}

/// Reads two bytes, most significant first.
pub fn read_be16(s: &[u8], at: usize) -> (x: u16)
    requires
        at + 2 <= s@.len(),
    ensures
        x == be16_at(s@, at as int),
{
    256 * (s[at] as u16) + s[at + 1] as u16
}

/// Reads four bytes, most significant first.
pub fn read_be32(s: &[u8], at: usize) -> (x: u32)
    requires
        at + 4 <= s@.len(),
    ensures
        x == be32_at(s@, at as int),
{
    16777216 * (s[at] as u32) + 65536 * (s[at + 1] as u32) + 256 * (s[at + 2] as u32) + s[at
        + 3] as u32
}

/// A written 16-bit number reads back, whatever surrounds it.
pub proof fn lemma_le16_reads_back(s: Seq<u8>, at: int, x: u16)
    requires
        0 <= at,
        at + 2 <= s.len(),
        s.subrange(at, at + 2) == le16(x),
    ensures
        le16_at(s, at) == x,
{
    assert(s[at] == s.subrange(at, at + 2)[0]);
    assert(s[at + 1] == s.subrange(at, at + 2)[1]);
}

/// A written 32-bit number reads back, whatever surrounds it.
pub proof fn lemma_le32_reads_back(s: Seq<u8>, at: int, x: u32)
    requires
        0 <= at,
        at + 4 <= s.len(),
        s.subrange(at, at + 4) == le32(x),
    ensures
        le32_at(s, at) == x,
{
    assert(s[at] == s.subrange(at, at + 4)[0]);
    assert(s[at + 1] == s.subrange(at, at + 4)[1]);
    assert(s[at + 2] == s.subrange(at, at + 4)[2]);
    assert(s[at + 3] == s.subrange(at, at + 4)[3]);
}

/// A written 16-bit number reads back, whatever surrounds it.
pub proof fn lemma_be16_reads_back(s: Seq<u8>, at: int, x: u16)
    requires
        0 <= at,
        at + 2 <= s.len(),
        s.subrange(at, at + 2) == be16(x),
    ensures
        be16_at(s, at) == x,
{
    assert(s[at] == s.subrange(at, at + 2)[0]);
    assert(s[at + 1] == s.subrange(at, at + 2)[1]);
}

/// A written 32-bit number reads back, whatever surrounds it.
pub proof fn lemma_be32_reads_back(s: Seq<u8>, at: int, x: u32)
    requires
        0 <= at,
        at + 4 <= s.len(),
        s.subrange(at, at + 4) == be32(x),
    ensures
        be32_at(s, at) == x,
{
    assert(s[at] == s.subrange(at, at + 4)[0]);
    assert(s[at + 1] == s.subrange(at, at + 4)[1]);
    assert(s[at + 2] == s.subrange(at, at + 4)[2]);
    assert(s[at + 3] == s.subrange(at, at + 4)[3]);
}

/// The bytes of a number are its digits in base 256: the lowest comes first
/// in one order and last in the other.
pub proof fn law_bytes_are_digits(x: u16, y: u32)
    ensures
        le16(x).len() == 2,
        le16(x)[0] + 256 * le16(x)[1] == x,
        be16(x).len() == 2,
        256 * be16(x)[0] + be16(x)[1] == x,
        le32(y).len() == 4,
        le32(y)[0] + 256 * (le32(y)[1] + 256 * (le32(y)[2] + 256 * le32(y)[3])) == y,
        be32(y).len() == 4,
        be32(y)[3] + 256 * (be32(y)[2] + 256 * (be32(y)[1] + 256 * be32(y)[0])) == y,
{
}

/// Numbers are read by the same digits, whatever the bytes are.
pub proof fn law_digits_make_numbers(s: Seq<u8>, at: int)
    requires
        0 <= at,
        at + 4 <= s.len(),
    ensures
        le16_at(s, at) == s[at] + 0x100 * s[at + 1],
        be16_at(s, at) == s[at + 1] + 0x100 * s[at],
        le32_at(s, at) == s[at] + 0x100 * s[at + 1] + 0x1_0000 * s[at + 2] + 0x100_0000 * s[at
            + 3],
        be32_at(s, at) == s[at + 3] + 0x100 * s[at + 2] + 0x1_0000 * s[at + 1] + 0x100_0000 * s[at],
{
}

} // verus!
