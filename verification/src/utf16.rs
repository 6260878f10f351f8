//! Text in UTF-16, as the system's interfaces take it.

use vstd::prelude::*;

use crate::bytes::{le16, le16_at};
use crate::text::chars_of;

verus! {

/// The code units of a character: one, or two for one beyond 0xffff.
pub open spec fn units_of(c: char) -> Seq<u16> {
    let u = c as u32;
    if u < 0x1_0000 {
        seq![u as u16]
    } else {
        seq![
            (0xd800 + (u - 0x1_0000) / 0x400) as u16,
            (0xdc00 + (u - 0x1_0000) % 0x400) as u16,
        ]
    }
}

/// A text in UTF-16.
pub open spec fn utf16(s: Seq<char>) -> Seq<u16>
    decreases s.len(),
{
    if s.len() == 0 {
        seq![]
    } else {
        utf16(s.drop_last()) + units_of(s.last())
    }
}

/// A text in UTF-16 with a zero behind it.
pub open spec fn wide_text(s: Seq<char>) -> Seq<u16> {
    utf16(s).push(0)
}

/// A text in UTF-16.
pub fn encode_utf16(s: &str) -> (out: Vec<u16>)
    ensures
        out@ == utf16(s@),
{
    let chars: Vec<char> = chars_of(s);
    let n: usize = chars.len();
    let mut out: Vec<u16> = Vec::new();
    let mut i: usize = 0;
    assert(s@.take(0) =~= seq![]);
    while i < n
        invariant
            i <= n == chars@.len(),
            chars@ == s@,
            out@ == utf16(s@.take(i as int)),
        decreases n - i,
    {
        let c: char = chars[i];
        let u: u32 = c as u32;
        let ghost before = out@;
        proof {
            vstd::utf8::char_is_scalar(c);
            assert(s@.take(i + 1).drop_last() =~= s@.take(i as int));
        }
        if u < 0x1_0000 {
            out.push(u as u16);
        } else {
            out.push((0xd800 + (u - 0x1_0000) / 0x400) as u16);
            out.push((0xdc00 + (u - 0x1_0000) % 0x400) as u16);
        }
        assert(out@ =~= before + units_of(c));
        i += 1;
    }
    assert(s@.take(n as int) =~= s@);
    out
}

/// A text in UTF-16 with a zero behind it.
pub fn encode_wide(s: &str) -> (out: Vec<u16>)
    ensures
        out@ == wide_text(s@),
{
    let mut out: Vec<u16> = encode_utf16(s);
    out.push(0);
    out
}

/// Whether a code unit begins a pair.
pub open spec fn is_high(u: u16) -> bool {
    0xd800 <= u < 0xdc00
}

/// Whether a code unit ends a pair.
pub open spec fn is_low(u: u16) -> bool {
    0xdc00 <= u < 0xe000
}

/// The text that code units stand for. A unit that should be one of a pair but
/// is not stands for the replacement character.
pub open spec fn utf16_lossy(units: Seq<u16>) -> Seq<char>
    decreases units.len(),
{
    if units.len() == 0 {
        seq![]
    } else if !is_high(units[0]) && !is_low(units[0]) {
        seq![(units[0] as u32) as char] + utf16_lossy(units.skip(1))
    } else if is_high(units[0]) && units.len() > 1 && is_low(units[1]) {
        let u = 0x1_0000 + (units[0] - 0xd800) * 0x400 + (units[1] - 0xdc00);
        seq![(u as u32) as char] + utf16_lossy(units.skip(2))
    } else {
        seq!['\u{fffd}'] + utf16_lossy(units.skip(1))
    }
}

/// Calls `String::from_utf16_lossy`, which decodes UTF-16 and puts U+FFFD for
/// each surrogate that is not one of a pair.
#[verifier::external_body]
pub(crate) fn decode_utf16(units: &[u16]) -> (out: String)
    ensures
        out@ == utf16_lossy(units@),
{
    String::from_utf16_lossy(units)
}

proof fn lemma_utf16_front(s: Seq<char>)
    requires
        s.len() > 0,
    ensures
        utf16(s) == units_of(s[0]) + utf16(s.skip(1)),
    decreases s.len(),
{
    if s.len() == 1 {
        assert(s.drop_last() =~= seq![]);
        assert(s.skip(1) =~= seq![]);
        assert(utf16(s) =~= units_of(s[0]) + utf16(s.skip(1)));
    } else {
        lemma_utf16_front(s.drop_last());
        assert(s.drop_last().skip(1) =~= s.skip(1).drop_last());
        assert(utf16(s) =~= units_of(s[0]) + utf16(s.skip(1)));
    }
}

/// Text that was turned into code units reads back.
pub proof fn law_utf16_reads_back(s: Seq<char>)
    ensures
        utf16_lossy(utf16(s)) == s,
    decreases s.len(),
{
    if s.len() > 0 {
        let c = s[0];
        let rest = utf16(s.skip(1));
        lemma_utf16_front(s);
        law_utf16_reads_back(s.skip(1));
        vstd::utf8::char_is_scalar(c);
        let u = c as u32;
        let units = utf16(s);
        if u < 0x1_0000 {
            assert(units.skip(1) =~= rest);
            assert(units[0] == u);
            vstd::utf8::char_u32_cast(c, units[0] as u32);
            assert(utf16_lossy(units) == seq![c] + s.skip(1));
        } else {
            assert(units.skip(2) =~= rest);
            let over = u - 0x1_0000;
            assert(units[0] == 0xd800 + over / 0x400);
            assert(units[1] == 0xdc00 + over % 0x400);
            assert(is_high(units[0]) && is_low(units[1]));
            let v = 0x1_0000 + (units[0] - 0xd800) * 0x400 + (units[1] - 0xdc00);
            assert(v == u);
            vstd::utf8::char_u32_cast(c, v as u32);
            assert(utf16_lossy(units) == seq![c] + s.skip(1));
        }
        assert(utf16_lossy(utf16(s)) =~= s);
    }
}

/// Code units as bytes, least significant first.
pub open spec fn unit_bytes(units: Seq<u16>) -> Seq<u8> {
    Seq::new(2 * units.len(), |i: int| le16(units[i / 2])[i % 2])
}

/// The code units in bytes; an odd byte at the end is left out.
pub open spec fn byte_units(bytes: Seq<u8>) -> Seq<u16> {
    Seq::new(bytes.len() / 2, |i: int| le16_at(bytes, 2 * i))
}

/// The code units in front of the first zero.
pub open spec fn until_zero(units: Seq<u16>) -> Seq<u16>
    decreases units.len(),
{
    if units.len() == 0 || units[0] == 0 {
        seq![]
    } else {
        seq![units[0]] + until_zero(units.skip(1))
    }
}

/// Code units as bytes.
pub fn to_bytes(units: &[u16]) -> (out: Vec<u8>)
    ensures
        out@ == unit_bytes(units@),
{
    let n: usize = units.len();
    let mut out: Vec<u8> = Vec::new();
    let mut i: usize = 0;
    while i < n
        invariant
            i <= n == units@.len(),
            out@ == unit_bytes(units@).take(2 * i),
        decreases n - i,
    {
        let u: u16 = units[i];
        out.push((u % 256) as u8);
        out.push((u / 256) as u8);
        i += 1;
        proof {
            let t = unit_bytes(units@);
            let k = i - 1;
            assert((2 * k) / 2 == k && (2 * k) % 2 == 0);
            assert((2 * k + 1) / 2 == k && (2 * k + 1) % 2 == 1);
            assert(t.take(2 * i) =~= t.take(2 * k).push(t[2 * k]).push(t[2 * k + 1]));
        }
    }
    assert(unit_bytes(units@).take(2 * n) =~= unit_bytes(units@));
    out
}

proof fn lemma_until_zero(units: Seq<u16>, k: int)
    requires
        0 <= k <= units.len(),
        forall|i: int| 0 <= i < k ==> #[trigger] units[i] != 0,
        k < units.len() ==> units[k] == 0,
    ensures
        until_zero(units) == units.take(k),
    decreases k,
{
    if k == 0 {
        assert(units.take(0) =~= seq![]);
    } else {
        let t = units.skip(1);
        assert forall|i: int| 0 <= i < k - 1 implies #[trigger] t[i] != 0 by {
            assert(t[i] == units[i + 1]);
        }
        lemma_until_zero(t, k - 1);
        assert(seq![units[0]] + t.take(k - 1) =~= units.take(k));
    }
}

/// The text in bytes that hold UTF-16 up to the first zero.
pub fn text_in_bytes(bytes: &[u8]) -> (out: String)
    ensures
        out@ == utf16_lossy(until_zero(byte_units(bytes@))),
{
    let total: usize = bytes.len();
    let n: usize = total / 2;
    let ghost all = byte_units(bytes@);
    let mut units: Vec<u16> = Vec::new();
    let mut i: usize = 0;
    let mut ended: bool = false;
    while i < n && !ended
        invariant
            total == bytes@.len(),
            i <= n == total / 2,
            all == byte_units(bytes@),
            units@ == all.take(i as int),
            forall|k: int| 0 <= k < i ==> #[trigger] all[k] != 0,
            ended ==> i < n && all[i as int] == 0,
        decreases n - i, (if ended { 0int } else { 1int }),
    {
        let u: u16 = crate::bytes::read_le16(bytes, 2 * i);
        assert(u == all[i as int]);
        if u == 0 {
            ended = true;
        } else {
            units.push(u);
            i += 1;
            assert(all.take(i as int) =~= all.take(i - 1).push(u));
        }
    }
    proof {
        lemma_until_zero(all, i as int);
    }
    decode_utf16(units.as_slice())
}

/// Whether the character of code zero occurs in a text.
pub open spec fn has_zero(s: Seq<char>) -> bool {
    exists|i: int| 0 <= i < s.len() && (#[trigger] s[i]) as u32 == 0
}

proof fn lemma_units_nonzero(s: Seq<char>)
    requires
        !has_zero(s),
    ensures
        forall|i: int| 0 <= i < utf16(s).len() ==> #[trigger] utf16(s)[i] != 0,
    decreases s.len(),
{
    if s.len() > 0 {
        let rest = s.drop_last();
        assert forall|i: int| 0 <= i < rest.len() implies (#[trigger] rest[i]) as u32 != 0 by {
            assert(s[i] == rest[i]);
        }
        lemma_units_nonzero(rest);
        let c = s.last();
        assert(s[s.len() - 1] == c);
        vstd::utf8::char_is_scalar(c);
        assert(c as u32 != 0);
        let u = units_of(c);
        assert forall|i: int| 0 <= i < utf16(s).len() implies #[trigger] utf16(s)[i] != 0 by {
            let k = utf16(rest).len();
            if i < k {
                assert(utf16(s)[i] == utf16(rest)[i]);
            } else {
                assert(utf16(s)[i] == u[i - k]);
            }
        }
    }
}

/// Text that was written down as bytes with a zero behind it reads back, as
/// long as no zero stands in it.
pub proof fn law_wide_text_reads_back(s: Seq<char>)
    requires
        !has_zero(s),
    ensures
        until_zero(byte_units(unit_bytes(wide_text(s)))) == utf16(s),
        utf16_lossy(until_zero(byte_units(unit_bytes(wide_text(s))))) == s,
{
    law_utf16_reads_back(s);
    let w = wide_text(s);
    let b = unit_bytes(w);
    assert forall|i: int| 0 <= i < w.len() implies byte_units(b)[i] == w[i] by {
        assert((2 * i) / 2 == i && (2 * i) % 2 == 0);
        assert((2 * i + 1) / 2 == i && (2 * i + 1) % 2 == 1);
        assert(b[2 * i] == le16(w[i])[0]);
        assert(b[2 * i + 1] == le16(w[i])[1]);
    }
    assert(byte_units(b) =~= w);
    lemma_units_nonzero(s);
    let n = utf16(s).len() as int;
    assert forall|i: int| 0 <= i < n implies #[trigger] w[i] != 0 by {
        assert(w[i] == utf16(s)[i]);
    }
    lemma_until_zero(w, n);
    assert(w.take(n) =~= utf16(s));
}

/// A character up to 0xffff is one code unit, its own number. Any other is a
/// pair that holds what it is beyond 0xffff: the upper ten bits over 0xd800 and
/// the lower ten over 0xdc00.
pub proof fn law_characters_become_code_units(c: char)
    ensures
        (c as u32) < 0x1_0000 ==> units_of(c).len() == 1 && units_of(c)[0] == c as u32,
        (c as u32) >= 0x1_0000 ==> {
            &&& units_of(c).len() == 2
            &&& 0xd800 <= units_of(c)[0] <= 0xdbff
            &&& 0xdc00 <= units_of(c)[1] <= 0xdfff
            &&& 0x400 * (units_of(c)[0] - 0xd800) + (units_of(c)[1] - 0xdc00) + 0x1_0000
                == c as u32
        },
{
}

/// A text becomes the code units of its characters, in their order.
pub proof fn law_texts_become_their_characters(a: Seq<char>, c: char, b: Seq<char>)
    ensures
        utf16(Seq::<char>::empty()).len() == 0,
        utf16(seq![c]) == units_of(c),
        utf16(a + b) == utf16(a) + utf16(b),
        wide_text(a) == utf16(a) + seq![0u16],
    decreases b.len(),
{
    reveal_with_fuel(utf16, 2);
    assert(seq![c].drop_last() =~= Seq::<char>::empty());
    assert(utf16(seq![c]) =~= units_of(c));
    if b.len() == 0 {
        assert(a + b =~= a);
        assert(utf16(a) + utf16(b) =~= utf16(a));
    } else {
        law_texts_become_their_characters(a, c, b.drop_last());
        assert((a + b).drop_last() =~= a + b.drop_last());
        assert((a + b).last() == b.last());
        assert(utf16(a + b) =~= utf16(a) + utf16(b));
    }
    assert(wide_text(a) =~= utf16(a) + seq![0u16]);
}

/// Each code unit is two bytes, the lower one first, both ways.
pub proof fn law_code_units_are_two_bytes(units: Seq<u16>, bytes: Seq<u8>, i: int)
    ensures
        unit_bytes(units).len() == 2 * units.len(),
        0 <= i < units.len() ==> unit_bytes(units)[2 * i] + 0x100 * unit_bytes(units)[2 * i + 1]
            == units[i],
        2 * byte_units(bytes).len() == bytes.len() - bytes.len() % 2,
        0 <= i < byte_units(bytes).len() ==> byte_units(bytes)[i] == bytes[2 * i] + 0x100
            * bytes[2 * i + 1],
{
    if 0 <= i < units.len() {
        assert((2 * i) / 2 == i && (2 * i) % 2 == 0);
        assert((2 * i + 1) / 2 == i && (2 * i + 1) % 2 == 1);
        assert(unit_bytes(units)[2 * i] == le16(units[i])[0]);
        assert(unit_bytes(units)[2 * i + 1] == le16(units[i])[1]);
    }
}

/// A text ends in front of its first zero: what comes before stays, and what
/// comes after does not matter.
pub proof fn law_texts_end_at_the_first_zero(before: Seq<u16>, after: Seq<u16>)
    requires
        forall|i: int| 0 <= i < before.len() ==> #[trigger] before[i] != 0,
    ensures
        until_zero(before) == before,
        until_zero(before.push(0) + after) == before,
{
    lemma_until_zero(before, before.len() as int);
    assert(before.take(before.len() as int) =~= before);
    let whole = before.push(0) + after;
    assert forall|i: int| 0 <= i < before.len() implies #[trigger] whole[i] != 0 by {
        assert(whole[i] == before[i]);
    }
    assert(whole[before.len() as int] == 0);
    lemma_until_zero(whole, before.len() as int);
    assert(whole.take(before.len() as int) =~= before);
}

} // verus!
