//! Hexadecimal text, and sealed secrets as they are stored.
//!
//! A saved password is sealed by the system for the current account before it
//! is written down; the sealed bytes are kept as hexadecimal text.

use vstd::prelude::*;

use crate::text::{chars_of, utf8_text};

verus! {

/// The lower-case hexadecimal digit of a number below 16.
pub open spec fn hex_digit(n: int) -> char {
    if n == 0 {
        '0'
    } else if n == 1 {
        '1'
    } else if n == 2 {
        '2'
    } else if n == 3 {
        '3'
    } else if n == 4 {
        '4'
    } else if n == 5 {
        '5'
    } else if n == 6 {
        '6'
    } else if n == 7 {
        '7'
    } else if n == 8 {
        '8'
    } else if n == 9 {
        '9'
    } else if n == 10 {
        'a'
    } else if n == 11 {
        'b'
    } else if n == 12 {
        'c'
    } else if n == 13 {
        'd'
    } else if n == 14 {
        'e'
    } else {
        'f'
    }
}

/// The number that a hexadecimal digit of either case stands for; -1 for any
/// other character.
pub open spec fn hex_value(c: char) -> int {
    if '0' <= c <= '9' {
        c as u32 - 48
    } else if 'a' <= c <= 'f' {
        c as u32 - 87
    } else if 'A' <= c <= 'F' {
        c as u32 - 55
    } else {
        -1
    }
}

/// Bytes as lower-case hexadecimal text, two digits each.
pub open spec fn hex_text(bytes: Seq<u8>) -> Seq<char> {
    Seq::new(
        2 * bytes.len(),
        |i: int|
            hex_digit(
                if i % 2 == 0 {
                    bytes[i / 2] as int / 16
                } else {
                    bytes[i / 2] as int % 16
                },
            ),
    )
}

/// Whether a text is hexadecimal: an even number of digits of either case.
pub open spec fn is_hex(s: Seq<char>) -> bool {
    s.len() % 2 == 0 && forall|i: int| 0 <= i < s.len() ==> hex_value(#[trigger] s[i]) >= 0
}

/// The bytes that a hexadecimal text stands for.
pub open spec fn hex_bytes(s: Seq<char>) -> Seq<u8> {
    Seq::new(
        s.len() / 2,
        |i: int| (16 * hex_value(s[2 * i]) + hex_value(s[2 * i + 1])) as u8,
    )
}

/// Hexadecimal text reads back as the bytes that it was written for.
pub proof fn law_hex_reads_back(bytes: Seq<u8>)
    ensures
        is_hex(hex_text(bytes)),
        hex_bytes(hex_text(bytes)) == bytes,
{
    let s = hex_text(bytes);
    assert forall|i: int| 0 <= i < s.len() implies hex_value(#[trigger] s[i]) >= 0 by {
        assert(0 <= bytes[i / 2] as int / 16 < 16);
    }
    assert forall|i: int| 0 <= i < bytes.len() implies hex_bytes(s)[i] == bytes[i] by {
        assert((2 * i) / 2 == i);
        assert((2 * i + 1) / 2 == i);
        let b = bytes[i] as int;
        assert(s[2 * i] == hex_digit(b / 16));
        assert(s[2 * i + 1] == hex_digit(b % 16));
        assert(hex_value(hex_digit(b / 16)) == b / 16);
        assert(hex_value(hex_digit(b % 16)) == b % 16);
    }
    assert(hex_bytes(s) =~= bytes);
}

fn digit_of(n: u8) -> (c: char)
    requires
        n < 16,
    ensures
        c == hex_digit(n as int),
{
    if n == 0 {
        '0'
    } else if n == 1 {
        '1'
    } else if n == 2 {
        '2'
    } else if n == 3 {
        '3'
    } else if n == 4 {
        '4'
    } else if n == 5 {
        '5'
    } else if n == 6 {
        '6'
    } else if n == 7 {
        '7'
    } else if n == 8 {
        '8'
    } else if n == 9 {
        '9'
    } else if n == 10 {
        'a'
    } else if n == 11 {
        'b'
    } else if n == 12 {
        'c'
    } else if n == 13 {
        'd'
    } else if n == 14 {
        'e'
    } else {
        'f'
    }
}

fn value_of(c: char) -> (n: Option<u8>)
    ensures
        n is Some <==> hex_value(c) >= 0,
        n is Some ==> n->0 == hex_value(c) && n->0 < 16,
{
    if '0' <= c && c <= '9' {
        Some((c as u32 - 48) as u8)
    } else if 'a' <= c && c <= 'f' {
        Some((c as u32 - 87) as u8)
    } else if 'A' <= c && c <= 'F' {
        Some((c as u32 - 55) as u8)
    } else {
        None
    }
}

/// Bytes as lower-case hexadecimal text.
pub fn hex_encode(bytes: &[u8]) -> (s: String)
    ensures
        s@ == hex_text(bytes@),
{
    let mut s: String = String::new();
    let n: usize = bytes.len();
    let mut i: usize = 0;
    while i < n
        invariant
            i <= n == bytes@.len(),
            s@ == hex_text(bytes@).take(2 * i),
        decreases n - i,
    {
        let b: u8 = bytes[i];
        s.push(digit_of(b / 16));
        s.push(digit_of(b % 16));
        i += 1;
        proof {
            let t = hex_text(bytes@);
            assert((2 * (i - 1)) / 2 == i - 1);
            assert((2 * (i - 1) + 1) / 2 == i - 1);
            assert(t.take(2 * i) =~= t.take(2 * (i - 1)).push(t[2 * (i - 1)]).push(
                t[2 * (i - 1) + 1],
            ));
        }
    }
    assert(hex_text(bytes@).take(2 * n) =~= hex_text(bytes@));
    s
}

/// The bytes that a hexadecimal text stands for; `None` if it is malformed.
pub fn hex_decode(s: &str) -> (r: Option<Vec<u8>>)
    ensures
        r is Some <==> is_hex(s@),
        r is Some ==> r->0@ == hex_bytes(s@),
{
    let chars: Vec<char> = chars_of(s);
    let n: usize = chars.len();
    if n % 2 != 0 {
        return None;
    }
    let mut out: Vec<u8> = Vec::new();
    let mut i: usize = 0;
    while i < n
        invariant
            i <= n == chars@.len(),
            chars@ == s@,
            n % 2 == 0,
            i % 2 == 0,
            forall|k: int| 0 <= k < i ==> hex_value(#[trigger] chars@[k]) >= 0,
            out@ == hex_bytes(chars@).take(i as int / 2),
        decreases n - i,
    {
        match (value_of(chars[i]), value_of(chars[i + 1])) {
            (Some(hi), Some(lo)) => {
                out.push(16 * hi + lo);
                i += 2;
                proof {
                    let k = i as int / 2;
                    let t = hex_bytes(chars@);
                    assert(t.take(k) =~= t.take(k - 1).push(t[k - 1]));
                }
            },
            _ => {
                assert(hex_value(chars@[i as int]) < 0 || hex_value(chars@[i + 1]) < 0);
                return None;
            },
        }
    }
    assert(hex_bytes(chars@).take(n as int / 2) =~= hex_bytes(chars@));
    Some(out)
}

/// How a sealed secret is written down: as hexadecimal text. If the system
/// could not seal it, nothing is: there is no falling back to the plain text.
pub fn sealed_text(sealed: Option<Vec<u8>>) -> (r: Option<String>)
    ensures
        r is Some <==> sealed is Some,
        r is Some ==> r->0@ == hex_text(sealed->0@),
{
    match sealed {
        Some(bytes) => Some(hex_encode(bytes.as_slice())),
        None => None,
    }
}

/// The secret in what the system has unsealed, if that is text.
pub fn unsealed_text(plain: Option<Vec<u8>>) -> (r: Option<String>)
    ensures
        r is Some <==> plain is Some && vstd::utf8::valid_utf8(plain->0@),
        r is Some ==> r->0@ == vstd::utf8::decode_utf8(plain->0@),
{
    match plain {
        Some(bytes) => utf8_text(bytes),
        None => None,
    }
}

/// Each byte is written as two lower-case digits, the higher first, that stand
/// for it in base sixteen.
pub proof fn law_hex_is_base_sixteen(bytes: Seq<u8>, i: int)
    requires
        0 <= i < bytes.len(),
    ensures
        ({
            let s = hex_text(bytes);
            let high = s[2 * i];
            let low = s[2 * i + 1];
            &&& s.len() == 2 * bytes.len()
            &&& '0' <= high <= '9' || 'a' <= high <= 'f'
            &&& '0' <= low <= '9' || 'a' <= low <= 'f'
            &&& 16 * (if high <= '9' {
                high as u32 - 48
            } else {
                high as u32 - 87
            }) + (if low <= '9' {
                low as u32 - 48
            } else {
                low as u32 - 87
            }) == bytes[i]
        }),
{
    assert((2 * i) / 2 == i && (2 * i) % 2 == 0);
    assert((2 * i + 1) / 2 == i && (2 * i + 1) % 2 == 1);
}

/// Hexadecimal is an even number of digits, of either case; and two of them
/// stand for their number in base sixteen.
pub proof fn law_hex_reads_either_case(s: Seq<char>, i: int)
    ensures
        is_hex(s) <==> s.len() % 2 == 0 && forall|k: int|
            0 <= k < s.len() ==> '0' <= #[trigger] s[k] <= '9' || 'a' <= s[k] <= 'f' || 'A' <= s[k]
                <= 'F',
        is_hex(s) ==> hex_bytes(s).len() * 2 == s.len(),
        is_hex(s) && 0 <= i < s.len() / 2 ==> ({
            let high = s[2 * i];
            let low = s[2 * i + 1];
            hex_bytes(s)[i] == 16 * (if high <= '9' {
                high as u32 - 48
            } else if high <= 'F' {
                high as u32 - 55
            } else {
                high as u32 - 87
            }) + (if low <= '9' {
                low as u32 - 48
            } else if low <= 'F' {
                low as u32 - 55
            } else {
                low as u32 - 87
            })
        }),
{
    if forall|k: int|
        0 <= k < s.len() ==> '0' <= #[trigger] s[k] <= '9' || 'a' <= s[k] <= 'f' || 'A' <= s[k]
            <= 'F' {
        assert forall|k: int| 0 <= k < s.len() implies hex_value(#[trigger] s[k]) >= 0 by {
            lemma_hex_value(s[k]);
        }
    }
    if is_hex(s) {
        assert forall|k: int| 0 <= k < s.len() implies '0' <= #[trigger] s[k] <= '9' || 'a' <= s[k]
            <= 'f' || 'A' <= s[k] <= 'F' by {
            assert(hex_value(s[k]) >= 0);
            lemma_hex_value(s[k]);
        }
        if 0 <= i < s.len() / 2 {
            assert(hex_value(s[2 * i]) >= 0 && hex_value(s[2 * i + 1]) >= 0);
            lemma_hex_value(s[2 * i]);
            lemma_hex_value(s[2 * i + 1]);
        }
    }
}

proof fn lemma_hex_value(c: char)
    ensures
        hex_value(c) >= 0 <==> '0' <= c <= '9' || 'a' <= c <= 'f' || 'A' <= c <= 'F',
        hex_value(c) >= 0 ==> hex_value(c) < 16 && hex_value(c) == (if c <= '9' {
            c as u32 - 48
        } else if c <= 'F' {
            c as u32 - 55
        } else {
            c as u32 - 87
        }),
{
}

} // verus!
