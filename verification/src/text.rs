//! Strings as sequences of characters.

use vstd::prelude::*;
use vstd::string::StringExecFns;
use vstd::utf8::{decode_utf8, encode_utf8_decode_utf8, valid_utf8};

verus! {

/// Appends one character to the end of the string.
pub assume_specification[ String::push ](s: &mut String, c: char)
    ensures
        final(s)@ == old(s)@.push(c),
;

/// Calls `String::from_utf8`, which gives the string that the bytes encode
/// and fails exactly when they are not valid UTF-8.
#[verifier::external_body]
pub(crate) fn utf8_text(bytes: Vec<u8>) -> (r: Option<String>)
    ensures
        r is Some <==> valid_utf8(bytes@),
        r is Some ==> r->0@ == decode_utf8(bytes@),
{
    String::from_utf8(bytes).ok()
}

/// The characters of `s`, in order.
pub fn chars_of(s: &str) -> (out: Vec<char>)
    ensures
        out@ == s@,
{
    let mut out: Vec<char> = Vec::new();
    for c in it: s.chars()
        invariant
            out@ == s@.take(it.index() as int),
            it.seq() == s@,
    {
        out.push(c);
        assert(s@.take(it.index() + 1) =~= s@.take(it.index() as int).push(c));
    }
    assert(s@.take(s@.len() as int) =~= s@);
    out
}

/// The string made of `chars`, in order.
pub fn string_of(chars: &[char]) -> (out: String)
    ensures
        out@ == chars@,
{
    let mut out: String = String::new();
    let n: usize = chars.len();
    let mut i: usize = 0;
    while i < n
        invariant
            i <= n == chars@.len(),
            out@ == chars@.take(i as int),
        decreases n - i,
    {
        out.push(chars[i]);
        i += 1;
        assert(chars@.take(i as int) =~= chars@.take(i - 1).push(chars@[i - 1]));
    }
    assert(chars@.take(n as int) =~= chars@);
    out
}

/// Whether two strings are the same.
pub fn same_text(a: &str, b: &str) -> (same: bool)
    ensures
        same == (a@ == b@),
{
    proof {
        encode_utf8_decode_utf8(a@);
        encode_utf8_decode_utf8(b@);
    }
    crate::bytes::same_bytes(a.as_bytes(), b.as_bytes())
}

/// A copy of `s`.
pub fn owned(s: &str) -> (out: String)
    ensures
        out@ == s@,
{
    String::from_str(s)
}

/// What `String::from_utf8_lossy` makes of bytes that are not valid UTF-8:
/// text with replacement characters.
pub uninterp spec fn utf8_repaired(bytes: Seq<u8>) -> Seq<char>;

/// The text that bytes stand for, repaired where they are not valid UTF-8.
pub open spec fn lossy(bytes: Seq<u8>) -> Seq<char> {
    if valid_utf8(bytes) {
        decode_utf8(bytes)
    } else {
        utf8_repaired(bytes)
    }
}

/// Calls `String::from_utf8_lossy`. Valid UTF-8 is decoded as it is; anything
/// else is repaired.
#[verifier::external_body]
pub(crate) fn lossy_text(bytes: &[u8]) -> (out: String)
    ensures
        valid_utf8(bytes@) ==> out@ == decode_utf8(bytes@),
        !valid_utf8(bytes@) ==> out@ == utf8_repaired(bytes@),
{
    String::from_utf8_lossy(bytes).into_owned()
}

/// Whether a character counts as white space (Unicode's White_Space).
pub open spec fn is_space(c: char) -> bool {
    let u = c as u32;
    ||| 0x09 <= u <= 0x0d
    ||| u == 0x20 || u == 0x85 || u == 0xa0 || u == 0x1680
    ||| 0x2000 <= u <= 0x200a
    ||| u == 0x2028 || u == 0x2029 || u == 0x202f || u == 0x205f || u == 0x3000
}

/// Whether a character is a control code (Unicode's category Cc).
pub open spec fn is_control(c: char) -> bool {
    c as u32 <= 0x1f || 0x7f <= c as u32 <= 0x9f
}

/// Whether a character counts as white space.
pub fn is_space_char(c: char) -> (yes: bool)
    ensures
        yes == is_space(c),
{
    let u: u32 = c as u32;
    (0x09 <= u && u <= 0x0d) || u == 0x20 || u == 0x85 || u == 0xa0 || u == 0x1680 || (0x2000 <= u
        && u <= 0x200a) || u == 0x2028 || u == 0x2029 || u == 0x202f || u == 0x205f || u == 0x3000
}

/// Whether a character is a control code.
pub fn is_control_char(c: char) -> (yes: bool)
    ensures
        yes == is_control(c),
{
    let u: u32 = c as u32;
    u <= 0x1f || (0x7f <= u && u <= 0x9f)
}

/// A sequence without the leading characters of a kind.
pub open spec fn trim_start(s: Seq<char>, gone: spec_fn(char) -> bool) -> Seq<char>
    decreases s.len(),
{
    if s.len() > 0 && gone(s[0]) {
        trim_start(s.skip(1), gone)
    } else {
        s
    }
}

/// A sequence without the trailing characters of a kind.
pub open spec fn trim_end(s: Seq<char>, gone: spec_fn(char) -> bool) -> Seq<char>
    decreases s.len(),
{
    if s.len() > 0 && gone(s.last()) {
        trim_end(s.drop_last(), gone)
    } else {
        s
    }
}

/// A sequence without the characters of a kind at either end.
pub open spec fn trim(s: Seq<char>, gone: spec_fn(char) -> bool) -> Seq<char> {
    trim_end(trim_start(s, gone), gone)
}

/// Text without white space at either end.
pub open spec fn trimmed(s: Seq<char>) -> Seq<char> {
    trim(s, |c: char| is_space(c))
}

proof fn lemma_trim_start_at(s: Seq<char>, gone: spec_fn(char) -> bool, k: int)
    requires
        0 <= k <= s.len(),
        forall|i: int| 0 <= i < k ==> gone(#[trigger] s[i]),
        k < s.len() ==> !gone(s[k]),
    ensures
        trim_start(s, gone) == s.skip(k),
    decreases k,
{
    if k == 0 {
        assert(s.skip(0) =~= s);
    } else {
        assert(gone(s[0]));
        let t = s.skip(1);
        assert forall|i: int| 0 <= i < k - 1 implies gone(#[trigger] t[i]) by {
            assert(t[i] == s[i + 1]);
        }
        lemma_trim_start_at(t, gone, k - 1);
        assert(t.skip(k - 1) =~= s.skip(k));
    }
}

proof fn lemma_trim_end_at(s: Seq<char>, gone: spec_fn(char) -> bool, k: int)
    requires
        0 <= k <= s.len(),
        forall|i: int| k <= i < s.len() ==> gone(#[trigger] s[i]),
        k > 0 ==> !gone(s[k - 1]),
    ensures
        trim_end(s, gone) == s.take(k),
    decreases s.len() - k,
{
    if k == s.len() {
        assert(s.take(k) =~= s);
    } else {
        assert(gone(s.last()));
        let t = s.drop_last();
        assert forall|i: int| k <= i < t.len() implies gone(#[trigger] t[i]) by {
            assert(t[i] == s[i]);
        }
        lemma_trim_end_at(t, gone, k);
        assert(t.take(k) =~= s.take(k));
    }
}

/// Trimming takes a contiguous piece out of the text.
pub proof fn lemma_trim_is_subrange(s: Seq<char>, gone: spec_fn(char) -> bool)
    ensures
        exists|i: int, j: int|
            0 <= i <= j <= s.len() && trim(s, gone) == #[trigger] s.subrange(i, j),
{
    let i = lemma_trim_start_skips(s, gone);
    let t = trim_start(s, gone);
    let j = lemma_trim_end_takes(t, gone);
    assert(trim(s, gone) =~= s.subrange(i, i + j));
}

proof fn lemma_trim_start_skips(s: Seq<char>, gone: spec_fn(char) -> bool) -> (k: int)
    ensures
        0 <= k <= s.len(),
        trim_start(s, gone) == s.skip(k),
    decreases s.len(),
{
    if s.len() > 0 && gone(s[0]) {
        let k = lemma_trim_start_skips(s.skip(1), gone);
        assert(s.skip(1).skip(k) =~= s.skip(k + 1));
        k + 1
    } else {
        assert(s.skip(0) =~= s);
        0
    }
}

proof fn lemma_trim_end_takes(s: Seq<char>, gone: spec_fn(char) -> bool) -> (k: int)
    ensures
        0 <= k <= s.len(),
        trim_end(s, gone) == s.take(k),
    decreases s.len(),
{
    if s.len() > 0 && gone(s.last()) {
        let k = lemma_trim_end_takes(s.drop_last(), gone);
        assert(s.drop_last().take(k) =~= s.take(k));
        k
    } else {
        assert(s.take(s.len() as int) =~= s);
        s.len() as int
    }
}

/// Text that has none of the characters of a kind at its ends is not trimmed.
pub proof fn lemma_trim_keeps(s: Seq<char>, gone: spec_fn(char) -> bool)
    requires
        s.len() > 0 ==> !gone(s[0]) && !gone(s.last()),
    ensures
        trim(s, gone) == s,
{
    lemma_trim_start_at(s, gone, 0);
    assert(s.skip(0) =~= s);
    lemma_trim_end_at(s, gone, s.len() as int);
    assert(s.take(s.len() as int) =~= s);
}

/// One character of the kind in front of such a text, or behind it, goes.
pub proof fn lemma_trim_one(s: Seq<char>, c: char, gone: spec_fn(char) -> bool)
    requires
        s.len() > 0,
        !gone(s[0]),
        !gone(s.last()),
        gone(c),
    ensures
        trim(seq![c] + s, gone) == s,
        trim(s + seq![c], gone) == s,
{
    let a = seq![c] + s;
    assert(a[1] == s[0]);
    lemma_trim_start_at(a, gone, 1);
    assert(a.skip(1) =~= s);
    lemma_trim_end_at(s, gone, s.len() as int);
    assert(s.take(s.len() as int) =~= s);
    let b = s + seq![c];
    lemma_trim_start_at(b, gone, 0);
    assert(b.skip(0) =~= b);
    assert(b[s.len() - 1] == s.last());
    lemma_trim_end_at(b, gone, s.len() as int);
    assert(b.take(s.len() as int) =~= s);
}

/// Text of such characters alone goes whole.
pub proof fn lemma_trim_all(s: Seq<char>, gone: spec_fn(char) -> bool)
    requires
        forall|i: int| 0 <= i < s.len() ==> gone(#[trigger] s[i]),
    ensures
        trim(s, gone) == Seq::<char>::empty(),
{
    lemma_trim_start_at(s, gone, s.len() as int);
    assert(s.skip(s.len() as int) =~= seq![]);
    lemma_trim_end_at(seq![], gone, 0);
    assert(Seq::<char>::empty().take(0) =~= seq![]);
}

/// A copy of some of the characters.
pub fn copy_chars(s: &[char], from: usize, to: usize) -> (out: Vec<char>)
    requires
        from <= to <= s@.len(),
    ensures
        out@ == s@.subrange(from as int, to as int),
{
    let mut out: Vec<char> = Vec::new();
    let mut i: usize = from;
    while i < to
        invariant
            from <= i <= to <= s@.len(),
            out@ == s@.subrange(from as int, i as int),
        decreases to - i,
    {
        out.push(s[i]);
        i += 1;
        assert(s@.subrange(from as int, i as int) =~= s@.subrange(from as int, i - 1).push(
            s@[i - 1],
        ));
    }
    out
}

/// Text without white space at either end.
pub fn trim_space(s: &[char]) -> (out: Vec<char>)
    ensures
        out@ == trimmed(s@),
{
    let gone = Ghost(|c: char| is_space(c));
    let n: usize = s.len();
    let mut from: usize = 0;
    while from < n && is_space_char(s[from])
        invariant
            from <= n == s@.len(),
            forall|i: int| 0 <= i < from ==> is_space(#[trigger] s@[i]),
        decreases n - from,
    {
        from += 1;
    }
    let mut to: usize = n;
    while to > from && is_space_char(s[to - 1])
        invariant
            from <= to <= n == s@.len(),
            forall|i: int| to <= i < n ==> is_space(#[trigger] s@[i]),
        decreases to,
    {
        to -= 1;
    }
    proof {
        lemma_trim_start_at(s@, gone@, from as int);
        let t = s@.skip(from as int);
        assert forall|i: int| to - from <= i < t.len() implies (gone@)(#[trigger] t[i]) by {
            assert(t[i] == s@[i + from]);
        }
        lemma_trim_end_at(t, gone@, to - from);
        assert(t.take(to - from) =~= s@.subrange(from as int, to as int));
    }
    copy_chars(s, from, to)
}

/// Text without dots at either end.
pub fn trim_dots(s: &[char]) -> (out: Vec<char>)
    ensures
        out@ == trim(s@, |c: char| c == '.'),
{
    let gone = Ghost(|c: char| c == '.');
    let n: usize = s.len();
    let mut from: usize = 0;
    while from < n && s[from] == '.'
        invariant
            from <= n == s@.len(),
            forall|i: int| 0 <= i < from ==> #[trigger] s@[i] == '.',
        decreases n - from,
    {
        from += 1;
    }
    let mut to: usize = n;
    while to > from && s[to - 1] == '.'
        invariant
            from <= to <= n == s@.len(),
            forall|i: int| to <= i < n ==> #[trigger] s@[i] == '.',
        decreases to,
    {
        to -= 1;
    }
    proof {
        lemma_trim_start_at(s@, gone@, from as int);
        let t = s@.skip(from as int);
        assert forall|i: int| to - from <= i < t.len() implies (gone@)(#[trigger] t[i]) by {
            assert(t[i] == s@[i + from]);
        }
        lemma_trim_end_at(t, gone@, to - from);
        assert(t.take(to - from) =~= s@.subrange(from as int, to as int));
    }
    copy_chars(s, from, to)
}

/// A decimal digit.
pub open spec fn digit(d: int) -> char {
    if d == 0 {
        '0'
    } else if d == 1 {
        '1'
    } else if d == 2 {
        '2'
    } else if d == 3 {
        '3'
    } else if d == 4 {
        '4'
    } else if d == 5 {
        '5'
    } else if d == 6 {
        '6'
    } else if d == 7 {
        '7'
    } else if d == 8 {
        '8'
    } else {
        '9'
    }
}

/// A number in decimal, without leading zeros.
pub open spec fn decimal(n: nat) -> Seq<char>
    decreases n,
{
    if n < 10 {
        seq![digit(n as int)]
    } else {
        decimal(n / 10).push(digit((n % 10) as int))
    }
}

/// Different numbers are written differently.
pub proof fn lemma_decimal_injective(m: nat, n: nat)
    requires
        decimal(m) == decimal(n),
    ensures
        m == n,
    decreases m,
{
    lemma_decimal_len(m);
    lemma_decimal_len(n);
    assert(decimal(m).last() == digit((m % 10) as int));
    assert(decimal(n).last() == digit((n % 10) as int));
    if m >= 10 && n >= 10 {
        assert(decimal(m).drop_last() =~= decimal(m / 10));
        assert(decimal(n).drop_last() =~= decimal(n / 10));
        lemma_decimal_injective(m / 10, n / 10);
    }
}

proof fn lemma_decimal_len(n: nat)
    ensures
        decimal(n).len() >= 1,
        n >= 10 ==> decimal(n).len() >= 2,
        n < 10 ==> decimal(n).len() == 1,
    decreases n,
{
    if n >= 10 {
        lemma_decimal_len(n / 10);
    }
}

/// Only digits occur in a decimal number.
pub proof fn lemma_decimal_digits(n: nat)
    ensures
        decimal(n).len() >= 1,
        forall|i: int| 0 <= i < decimal(n).len() ==> '0' <= #[trigger] decimal(n)[i] <= '9',
    decreases n,
{
    if n >= 10 {
        lemma_decimal_digits(n / 10);
    }
}

/// A number in decimal.
pub fn decimal_text(n: u64) -> (out: String)
    ensures
        out@ == decimal(n as nat),
    decreases n,
{
    let mut out: String = if n >= 10 {
        decimal_text(n / 10)
    } else {
        String::new()
    };
    let d: u64 = n % 10;
    let c: char = if d == 0 {
        '0'
    } else if d == 1 {
        '1'
    } else if d == 2 {
        '2'
    } else if d == 3 {
        '3'
    } else if d == 4 {
        '4'
    } else if d == 5 {
        '5'
    } else if d == 6 {
        '6'
    } else if d == 7 {
        '7'
    } else if d == 8 {
        '8'
    } else {
        '9'
    };
    out.push(c);
    assert(out@ =~= decimal(n as nat));
    out
}

/// Whether a text begins with another.
pub open spec fn begins_with(s: Seq<char>, p: Seq<char>) -> bool {
    p.len() <= s.len() && s.take(p.len() as int) == p
}

/// Whether a text holds another at a place.
pub open spec fn holds_at(s: Seq<char>, p: Seq<char>, i: int) -> bool {
    0 <= i && i + p.len() <= s.len() && s.subrange(i, i + p.len() as int) == p
}

/// Whether a text holds another anywhere.
pub open spec fn holds_text(s: Seq<char>, p: Seq<char>) -> bool {
    exists|i: int| holds_at(s, p, i)
}

/// Whether `p` stands at `at` in `s`.
fn stands_at(s: &[char], p: &[char], at: usize) -> (yes: bool)
    requires
        at + p@.len() <= s@.len(),
    ensures
        yes == holds_at(s@, p@, at as int),
{
    let n: usize = p.len();
    let total: usize = s.len();
    let mut i: usize = 0;
    while i < n
        invariant
            i <= n == p@.len(),
            at + n <= s@.len() == total,
            forall|k: int| 0 <= k < i ==> s@[at + k] == #[trigger] p@[k],
        decreases n - i,
    {
        if s[at + i] != p[i] {
            assert(s@.subrange(at as int, at + n as int)[i as int] != p@[i as int]);
            return false;
        }
        i += 1;
    }
    assert(s@.subrange(at as int, at + n as int) =~= p@);
    true
}

/// Whether a text begins with another.
pub fn starts_with(s: &[char], p: &str) -> (yes: bool)
    ensures
        yes == begins_with(s@, p@),
{
    let word: Vec<char> = chars_of(p);
    if word.len() > s.len() {
        return false;
    }
    assert(s@.subrange(0, p@.len() as int) =~= s@.take(p@.len() as int));
    stands_at(s, word.as_slice(), 0)
}

/// Whether a text holds another anywhere.
pub fn contains_text(s: &[char], p: &str) -> (yes: bool)
    ensures
        yes == holds_text(s@, p@),
{
    let word: Vec<char> = chars_of(p);
    if word.len() > s.len() {
        return false;
    }
    let last: usize = s.len() - word.len();
    let mut i: usize = 0;
    while i <= last
        invariant
            word@ == p@,
            last + word@.len() == s@.len(),
            i <= last + 1,
            forall|k: int| 0 <= k < i ==> !#[trigger] holds_at(s@, p@, k),
        decreases last + 1 - i,
    {
        if stands_at(s, word.as_slice(), i) {
            return true;
        }
        if i == last {
            assert forall|k: int| !holds_at(s@, p@, k) by {
                if holds_at(s@, p@, k) && k < last {
                    assert(false);
                }
            }
            return false;
        }
        i += 1;
    }
    false
}

/// What a decimal number stands for.
pub open spec fn number_in(s: Seq<char>) -> int
    decreases s.len(),
{
    if s.len() == 0 {
        0
    } else {
        10 * number_in(s.drop_last()) + (s.last() as u32 - 48)
    }
}

/// A number in decimal stands for that number, and does not begin with a zero
/// unless it is zero.
pub proof fn law_decimal_stands_for_the_number(n: nat)
    ensures
        number_in(decimal(n)) == n,
        decimal(n).len() > 0,
        n > 0 ==> decimal(n)[0] != '0',
        forall|i: int| 0 <= i < decimal(n).len() ==> '0' <= #[trigger] decimal(n)[i] <= '9',
    decreases n,
{
    lemma_decimal_digits(n);
    reveal_with_fuel(number_in, 2);
    if n >= 10 {
        law_decimal_stands_for_the_number(n / 10);
        assert(decimal(n).drop_last() =~= decimal(n / 10));
        assert(decimal(n)[0] == decimal(n / 10)[0]);
    } else {
        assert(decimal(n).drop_last() =~= seq![]);
    }
}

/// White space around a text goes, and nothing else: text that neither begins
/// nor ends with it stays as it is, whatever white space surrounds it.
pub proof fn law_only_white_space_is_trimmed(before: Seq<char>, s: Seq<char>, after: Seq<char>)
    requires
        forall|i: int|
            0 <= i < before.len() ==> (#[trigger] before[i] == ' ' || '\u{9}' <= before[i]
                <= '\u{d}' || before[i] == '\u{a0}' || before[i] == '\u{3000}'),
        forall|i: int|
            0 <= i < after.len() ==> (#[trigger] after[i] == ' ' || '\u{9}' <= after[i] <= '\u{d}'
                || after[i] == '\u{a0}' || after[i] == '\u{3000}'),
        s.len() > 0,
        '!' <= s[0] <= '~',
        '!' <= s.last() <= '~',
    ensures
        trimmed(before + s + after) == s,
        trimmed(before) == Seq::<char>::empty(),
{
    let space = |c: char| is_space(c);
    let all = before + s + after;
    assert forall|i: int| 0 <= i < before.len() implies space(#[trigger] all[i]) by {
        assert(all[i] == before[i]);
    }
    assert(all[before.len() as int] == s[0]);
    lemma_trim_start_at(all, space, before.len() as int);
    let rest = all.skip(before.len() as int);
    assert forall|i: int| s.len() <= i < rest.len() implies space(#[trigger] rest[i]) by {
        assert(rest[i] == after[i - s.len()]);
    }
    assert(rest[s.len() - 1] == s.last());
    lemma_trim_end_at(rest, space, s.len() as int);
    assert(rest.take(s.len() as int) =~= s);
    lemma_trim_start_at(before, space, before.len() as int);
    assert(before.skip(before.len() as int) =~= seq![]);
    lemma_trim_end_at(seq![], space, 0);
    assert(Seq::<char>::empty().take(0) =~= seq![]);
}

/// The control characters are those below 32 and those from 127 to 159.
pub proof fn law_control_characters(c: char)
    ensures
        is_control(c) <==> (c as u32) < 32 || 127 <= (c as u32) < 160,
{
}

/// A text begins with what it was made to begin with, and holds what was put
/// in it, wherever that is; what begins it, it holds at the very front.
pub proof fn law_texts_hold_what_was_put_in(before: Seq<char>, p: Seq<char>, after: Seq<char>)
    ensures
        begins_with(p + after, p),
        holds_at(before + p + after, p, before.len() as int),
        holds_text(before + p + after, p),
        begins_with(after, p) <==> holds_at(after, p, 0),
        begins_with(after, p) ==> after == p + after.skip(p.len() as int),
{
    assert((p + after).take(p.len() as int) =~= p);
    let whole = before + p + after;
    assert(whole.subrange(before.len() as int, (before.len() + p.len()) as int) =~= p);
    if p.len() <= after.len() {
        assert(after.take(p.len() as int) =~= after.subrange(0, p.len() as int));
        assert(after =~= after.take(p.len() as int) + after.skip(p.len() as int));
    }
}

/// What a text holds at a place can be taken out there: the text is what comes
/// before, that, and what comes after.
pub proof fn law_what_is_held_is_there(s: Seq<char>, p: Seq<char>, i: int)
    requires
        holds_at(s, p, i),
    ensures
        0 <= i <= s.len() - p.len(),
        s == s.take(i) + p + s.skip(i + p.len() as int),
        holds_text(s, p),
{
    assert(s =~= s.take(i) + s.subrange(i, i + p.len() as int) + s.skip(i + p.len() as int));
}

} // verus!
