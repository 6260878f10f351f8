//! File names that a remote peer has chosen.
//!
//! Such a name is hostile input: it must not lead out of the folder that
//! received files go to, and it must not overwrite anything.

use vstd::prelude::*;
use vstd::string::StringExecFns;

use crate::text::{
    chars_of, copy_chars, decimal, decimal_text, is_control, is_control_char, is_space,
    law_decimal_stands_for_the_number, number_in,
    lemma_decimal_digits, lemma_decimal_injective, lemma_trim_all, lemma_trim_is_subrange,
    lemma_trim_keeps, lemma_trim_one, string_of, trim,
    trim_dots, trim_space, trimmed,
};

verus! {

/// How many characters of a name are kept, so that there is room for a suffix.
pub const MAX_NAME_CHARS: usize = 180;

/// Whether a character separates the components of a path on some system.
pub open spec fn is_separator(c: char) -> bool {
    c == '/' || c == '\\' || c == ':'
}

/// Whether a character has no place in a file name.
pub open spec fn is_illegal(c: char) -> bool {
    is_control(c) || c == '<' || c == '>' || c == '"' || c == '|' || c == '?' || c == '*'
}

/// What follows the last separator.
pub open spec fn last_component(s: Seq<char>) -> Seq<char>
    decreases s.len(),
{
    if s.len() == 0 || is_separator(s.last()) {
        seq![]
    } else {
        last_component(s.drop_last()).push(s.last())
    }
}

/// What precedes the first dot.
pub open spec fn before_dot(s: Seq<char>) -> Seq<char>
    decreases s.len(),
{
    if s.len() == 0 || s[0] == '.' {
        seq![]
    } else {
        seq![s[0]] + before_dot(s.skip(1))
    }
}

/// The last component without illegal characters, and without white space and
/// dots around it.
pub open spec fn cleaned(raw: Seq<char>) -> Seq<char> {
    let kept = last_component(raw).filter(|c: char| !is_illegal(c));
    trimmed(trim(trimmed(kept), |c: char| c == '.'))
}

/// The code of a character, of the capital letter for an ASCII letter.
pub open spec fn capital(c: char) -> int {
    if 'a' <= c <= 'z' {
        c as u32 - 32
    } else {
        c as u32 as int
    }
}

/// Whether a text spells a word in capitals, in either case.
pub open spec fn spells(s: Seq<char>, word: Seq<char>) -> bool {
    s.len() == word.len() && forall|i: int|
        0 <= i < s.len() ==> #[trigger] capital(s[i]) == word[i] as u32
}

/// The device names that Windows reserves: CON, PRN, AUX, NUL, and COM and LPT
/// with a digit from 1 to 9.
pub open spec fn is_device(s: Seq<char>) -> bool {
    ||| spells(s, seq!['C', 'O', 'N'])
    ||| spells(s, seq!['P', 'R', 'N'])
    ||| spells(s, seq!['A', 'U', 'X'])
    ||| spells(s, seq!['N', 'U', 'L'])
    ||| s.len() == 4 && (spells(s.take(3), seq!['C', 'O', 'M']) || spells(
        s.take(3),
        seq!['L', 'P', 'T'],
    )) && '1' <= s[3] <= '9'
}

/// What a peer's file name is reduced to; `None` if nothing usable is left.
pub open spec fn sanitized(raw: Seq<char>) -> Option<Seq<char>> {
    let name = cleaned(raw);
    if name.len() == 0 || name == seq!['.'] || name == seq!['.', '.'] {
        None
    } else if is_device(before_dot(name)) {
        Some(seq!['_'] + name)
    } else if name.len() > MAX_NAME_CHARS {
        Some(name.take(MAX_NAME_CHARS as int))
    } else {
        Some(name)
    }
}

proof fn lemma_last_component_at(s: Seq<char>, k: int)
    requires
        0 <= k <= s.len(),
        forall|i: int| k <= i < s.len() ==> !is_separator(#[trigger] s[i]),
        k > 0 ==> is_separator(s[k - 1]),
    ensures
        last_component(s) == s.skip(k),
    decreases s.len(),
{
    if k == s.len() {
        assert(s.skip(k) =~= seq![]);
    } else {
        let t = s.drop_last();
        assert forall|i: int| k <= i < t.len() implies !is_separator(#[trigger] t[i]) by {
            assert(t[i] == s[i]);
        }
        lemma_last_component_at(t, k);
        assert(t.skip(k).push(s.last()) =~= s.skip(k));
    }
}

fn find_last_component(s: &[char]) -> (k: usize)
    ensures
        k <= s@.len(),
        last_component(s@) == s@.skip(k as int),
{
    let mut k: usize = s.len();
    while k > 0 && !(s[k - 1] == '/' || s[k - 1] == '\\' || s[k - 1] == ':')
        invariant
            k <= s@.len(),
            forall|i: int| k <= i < s@.len() ==> !is_separator(#[trigger] s@[i]),
        decreases k,
    {
        k -= 1;
    }
    proof {
        lemma_last_component_at(s@, k as int);
    }
    k
}

fn drop_illegal(s: &[char], from: usize) -> (out: Vec<char>)
    requires
        from <= s@.len(),
    ensures
        out@ == s@.skip(from as int).filter(|c: char| !is_illegal(c)),
{
    let legal = Ghost(|c: char| !is_illegal(c));
    let ghost rest = s@.skip(from as int);
    let mut out: Vec<char> = Vec::new();
    let n: usize = s.len();
    let mut i: usize = from;
    assert(rest.take(0) =~= seq![]);
    proof {
        reveal(Seq::filter);
    }
    while i < n
        invariant
            from <= i <= n == s@.len(),
            rest == s@.skip(from as int),
            legal@ == (|c: char| !is_illegal(c)),
            out@ == rest.take(i - from).filter(legal@),
        decreases n - i,
    {
        let c: char = s[i];
        let illegal: bool = is_control_char(c) || c == '<' || c == '>' || c == '"' || c == '|' || c
            == '?' || c == '*';
        proof {
            let longer = rest.take(i + 1 - from);
            assert(longer.drop_last() =~= rest.take(i - from));
            assert(longer.last() == c);
            reveal(Seq::filter);
        }
        if !illegal {
            out.push(c);
        }
        i += 1;
    }
    assert(rest.take(n - from) =~= rest);
    out
}

proof fn lemma_before_dot_at(s: Seq<char>, k: int)
    requires
        0 <= k <= s.len(),
        forall|i: int| 0 <= i < k ==> #[trigger] s[i] != '.',
        k < s.len() ==> s[k] == '.',
    ensures
        before_dot(s) == s.take(k),
    decreases k,
{
    if k == 0 {
        assert(s.take(0) =~= seq![]);
    } else {
        let t = s.skip(1);
        assert forall|i: int| 0 <= i < k - 1 implies #[trigger] t[i] != '.' by {
            assert(t[i] == s[i + 1]);
        }
        lemma_before_dot_at(t, k - 1);
        assert(seq![s[0]] + t.take(k - 1) =~= s.take(k));
    }
}

fn stem_len(s: &[char]) -> (k: usize)
    ensures
        k <= s@.len(),
        before_dot(s@) == s@.take(k as int),
{
    let n: usize = s.len();
    let mut k: usize = 0;
    while k < n && s[k] != '.'
        invariant
            k <= n == s@.len(),
            forall|i: int| 0 <= i < k ==> #[trigger] s@[i] != '.',
        decreases n - k,
    {
        k += 1;
    }
    proof {
        lemma_before_dot_at(s@, k as int);
    }
    k
}

fn capital_code(c: char) -> (u: u32)
    ensures
        u == capital(c),
{
    if 'a' <= c && c <= 'z' {
        c as u32 - 32
    } else {
        c as u32
    }
}

fn starts_like(s: &[char], a: char, b: char, c: char) -> (yes: bool)
    requires
        s@.len() >= 3,
    ensures
        yes == spells(s@.take(3), seq![a, b, c]),
{
    let ghost t = s@.take(3);
    let ghost word = seq![a, b, c];
    let yes: bool = capital_code(s[0]) == a as u32 && capital_code(s[1]) == b as u32
        && capital_code(s[2]) == c as u32;
    proof {
        assert(t[0] == s@[0] && t[1] == s@[1] && t[2] == s@[2]);
        if spells(t, word) {
            assert(capital(t[0]) == word[0] as u32);
            assert(capital(t[1]) == word[1] as u32);
            assert(capital(t[2]) == word[2] as u32);
        }
        if yes {
            assert forall|i: int| 0 <= i < t.len() implies #[trigger] capital(t[i])
                == word[i] as u32 by {
                assert(i == 0 || i == 1 || i == 2);
            }
        }
    }
    yes
}

fn is_device_name(s: &[char]) -> (yes: bool)
    ensures
        yes == is_device(s@),
{
    if s.len() == 3 {
        assert(s@.take(3) =~= s@);
        starts_like(s, 'C', 'O', 'N') || starts_like(s, 'P', 'R', 'N') || starts_like(
            s,
            'A',
            'U',
            'X',
        ) || starts_like(s, 'N', 'U', 'L')
    } else if s.len() == 4 {
        (starts_like(s, 'C', 'O', 'M') || starts_like(s, 'L', 'P', 'T')) && '1' <= s[3] && s[3]
            <= '9'
    } else {
        false
    }
}

/// Reduces a peer's file name to something safe to create inside the receive
/// folder: the last path component alone, without separators, control
/// characters and the characters and device names that Windows reserves.
/// `None` if nothing usable is left: then the transfer must be refused.
pub fn sanitize_file_name(raw: &str) -> (r: Option<String>)
    ensures
        r is Some <==> sanitized(raw@) is Some,
        r is Some ==> r->0@ == sanitized(raw@)->0,
{
    let all: Vec<char> = chars_of(raw);
    let from: usize = find_last_component(all.as_slice());
    let kept: Vec<char> = drop_illegal(all.as_slice(), from);
    let once: Vec<char> = trim_space(kept.as_slice());
    let bare: Vec<char> = trim_dots(once.as_slice());
    let name: Vec<char> = trim_space(bare.as_slice());
    let n: usize = name.len();
    let dots: bool = (n == 1 && name[0] == '.') || (n == 2 && name[0] == '.' && name[1] == '.');
    proof {
        if n == 1 && name@[0] == '.' {
            assert(name@ =~= seq!['.']);
        }
        if n == 2 && name@[0] == '.' && name@[1] == '.' {
            assert(name@ =~= seq!['.', '.']);
        }
    }
    if n == 0 || dots {
        return None;
    }
    let k: usize = stem_len(name.as_slice());
    let stem: Vec<char> = copy_chars(name.as_slice(), 0, k);
    assert(stem@ =~= name@.take(k as int));
    if is_device_name(stem.as_slice()) {
        let mut out: String = String::new();
        out.push('_');
        let rest: String = string_of(name.as_slice());
        let out: String = out.concat(rest.as_str());
        assert(out@ =~= seq!['_'] + name@);
        return Some(out);
    }
    let keep: usize = if n > MAX_NAME_CHARS {
        MAX_NAME_CHARS
    } else {
        n
    };
    let short: Vec<char> = copy_chars(name.as_slice(), 0, keep);
    assert(short@ =~= name@.take(keep as int));
    assert(name@.take(n as int) =~= name@);
    Some(string_of(short.as_slice()))
}

/// What holds of every name that passes: it is not empty, neither `.` nor
/// `..`, and no character in it separates paths or is illegal.
pub open spec fn is_safe_name(name: Seq<char>) -> bool {
    &&& name.len() > 0
    &&& name != seq!['.']
    &&& name != seq!['.', '.']
    &&& forall|i: int|
        0 <= i < name.len() ==> !is_separator(#[trigger] name[i]) && !is_illegal(name[i])
}

spec fn harmless(s: Seq<char>) -> bool {
    forall|i: int| 0 <= i < s.len() ==> !is_separator(#[trigger] s[i]) && !is_illegal(s[i])
}

proof fn lemma_last_component_harmless(s: Seq<char>)
    ensures
        forall|i: int|
            0 <= i < last_component(s).len() ==> !is_separator(#[trigger] last_component(s)[i]),
    decreases s.len(),
{
    if s.len() > 0 && !is_separator(s.last()) {
        lemma_last_component_harmless(s.drop_last());
        let before = last_component(s.drop_last());
        assert forall|i: int| 0 <= i < last_component(s).len() implies !is_separator(
            #[trigger] last_component(s)[i],
        ) by {
            if i < before.len() {
                assert(last_component(s)[i] == before[i]);
            }
        }
    }
}

proof fn lemma_filter_harmless(s: Seq<char>)
    requires
        forall|i: int| 0 <= i < s.len() ==> !is_separator(#[trigger] s[i]),
    ensures
        harmless(s.filter(|c: char| !is_illegal(c))),
    decreases s.len(),
{
    reveal(Seq::filter);
    if s.len() > 0 {
        let t = s.drop_last();
        assert forall|i: int| 0 <= i < t.len() implies !is_separator(#[trigger] t[i]) by {
            assert(t[i] == s[i]);
        }
        lemma_filter_harmless(t);
        assert(!is_separator(s[s.len() - 1]));
    }
}

proof fn lemma_subrange_harmless(s: Seq<char>, i: int, j: int)
    requires
        harmless(s),
        0 <= i <= j <= s.len(),
    ensures
        harmless(s.subrange(i, j)),
{
    assert forall|k: int| 0 <= k < s.subrange(i, j).len() implies !is_separator(
        #[trigger] s.subrange(i, j)[k],
    ) && !is_illegal(s.subrange(i, j)[k]) by {
        assert(s.subrange(i, j)[k] == s[i + k]);
    }
}

proof fn lemma_trim_harmless(s: Seq<char>, gone: spec_fn(char) -> bool)
    requires
        harmless(s),
    ensures
        harmless(trim(s, gone)),
{
    lemma_trim_is_subrange(s, gone);
    let (i, j) = choose|i: int, j: int|
        0 <= i <= j <= s.len() && trim(s, gone) == #[trigger] s.subrange(i, j);
    lemma_subrange_harmless(s, i, j);
}

proof fn lemma_cleaned_harmless(raw: Seq<char>)
    ensures
        harmless(cleaned(raw)),
{
    let base = last_component(raw);
    let space = |c: char| is_space(c);
    let dot = |c: char| c == '.';
    let kept = base.filter(|c: char| !is_illegal(c));
    lemma_last_component_harmless(raw);
    lemma_filter_harmless(base);
    lemma_trim_harmless(kept, space);
    lemma_trim_harmless(trim(kept, space), dot);
    lemma_trim_harmless(trim(trim(kept, space), dot), space);
}

proof fn lemma_before_dot_len(s: Seq<char>) -> (k: int)
    ensures
        0 <= k <= s.len(),
        before_dot(s) == s.take(k),
        k < s.len() ==> s[k] == '.',
        forall|i: int| 0 <= i < k ==> #[trigger] s[i] != '.',
    decreases s.len(),
{
    if s.len() == 0 || s[0] == '.' {
        assert(s.take(0) =~= seq![]);
        0
    } else {
        let t = s.skip(1);
        let k = lemma_before_dot_len(t);
        assert(seq![s[0]] + t.take(k) =~= s.take(k + 1));
        assert forall|i: int| 0 <= i < k + 1 implies #[trigger] s[i] != '.' by {
            if i > 0 {
                assert(t[i - 1] == s[i]);
            }
        }
        k + 1
    }
}

/// Whatever name a peer sends, what is left of it cannot lead out of a folder:
/// it is one plain path component.
pub proof fn law_sanitized_name_is_safe(raw: Seq<char>)
    requires
        sanitized(raw) is Some,
    ensures
        is_safe_name(sanitized(raw)->0),
{
    let name = cleaned(raw);
    lemma_cleaned_harmless(raw);
    if is_device(before_dot(name)) {
        let out = seq!['_'] + name;
        assert forall|i: int| 0 <= i < out.len() implies !is_separator(#[trigger] out[i])
            && !is_illegal(out[i]) by {
            if i > 0 {
                assert(out[i] == name[i - 1]);
            }
        }
        assert(out[0] == '_');
        assert(out != seq!['.']) by {
            assert(seq!['.'][0] == '.');
        }
        assert(out != seq!['.', '.']) by {
            assert(seq!['.', '.'][0] == '.');
        }
    } else if name.len() > MAX_NAME_CHARS {
        lemma_subrange_harmless(name, 0, MAX_NAME_CHARS as int);
        assert(name.take(MAX_NAME_CHARS as int) =~= name.subrange(0, MAX_NAME_CHARS as int));
    }
}

/// Whatever name a peer sends, what is left of it is not a device: what
/// precedes the first dot is no reserved name.
pub proof fn law_sanitized_name_is_no_device(raw: Seq<char>)
    requires
        sanitized(raw) is Some,
    ensures
        !is_device(before_dot(sanitized(raw)->0)),
{
    let name = cleaned(raw);
    let k = lemma_before_dot_len(name);
    if is_device(before_dot(name)) {
        let out = seq!['_'] + name;
        let stem = before_dot(out);
        assert(out[0] == '_');
        assert(stem == seq!['_'] + before_dot(out.skip(1)));
        assert(stem[0] == '_');
        assert(capital(stem[0]) == 95);
        if stem.len() >= 3 {
            assert(stem.take(3)[0] == '_');
            assert(capital(stem.take(3)[0]) == 95);
        }
    } else if name.len() > MAX_NAME_CHARS {
        let short = name.take(MAX_NAME_CHARS as int);
        let j = lemma_before_dot_len(short);
        if k < MAX_NAME_CHARS {
            if j < k {
                assert(short[j] == name[j]);
            }
            if k < j {
                assert(short[k] == name[k]);
            }
            assert(short.take(j) =~= name.take(k));
        } else {
            if j < MAX_NAME_CHARS {
                assert(short[j] == name[j]);
            }
        }
    }
}

/// Only a name that had to be defused can be longer than the limit.
pub proof fn law_sanitized_name_is_short(raw: Seq<char>)
    requires
        sanitized(raw) is Some,
        !is_device(before_dot(cleaned(raw))),
    ensures
        sanitized(raw)->0.len() <= MAX_NAME_CHARS,
{
}

/// The last name that is tried: the plain name, then numbers from 2 to 9999,
/// then a fixed word.
pub const LAST_ATTEMPT: u32 = 10_000;

/// Where the extension begins: at the last dot, unless there is none or the
/// name begins with it.
pub open spec fn extension_at(name: Seq<char>) -> int
{
    extension_from(name, name.len() as int)
}

/// The last position before `k` at which an extension can begin; the name's
/// length if there is none.
pub open spec fn extension_from(name: Seq<char>, k: int) -> int
    decreases k,
{
    if k <= 0 {
        name.len() as int
    } else if name[k - 1] == '.' {
        if k - 1 > 0 {
            k - 1
        } else {
            name.len() as int
        }
    } else {
        extension_from(name, k - 1)
    }
}

/// The name to try at an attempt: the name itself, then with a number in
/// brackets in front of its extension.
pub open spec fn candidate(name: Seq<char>, attempt: int) -> Seq<char> {
    let k = extension_at(name);
    let mark = if attempt < LAST_ATTEMPT {
        decimal(attempt as nat)
    } else {
        seq!['d', 'u', 'p']
    };
    if attempt <= 1 {
        name
    } else {
        name.take(k) + seq![' ', '('] + mark + seq![')'] + name.skip(k)
    }
}

proof fn lemma_extension_bounds(name: Seq<char>, k: int)
    requires
        0 <= k <= name.len(),
    ensures
        0 <= extension_from(name, k) <= name.len(),
    decreases k,
{
    if k > 0 && name[k - 1] != '.' {
        lemma_extension_bounds(name, k - 1);
    }
}

/// A search for a name that nothing has yet.
#[derive(Debug)]
pub struct UniqueName {
    name: String,
    attempt: u32,
}

impl UniqueName {
    /// The name that is wanted.
    pub closed spec fn wanted(&self) -> Seq<char> {
        self.name@
    }

    /// Which attempt this is, from 1.
    pub closed spec fn attempt(&self) -> int {
        self.attempt as int
    }

    pub closed spec fn wf(&self) -> bool {
        1 <= self.attempt <= LAST_ATTEMPT
    }

    /// A search that begins with the name itself.
    pub fn new(name: String) -> (u: Self)
        ensures
            u.wf(),
            u.wanted() == name@,
            u.attempt() == 1,
    {
        UniqueName { name, attempt: 1 }
    }

    /// The name to try now.
    pub fn candidate(&self) -> (out: String)
        requires
            self.wf(),
        ensures
            out@ == candidate(self.wanted(), self.attempt()),
    {
        if self.attempt <= 1 {
            return self.name.clone();
        }
        let all: Vec<char> = chars_of(self.name.as_str());
        let n: usize = all.len();
        let mut k: usize = n;
        while k > 0 && all[k - 1] != '.'
            invariant
                k <= n == all@.len(),
                extension_from(all@, n as int) == extension_from(all@, k as int),
            decreases k,
        {
            k -= 1;
        }
        let at: usize = if k > 1 {
            k - 1
        } else {
            n
        };
        assert(at == extension_at(all@));
        let stem: Vec<char> = copy_chars(all.as_slice(), 0, at);
        let ext: Vec<char> = copy_chars(all.as_slice(), at, n);
        assert(stem@ =~= all@.take(at as int));
        assert(ext@ =~= all@.skip(at as int));
        let mut out: String = string_of(stem.as_slice());
        out.push(' ');
        out.push('(');
        if self.attempt < LAST_ATTEMPT {
            let number: String = decimal_text(self.attempt as u64);
            out = out.concat(number.as_str());
        } else {
            out.push('d');
            out.push('u');
            out.push('p');
        }
        out.push(')');
        let tail: String = string_of(ext.as_slice());
        let out: String = out.concat(tail.as_str());
        assert(out@ =~= candidate(self.wanted(), self.attempt()));
        out
    }

    /// The name that was tried is taken: goes on to the next one. `false` if
    /// there is none left, and then nothing may be written.
    pub fn taken(&mut self) -> (more: bool)
        requires
            old(self).wf(),
        ensures
            final(self).wf(),
            final(self).wanted() == old(self).wanted(),
            more == (old(self).attempt() < LAST_ATTEMPT),
            more == (old(self).attempt() < 10_000),
            more ==> final(self).attempt() == old(self).attempt() + 1,
            !more ==> final(self).attempt() == old(self).attempt(),
    {
        if self.attempt < LAST_ATTEMPT {
            self.attempt = self.attempt + 1;
            true
        } else {
            false
        }
    }
}

proof fn lemma_mark_len(attempt: int)
    requires
        1 < attempt <= LAST_ATTEMPT,
    ensures
        (if attempt < LAST_ATTEMPT {
            decimal(attempt as nat)
        } else {
            seq!['d', 'u', 'p']
        }).len() >= 1,
{
    lemma_decimal_digits(attempt as nat);
}

/// No name is tried twice.
pub proof fn law_candidates_differ(name: Seq<char>, m: int, n: int)
    requires
        1 <= m < n <= LAST_ATTEMPT,
    ensures
        candidate(name, m) != candidate(name, n),
{
    lemma_extension_bounds(name, name.len() as int);
    let k = extension_at(name);
    let a = candidate(name, m);
    let b = candidate(name, n);
    lemma_mark_len(n);
    if m == 1 {
        assert(b.len() > name.len());
    } else if a == b {
        lemma_decimal_digits(m as nat);
        lemma_decimal_digits(n as nat);
        let x = decimal(m as nat);
        let y = if n < LAST_ATTEMPT {
            decimal(n as nat)
        } else {
            seq!['d', 'u', 'p']
        };
        assert(a.len() == name.len() + 3 + x.len());
        assert(b.len() == name.len() + 3 + y.len());
        assert(a.subrange(k + 2, k + 2 + x.len()) =~= x);
        assert(b.subrange(k + 2, k + 2 + y.len()) =~= y);
        if n < LAST_ATTEMPT {
            lemma_decimal_injective(m as nat, n as nat);
        } else {
            assert(x[0] == y[0]);
        }
    }
}

/// Every name that is tried for a safe name is safe too: it stays a plain path
/// component.
pub proof fn law_candidates_are_safe(name: Seq<char>, attempt: int)
    requires
        is_safe_name(name),
        1 <= attempt <= LAST_ATTEMPT,
    ensures
        is_safe_name(candidate(name, attempt)),
{
    lemma_extension_bounds(name, name.len() as int);
    if attempt > 1 {
        let k = extension_at(name);
        lemma_mark_len(attempt);
        lemma_decimal_digits(attempt as nat);
        let mark = if attempt < LAST_ATTEMPT {
            decimal(attempt as nat)
        } else {
            seq!['d', 'u', 'p']
        };
        let out = candidate(name, attempt);
        assert forall|i: int| 0 <= i < out.len() implies !is_separator(#[trigger] out[i])
            && !is_illegal(out[i]) by {
            if i < k {
                assert(out[i] == name[i]);
            } else if k + 2 <= i < k + 2 + mark.len() {
                assert(out[i] == mark[i - k - 2]);
            } else if i >= k + 3 + mark.len() {
                assert(out[i] == name[i - 3 - mark.len()]);
            }
        }
        assert(out.len() >= 4);
    }
}

/// No name that is tried is a device, if the wanted one is none.
pub proof fn law_candidates_are_no_device(name: Seq<char>, attempt: int)
    requires
        !is_device(before_dot(name)),
        1 <= attempt <= LAST_ATTEMPT,
    ensures
        !is_device(before_dot(candidate(name, attempt))),
{
    lemma_extension_bounds(name, name.len() as int);
    if attempt > 1 {
        let k = extension_at(name);
        lemma_mark_len(attempt);
        lemma_decimal_digits(attempt as nat);
        let mark = if attempt < LAST_ATTEMPT {
            decimal(attempt as nat)
        } else {
            seq!['d', 'u', 'p']
        };
        let out = candidate(name, attempt);
        let b = lemma_before_dot_len(name);
        if b < k {
            assert forall|i: int| 0 <= i < b implies #[trigger] out[i] != '.' by {
                assert(out[i] == name[i]);
            }
            assert(out[b] == name[b]);
            lemma_before_dot_at(out, b);
            assert(out.take(b) =~= name.take(b));
        } else {
            let j = lemma_before_dot_len(out);
            let end = k + 3 + mark.len();
            assert(j >= end) by {
                if j < end {
                    if j < k {
                        assert(out[j] == name[j]);
                    } else if k + 2 <= j < end - 1 {
                        assert(out[j] == mark[j - k - 2]);
                    }
                }
            }
            let stem = out.take(j);
            if stem.len() == 4 {
                assert(stem[3] == out[3]);
                assert(out[3] == ')');
            }
        }
    }
}

/// The extension stays: a name that is tried ends as the wanted one does.
pub proof fn law_candidates_keep_the_extension(name: Seq<char>, attempt: int)
    requires
        1 <= attempt <= LAST_ATTEMPT,
    ensures
        ({
            let ext = name.skip(extension_at(name));
            let out = candidate(name, attempt);
            &&& out.len() >= ext.len()
            &&& out.skip(out.len() - ext.len()) == ext
        }),
{
    lemma_extension_bounds(name, name.len() as int);
    let ext = name.skip(extension_at(name));
    let out = candidate(name, attempt);
    assert(out.skip(out.len() - ext.len()) =~= ext);
}

/// A character that may stand at either end of a file name: no white space and
/// no dot.
pub open spec fn is_firm(c: char) -> bool {
    let u = c as u32;
    c != '.' && !(0x09 <= u <= 0x0d || u == 0x20 || u == 0x85 || u == 0xa0 || u == 0x1680 || 0x2000
        <= u <= 0x200a || u == 0x2028 || u == 0x2029 || u == 0x202f || u == 0x205f || u == 0x3000)
}

/// A name that every system takes: not empty, without control characters and
/// none of `/ \ : < > " | ? *`, and with neither white space nor a dot at its
/// ends.
pub open spec fn is_fit(name: Seq<char>) -> bool {
    &&& name.len() > 0
    &&& is_firm(name[0])
    &&& is_firm(name.last())
    &&& forall|i: int|
        0 <= i < name.len() ==> ({
            let c = #[trigger] name[i];
            let u = c as u32;
            &&& u >= 0x20 && !(0x7f <= u <= 0x9f)
            &&& c != '/' && c != '\\' && c != ':' && c != '<' && c != '>' && c != '"' && c != '|'
                && c != '?' && c != '*'
        })
}

/// Whether the first `k` characters of a name spell a device, in either case.
pub open spec fn begins_like_a_device(s: Seq<char>, k: int) -> bool {
    ||| k == 3 && (s[0] == 'c' || s[0] == 'C') && (s[1] == 'o' || s[1] == 'O') && (s[2] == 'n'
        || s[2] == 'N')
    ||| k == 3 && (s[0] == 'p' || s[0] == 'P') && (s[1] == 'r' || s[1] == 'R') && (s[2] == 'n'
        || s[2] == 'N')
    ||| k == 3 && (s[0] == 'a' || s[0] == 'A') && (s[1] == 'u' || s[1] == 'U') && (s[2] == 'x'
        || s[2] == 'X')
    ||| k == 3 && (s[0] == 'n' || s[0] == 'N') && (s[1] == 'u' || s[1] == 'U') && (s[2] == 'l'
        || s[2] == 'L')
    ||| k == 4 && (s[0] == 'c' || s[0] == 'C') && (s[1] == 'o' || s[1] == 'O') && (s[2] == 'm'
        || s[2] == 'M') && '1' <= s[3] <= '9'
    ||| k == 4 && (s[0] == 'l' || s[0] == 'L') && (s[1] == 'p' || s[1] == 'P') && (s[2] == 't'
        || s[2] == 'T') && '1' <= s[3] <= '9'
}

proof fn lemma_capital(x: char, big: char, small: char)
    requires
        'A' <= big <= 'Z',
        small as u32 == big as u32 + 32,
    ensures
        capital(x) == big as u32 <==> x == big || x == small,
{
}

proof fn lemma_spells_three(s: Seq<char>, a: (char, char), b: (char, char), c: (char, char))
    requires
        'A' <= a.0 <= 'Z' && a.1 as u32 == a.0 as u32 + 32,
        'A' <= b.0 <= 'Z' && b.1 as u32 == b.0 as u32 + 32,
        'A' <= c.0 <= 'Z' && c.1 as u32 == c.0 as u32 + 32,
    ensures
        spells(s, seq![a.0, b.0, c.0]) <==> s.len() == 3 && (s[0] == a.0 || s[0] == a.1) && (s[1]
            == b.0 || s[1] == b.1) && (s[2] == c.0 || s[2] == c.1),
{
    let w = seq![a.0, b.0, c.0];
    lemma_capital(s[0], a.0, a.1);
    lemma_capital(s[1], b.0, b.1);
    lemma_capital(s[2], c.0, c.1);
    if spells(s, w) {
        assert(capital(s[0]) == w[0] as u32);
        assert(capital(s[1]) == w[1] as u32);
        assert(capital(s[2]) == w[2] as u32);
    }
    if s.len() == 3 && capital(s[0]) == a.0 as u32 && capital(s[1]) == b.0 as u32 && capital(s[2])
        == c.0 as u32 {
        assert forall|i: int| 0 <= i < s.len() implies #[trigger] capital(s[i]) == w[i] as u32 by {
            assert(i == 0 || i == 1 || i == 2);
        }
    }
}

proof fn lemma_device_begins(s: Seq<char>, k: int)
    requires
        0 <= k <= s.len(),
    ensures
        is_device(s.take(k)) <==> begins_like_a_device(s, k),
{
    let t = s.take(k);
    lemma_spells_three(t, ('C', 'c'), ('O', 'o'), ('N', 'n'));
    lemma_spells_three(t, ('P', 'p'), ('R', 'r'), ('N', 'n'));
    lemma_spells_three(t, ('A', 'a'), ('U', 'u'), ('X', 'x'));
    lemma_spells_three(t, ('N', 'n'), ('U', 'u'), ('L', 'l'));
    if k == 4 {
        lemma_spells_three(t.take(3), ('C', 'c'), ('O', 'o'), ('M', 'm'));
        lemma_spells_three(t.take(3), ('L', 'l'), ('P', 'p'), ('T', 't'));
        assert(t.take(3)[0] == s[0] && t.take(3)[1] == s[1] && t.take(3)[2] == s[2]);
    }
}

proof fn lemma_all_kept(s: Seq<char>)
    requires
        forall|i: int| 0 <= i < s.len() ==> !is_illegal(#[trigger] s[i]),
    ensures
        s.filter(|c: char| !is_illegal(c)) == s,
    decreases s.len(),
{
    reveal(Seq::filter);
    if s.len() > 0 {
        let t = s.drop_last();
        assert forall|i: int| 0 <= i < t.len() implies !is_illegal(#[trigger] t[i]) by {
            assert(t[i] == s[i]);
        }
        lemma_all_kept(t);
        assert(!is_illegal(s[s.len() - 1]));
        assert(t.push(s.last()) =~= s);
    } else {
        assert(s.filter(|c: char| !is_illegal(c)) =~= s);
    }
}

proof fn lemma_fit_is_clean(name: Seq<char>)
    requires
        is_fit(name),
    ensures
        cleaned(name) == name,
        last_component(name).filter(|c: char| !is_illegal(c)) == name,
{
    assert forall|i: int| 0 <= i < name.len() implies !is_separator(#[trigger] name[i])
        && !is_illegal(name[i]) by {}
    lemma_last_component_at(name, 0);
    assert(name.skip(0) =~= name);
    lemma_all_kept(name);
    lemma_trim_keeps(name, |c: char| is_space(c));
    lemma_trim_keeps(name, |c: char| c == '.');
}

/// A name that is fit is kept as it is; of a longer one the first 180
/// characters are. `k` is where its first dot is.
pub proof fn law_fit_names_are_kept(name: Seq<char>, k: int)
    requires
        is_fit(name),
        0 <= k <= name.len(),
        forall|i: int| 0 <= i < k ==> #[trigger] name[i] != '.',
        k < name.len() ==> name[k] == '.',
        !begins_like_a_device(name, k),
    ensures
        name.len() <= 180 ==> sanitized(name) == Some(name),
        name.len() > 180 ==> sanitized(name) == Some(name.take(180)),
{
    lemma_fit_is_clean(name);
    lemma_before_dot_at(name, k);
    lemma_device_begins(name, k);
    assert(name[0] != '.');
    assert(seq!['.'][0] == '.' && seq!['.', '.'][0] == '.');
}

/// A fit name that begins like a device, CON or NUL or COM1, is told from it by
/// an underscore in front.
pub proof fn law_device_names_are_defused(name: Seq<char>, k: int)
    requires
        is_fit(name),
        0 <= k <= name.len(),
        forall|i: int| 0 <= i < k ==> #[trigger] name[i] != '.',
        k < name.len() ==> name[k] == '.',
        begins_like_a_device(name, k),
    ensures
        sanitized(name) == Some(seq!['_'] + name),
{
    lemma_fit_is_clean(name);
    lemma_before_dot_at(name, k);
    lemma_device_begins(name, k);
    assert(name[0] != '.');
    assert(seq!['.'][0] == '.' && seq!['.', '.'][0] == '.');
}

proof fn lemma_plain_is_cleaned(s: Seq<char>)
    requires
        forall|i: int| 0 <= i < s.len() ==> !is_separator(#[trigger] s[i]) && !is_illegal(s[i]),
    ensures
        cleaned(s) == trimmed(trim(trimmed(s), |c: char| c == '.')),
{
    lemma_last_component_at(s, 0);
    assert(s.skip(0) =~= s);
    lemma_all_kept(s);
}

proof fn lemma_ends_are_cleaned(name: Seq<char>, c: char)
    requires
        is_fit(name),
        c == ' ' || c == '.',
    ensures
        cleaned(seq![c] + name) == name,
        cleaned(name + seq![c]) == name,
{
    let space = |x: char| is_space(x);
    let dot = |x: char| x == '.';
    let a = seq![c] + name;
    let b = name + seq![c];
    assert forall|i: int| 0 <= i < a.len() implies !is_separator(#[trigger] a[i]) && !is_illegal(
        a[i],
    ) by {
        if i > 0 {
            assert(a[i] == name[i - 1]);
        }
    }
    assert forall|i: int| 0 <= i < b.len() implies !is_separator(#[trigger] b[i]) && !is_illegal(
        b[i],
    ) by {
        if i < name.len() {
            assert(b[i] == name[i]);
        }
    }
    lemma_plain_is_cleaned(a);
    lemma_plain_is_cleaned(b);
    assert(!space(name[0]) && !space(name.last()) && !dot(name[0]) && !dot(name.last()));
    lemma_trim_keeps(name, space);
    lemma_trim_keeps(name, dot);
    if c == ' ' {
        lemma_trim_one(name, c, space);
    } else {
        assert(a[0] == '.' && a.last() == name.last());
        assert(b[0] == name[0] && b.last() == '.');
        lemma_trim_keeps(a, space);
        lemma_trim_keeps(b, space);
        lemma_trim_one(name, c, dot);
    }
}

/// White space or a dot around a fit name goes.
pub proof fn law_ends_are_trimmed(name: Seq<char>, c: char)
    requires
        is_fit(name),
        c == ' ' || c == '.',
    ensures
        sanitized(seq![c] + name) == sanitized(name),
        sanitized(name + seq![c]) == sanitized(name),
{
    lemma_fit_is_clean(name);
    lemma_ends_are_cleaned(name, c);
}

/// Nothing is left of a name that is nothing but dots, or nothing but spaces.
pub proof fn law_empty_names_are_refused(name: Seq<char>, c: char)
    requires
        c == ' ' || c == '.',
        forall|i: int| 0 <= i < name.len() ==> #[trigger] name[i] == c,
    ensures
        sanitized(name) is None,
{
    let space = |x: char| is_space(x);
    let dot = |x: char| x == '.';
    assert forall|i: int| 0 <= i < name.len() implies !is_separator(#[trigger] name[i])
        && !is_illegal(name[i]) by {}
    lemma_last_component_at(name, 0);
    assert(name.skip(0) =~= name);
    lemma_all_kept(name);
    if c == ' ' {
        lemma_trim_all(name, space);
    } else {
        lemma_trim_keeps(name, space);
        lemma_trim_all(name, dot);
    }
    lemma_trim_all(seq![], dot);
    lemma_trim_all(seq![], space);
}

proof fn lemma_last_component_behind(a: Seq<char>, sep: char, b: Seq<char>)
    requires
        is_separator(sep),
    ensures
        last_component(a + seq![sep] + b) == last_component(b),
    decreases b.len(),
{
    let s = a + seq![sep] + b;
    if b.len() == 0 {
        assert(s.last() == sep);
    } else {
        assert(s.last() == b.last());
        assert(s.drop_last() =~= a + seq![sep] + b.drop_last());
        lemma_last_component_behind(a, sep, b.drop_last());
    }
}

/// Only what follows the last separator counts, whichever system separates
/// paths that way.
pub proof fn law_only_the_last_component_counts(a: Seq<char>, sep: char, b: Seq<char>)
    requires
        sep == '/' || sep == '\\' || sep == ':',
    ensures
        sanitized(a + seq![sep] + b) == sanitized(b),
{
    lemma_last_component_behind(a, sep, b);
}

proof fn lemma_illegal_goes(a: Seq<char>, c: char, b: Seq<char>)
    requires
        is_illegal(c),
        !is_separator(c),
    ensures
        last_component(a + seq![c] + b).filter(|x: char| !is_illegal(x)) == last_component(
            a + b,
        ).filter(|x: char| !is_illegal(x)),
    decreases b.len(),
{
    reveal(Seq::filter);
    let s = a + seq![c] + b;
    let t = a + b;
    if b.len() == 0 {
        assert(s.last() == c);
        assert(s.drop_last() =~= a);
        assert(t =~= a);
        let l = last_component(s);
        assert(l.drop_last() =~= last_component(a));
        assert(l.last() == c);
    } else {
        assert(s.last() == b.last() && t.last() == b.last());
        assert(s.drop_last() =~= a + seq![c] + b.drop_last());
        assert(t.drop_last() =~= a + b.drop_last());
        lemma_illegal_goes(a, c, b.drop_last());
        if !is_separator(b.last()) {
            assert(last_component(s).drop_last() =~= last_component(s.drop_last()));
            assert(last_component(t).drop_last() =~= last_component(t.drop_last()));
        }
    }
}

/// A control character, and any of `< > " | ? *`, goes from wherever it stands,
/// and what is left is as if it had not been there.
pub proof fn law_illegal_characters_go(a: Seq<char>, c: char, b: Seq<char>)
    requires
        c as u32 <= 0x1f || 0x7f <= c as u32 <= 0x9f || c == '<' || c == '>' || c == '"' || c == '|'
            || c == '?' || c == '*',
    ensures
        sanitized(a + seq![c] + b) == sanitized(a + b),
{
    lemma_illegal_goes(a, c, b);
}

proof fn lemma_extension_at(stem: Seq<char>, ext: Seq<char>, k: int)
    requires
        stem.len() > 0,
        forall|i: int| 0 <= i < ext.len() ==> #[trigger] ext[i] != '.',
        stem.len() < k <= stem.len() + 1 + ext.len(),
    ensures
        extension_from(stem + seq!['.'] + ext, k) == stem.len(),
    decreases k,
{
    let name = stem + seq!['.'] + ext;
    if k == stem.len() + 1 {
        assert(name[k - 1] == '.');
    } else {
        assert(name[k - 1] == ext[k - 2 - stem.len()]);
        lemma_extension_at(stem, ext, k - 1);
    }
}

proof fn lemma_no_extension(name: Seq<char>, k: int)
    requires
        0 <= k <= name.len(),
        forall|i: int| 1 <= i < name.len() ==> #[trigger] name[i] != '.',
    ensures
        extension_from(name, k) == name.len(),
    decreases k,
{
    if k > 1 {
        lemma_no_extension(name, k - 1);
    } else if k == 1 {
        reveal_with_fuel(extension_from, 2);
    }
}

/// The names that are tried are those that a user would expect: the name
/// itself, then `name (2).ext`, `name (3).ext` and so on up to 9999, and at last
/// `name (dup).ext`. The number is that of the attempt.
pub proof fn law_taken_names_are_numbered(stem: Seq<char>, ext: Seq<char>, n: int)
    requires
        stem.len() > 0,
        forall|i: int| 0 <= i < ext.len() ==> #[trigger] ext[i] != '.',
        2 <= n <= 9999,
    ensures
        ({
            let name = stem + seq!['.'] + ext;
            &&& candidate(name, 1) == name
            &&& candidate(name, n) == stem + seq![' ', '('] + decimal(n as nat) + seq![')', '.']
                + ext
            &&& number_in(decimal(n as nat)) == n
            &&& candidate(name, 10_000) == stem + seq![' ', '(', 'd', 'u', 'p', ')', '.'] + ext
        }),
{
    let name = stem + seq!['.'] + ext;
    lemma_extension_at(stem, ext, name.len() as int);
    law_decimal_stands_for_the_number(n as nat);
    assert(name.take(stem.len() as int) =~= stem);
    assert(candidate(name, n) =~= stem + seq![' ', '('] + decimal(n as nat) + seq![')', '.'] + ext);
    assert(candidate(name, 10_000) =~= stem + seq![' ', '(', 'd', 'u', 'p', ')', '.'] + ext);
}

/// A name without an extension gets its number at the end. A dot at the very
/// front begins no extension.
pub proof fn law_names_without_extension_are_numbered(name: Seq<char>, n: int)
    requires
        forall|i: int| 1 <= i < name.len() ==> #[trigger] name[i] != '.',
        2 <= n <= 9999,
    ensures
        candidate(name, 1) == name,
        candidate(name, n) == name + seq![' ', '('] + decimal(n as nat) + seq![')'],
        candidate(name, 10_000) == name + seq![' ', '(', 'd', 'u', 'p', ')'],
{
    lemma_no_extension(name, name.len() as int);
    assert(name.take(name.len() as int) =~= name);
    assert(candidate(name, n) =~= name + seq![' ', '('] + decimal(n as nat) + seq![')']);
    assert(candidate(name, 10_000) =~= name + seq![' ', '(', 'd', 'u', 'p', ')']);
}

} // verus!
