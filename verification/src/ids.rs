//! The identifiers that machines are addressed by: lower-case version 4 UUIDs.

use vstd::prelude::*;

use crate::text::chars_of;

verus! {

/// Whether a character is a lower-case hexadecimal digit.
pub open spec fn is_lower_hex(c: char) -> bool {
    '0' <= c <= '9' || 'a' <= c <= 'f'
}

/// What may stand at each place of an identifier: dashes between the groups of
/// 8, 4, 4, 4 and 12, the version 4, and a variant from 8 to b.
pub open spec fn fits_uuid(i: int, c: char) -> bool {
    if i == 8 || i == 13 || i == 18 || i == 23 {
        c == '-'
    } else if i == 14 {
        c == '4'
    } else if i == 19 {
        c == '8' || c == '9' || c == 'a' || c == 'b'
    } else {
        is_lower_hex(c)
    }
}

/// Whether a text is a lower-case version 4 UUID.
pub open spec fn is_uuid(s: Seq<char>) -> bool {
    s.len() == 36 && forall|i: int| 0 <= i < 36 ==> fits_uuid(i, #[trigger] s[i])
}

/// Whether a text is a lower-case version 4 UUID.
pub fn is_valid_uuid_v4(s: &str) -> (yes: bool)
    ensures
        yes == is_uuid(s@),
{
    let chars: Vec<char> = chars_of(s);
    if chars.len() != 36 {
        return false;
    }
    let mut i: usize = 0;
    while i < 36
        invariant
            i <= 36 == chars@.len(),
            chars@ == s@,
            forall|k: int| 0 <= k < i ==> fits_uuid(k, #[trigger] chars@[k]),
        decreases 36 - i,
    {
        let c: char = chars[i];
        let fits: bool = if i == 8 || i == 13 || i == 18 || i == 23 {
            c == '-'
        } else if i == 14 {
            c == '4'
        } else if i == 19 {
            c == '8' || c == '9' || c == 'a' || c == 'b'
        } else {
            ('0' <= c && c <= '9') || ('a' <= c && c <= 'f')
        };
        if !fits {
            assert(!fits_uuid(i as int, chars@[i as int]));
            return false;
        }
        i += 1;
    }
    true
}

/// Calls `uuid::Uuid::new_v4` and writes the result down with `to_string`:
/// a random identifier, in lower case with dashes.
#[verifier::external_body]
pub(crate) fn new_uuid() -> (id: String)
    ensures
        is_uuid(id@),
{
    uuid::Uuid::new_v4().to_string()
}

/// An identifier is groups of 8, 4, 4, 4 and 12 lower-case digits in base
/// sixteen with dashes between them; the third begins with a 4, and the fourth
/// with 8, 9, a or b. Every such text is one, and nothing else is.
pub proof fn law_identifiers_have_this_shape(s: Seq<char>)
    ensures
        is_uuid(s) <==> s.len() == 36 && s[8] == '-' && s[13] == '-' && s[18] == '-' && s[23] == '-'
            && s[14] == '4' && (s[19] == '8' || s[19] == '9' || s[19] == 'a' || s[19] == 'b')
            && forall|i: int|
            0 <= i < 36 && i != 8 && i != 13 && i != 18 && i != 23 ==> '0' <= #[trigger] s[i] <= '9'
                || 'a' <= s[i] <= 'f',
{
    if is_uuid(s) {
        assert(fits_uuid(8, s[8]) && fits_uuid(13, s[13]) && fits_uuid(18, s[18]) && fits_uuid(
            23,
            s[23],
        ) && fits_uuid(14, s[14]) && fits_uuid(19, s[19]));
        assert forall|i: int|
            0 <= i < 36 && i != 8 && i != 13 && i != 18 && i != 23 implies '0' <= #[trigger] s[i]
            <= '9' || 'a' <= s[i] <= 'f' by {
            assert(fits_uuid(i, s[i]));
        }
    }
}

} // verus!
