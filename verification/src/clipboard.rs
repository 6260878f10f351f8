//! Clipboard text, mirrored between the two machines of a session.
//!
//! The system counts clipboard changes. Writing text that came from the peer
//! counts as a change too, so the count after our own write is remembered:
//! otherwise the two machines would send each other the same text forever.

use vstd::prelude::*;

use crate::bytes::{append_bytes, push_le32};
use crate::config::{byte_len, texts};
use crate::text::same_text;
use crate::utf16::{
    byte_units, encode_utf16, has_zero, law_utf16_reads_back, law_wide_text_reads_back,
    text_in_bytes, to_bytes, unit_bytes, until_zero, utf16, utf16_lossy, wide_text,
};

verus! {

/// The longest text that is mirrored, in bytes.
pub const MAX_TEXT_BYTES: usize = 262144;

/// What is known of the clipboard.
#[verifier::ext_equal]
pub ghost struct Clip {
    /// The count that is dealt with.
    pub seq: u32,
    /// The text that both machines have.
    pub text: Option<Seq<char>>,
}

/// Whether text from the peer is to be written: not if it is there already.
pub open spec fn takes(c: Clip, enabled: bool, text: Seq<char>) -> bool {
    enabled && c.text != Some(text)
}

/// Whether text of this machine is to be sent: not if the peer has it, and not
/// if it is too long.
pub open spec fn sends(c: Clip, text: Seq<char>) -> bool {
    c.text != Some(text) && byte_len(text) <= MAX_TEXT_BYTES
}

/// Mirrors clipboard text.
#[derive(Debug)]
pub struct ClipSync {
    last_seq: u32,
    last_text: Option<String>,
}

impl View for ClipSync {
    type V = Clip;

    closed spec fn view(&self) -> Clip {
        Clip {
            seq: self.last_seq,
            text: match self.last_text {
                Some(t) => Some(t@),
                None => None,
            },
        }
    }
}

impl ClipSync {
    /// Begins with the current count.
    pub fn new(seq: u32) -> (c: Self)
        ensures
            c@ == (Clip { seq, text: None }),
    {
        ClipSync { last_seq: seq, last_text: None }
    }

    fn has(&self, text: &str) -> (yes: bool)
        ensures
            yes == (self@.text == Some(text@)),
    {
        match &self.last_text {
            Some(t) => same_text(t.as_str(), text),
            None => false,
        }
    }

    /// Whether to write text that has come from the peer.
    pub fn wants(&self, enabled: bool, text: &str) -> (yes: bool)
        ensures
            yes == takes(self@, enabled, text@),
    {
        enabled && !self.has(text)
    }

    /// Text from the peer was written, and the count is this now.
    pub fn written(&mut self, seq: u32, text: String)
        ensures
            final(self)@ == (Clip { seq, text: Some(text@) }),
    {
        self.last_seq = seq;
        self.last_text = Some(text);
    }

    /// The count is this. Tells whether to read the clipboard.
    pub fn on_poll(&mut self, enabled: bool, seq: u32) -> (read: bool)
        ensures
            read == (enabled && seq != old(self)@.seq),
            final(self)@ == (if read {
                Clip { seq, ..old(self)@ }
            } else {
                old(self)@
            }),
            (final(self)@, read) == polled(old(self)@, enabled, seq),
    {
        if enabled && seq != self.last_seq {
            self.last_seq = seq;
            true
        } else {
            false
        }
    }

    /// The clipboard holds this text, if any. Gives what to send.
    pub fn on_read(&mut self, text: Option<String>) -> (r: Option<String>)
        ensures
            match text {
                Some(t) => if sends(old(self)@, t@) {
                    r is Some && r->0@ == t@ && final(self)@ == (Clip {
                        text: Some(t@),
                        ..old(self)@
                    })
                } else {
                    r is None && final(self)@ == old(self)@
                },
                None => r is None && final(self)@ == old(self)@,
            },
    {
        match text {
            Some(t) => {
                if self.has(t.as_str()) || t.as_str().as_bytes().len() > MAX_TEXT_BYTES {
                    return None;
                }
                self.last_text = Some(t.clone());
                Some(t)
            },
            None => None,
        }
    }
}

/// Text that came from the peer is never sent back to it: neither does our own
/// write count as a change, nor is the same text sent if it is read later.
pub proof fn law_nothing_is_echoed(c: Clip, enabled: bool, seq: u32, text: Seq<char>)
    requires
        takes(c, enabled, text),
    ensures
        ({
            let after = Clip { seq, text: Some(text) };
            &&& after.seq == seq
            &&& !sends(after, text)
            &&& !takes(after, enabled, text)
        }),
{
}

/// What is sent once is not sent again while it stays the same.
pub proof fn law_nothing_is_sent_twice(c: Clip, text: Seq<char>)
    requires
        sends(c, text),
    ensures
        !sends(Clip { text: Some(text), ..c }, text),
{
}

/// The text in what the clipboard holds as UTF-16, up to the first zero; an
/// empty text is none, and neither is one that is too long.
pub open spec fn held(bytes: Seq<u8>) -> Option<Seq<char>> {
    let text = utf16_lossy(until_zero(byte_units(bytes)));
    if text.len() > 0 && byte_len(text) <= MAX_TEXT_BYTES {
        Some(text)
    } else {
        None
    }
}

/// The text in what the clipboard holds.
pub fn held_text(bytes: &[u8]) -> (r: Option<String>)
    ensures
        r is Some <==> held(bytes@) is Some,
        r is Some ==> r->0@ == held(bytes@)->0,
        forall|s: Seq<char>|
            #[trigger] utf16(s) == until_zero(byte_units(bytes@)) && s.len() > 0 && byte_len(s)
                <= MAX_TEXT_BYTES ==> r is Some && r->0@ == s,
{
    let text: String = text_in_bytes(bytes);
    proof {
        assert forall|s: Seq<char>| #[trigger] utf16(s) == until_zero(byte_units(bytes@)) implies s
            == text@ by {
            law_utf16_reads_back(s);
        }
    }
    if text.as_str().is_empty() || text.as_str().as_bytes().len() > MAX_TEXT_BYTES {
        None
    } else {
        Some(text)
    }
}

/// Text that is put on the clipboard is held there as it is, as long as no
/// zero stands in it; nothing is held of an empty text, nor of one that is too
/// long.
pub proof fn law_clipboard_holds_the_text(s: Seq<char>)
    requires
        !has_zero(s),
    ensures
        held(unit_bytes(wide_text(s))) == (if s.len() > 0 && byte_len(s) <= MAX_TEXT_BYTES {
            Some(s)
        } else {
            None
        }),
{
    law_wide_text_reads_back(s);
}

/// The names one after the other, each with a zero behind it.
pub open spec fn name_list(names: Seq<Seq<char>>) -> Seq<u16>
    decreases names.len(),
{
    if names.len() == 0 {
        seq![]
    } else {
        name_list(names.drop_last()) + utf16(names.last()).push(0)
    }
}

/// A list of files as the clipboard holds it: where the names begin, an unused
/// point, an unused flag and the flag of UTF-16, and then the names, with
/// another zero behind them all.
pub open spec fn drop_list(names: Seq<Seq<char>>) -> Seq<u8> {
    crate::bytes::le32(20) + crate::bytes::le32(0) + crate::bytes::le32(0) + crate::bytes::le32(0)
        + crate::bytes::le32(1) + unit_bytes(name_list(names).push(0))
}

/// A list of files as the clipboard holds it; `None` for no files.
pub fn file_list(names: &[String]) -> (r: Option<Vec<u8>>)
    ensures
        r is Some <==> names@.len() > 0,
        r is Some ==> r->0@ == drop_list(texts(names@)),
{
    if names.len() == 0 {
        return None;
    }
    let ghost all = texts(names@);
    let mut units: Vec<u16> = Vec::new();
    let n: usize = names.len();
    let mut i: usize = 0;
    assert(all.take(0) =~= seq![]);
    while i < n
        invariant
            i <= n == names@.len(),
            all == texts(names@),
            units@ == name_list(all.take(i as int)),
        decreases n - i,
    {
        let ghost before = units@;
        assert(all.take(i + 1).drop_last() =~= all.take(i as int));
        let mut name: Vec<u16> = encode_utf16(names[i].as_str());
        units.append(&mut name);
        units.push(0);
        assert(units@ =~= before + utf16(all[i as int]).push(0));
        i += 1;
    }
    assert(all.take(n as int) =~= all);
    units.push(0);
    let mut out: Vec<u8> = Vec::new();
    push_le32(&mut out, 20);
    push_le32(&mut out, 0);
    push_le32(&mut out, 0);
    push_le32(&mut out, 0);
    push_le32(&mut out, 1);
    let body: Vec<u8> = to_bytes(units.as_slice());
    append_bytes(&mut out, body.as_slice());
    assert(out@ =~= drop_list(all));
    Some(out)
}

/// Text goes to the peer exactly if the peer does not have it and it is not
/// longer than 262144 bytes; text from the peer is written exactly if the
/// clipboard is mirrored and does not have it.
pub proof fn law_new_text_is_mirrored(c: Clip, enabled: bool, text: Seq<char>, known: Seq<char>)
    ensures
        sends(Clip { text: None, ..c }, text) <==> byte_len(text) <= 262_144,
        sends(Clip { text: Some(known), ..c }, text) <==> text != known && byte_len(text)
            <= 262_144,
        takes(Clip { text: None, ..c }, enabled, text) <==> enabled,
        takes(Clip { text: Some(known), ..c }, enabled, text) <==> enabled && text != known,
{
}

/// What the clipboard holds counts unless it is empty or longer than 262144
/// bytes.
pub proof fn law_held_text_counts(bytes: Seq<u8>)
    ensures
        ({
            let text = utf16_lossy(until_zero(byte_units(bytes)));
            &&& held(bytes) is Some <==> 0 < text.len() && byte_len(text) <= 262_144
            &&& held(bytes) is Some ==> held(bytes)->0 == text
        }),
{
}

/// A list of files begins with a header of twenty bytes that says so, is
/// otherwise empty, and ends with a one, for wide characters. Then come the
/// names, each with a zero behind it, and one more zero.
#[verifier::rlimit(50)]
pub proof fn law_file_lists_are_laid_out(names: Seq<Seq<char>>, last: Seq<char>)
    ensures
        drop_list(names).subrange(0, 20) == seq![
            20u8,
            0,
            0,
            0,
            0,
            0,
            0,
            0,
            0,
            0,
            0,
            0,
            0,
            0,
            0,
            0,
            1,
            0,
            0,
            0,
        ],
        drop_list(names).skip(20) == unit_bytes(name_list(names) + seq![0u16]),
        name_list(Seq::<Seq<char>>::empty()).len() == 0,
        name_list(names.push(last)) == name_list(names) + utf16(last) + seq![0u16],
{
    let list = drop_list(names);
    let head = crate::bytes::le32(20) + crate::bytes::le32(0) + crate::bytes::le32(0)
        + crate::bytes::le32(0) + crate::bytes::le32(1);
    assert(crate::bytes::le32(20) =~= seq![20u8, 0, 0, 0]);
    assert(crate::bytes::le32(0) =~= seq![0u8, 0, 0, 0]);
    assert(crate::bytes::le32(1) =~= seq![1u8, 0, 0, 0]);
    assert(head.len() == 20);
    assert(list.subrange(0, 20) =~= head);
    assert(head =~= seq![20u8, 0, 0, 0, 0, 0, 0, 0, 0, 0, 0, 0, 0, 0, 0, 0, 1, 0, 0, 0]);
    assert(name_list(names).push(0) =~= name_list(names) + seq![0u16]);
    assert(list.skip(20) =~= unit_bytes(name_list(names).push(0)));
    assert(names.push(last).drop_last() =~= names);
    assert(name_list(names.push(last)) =~= name_list(names) + utf16(last) + seq![0u16]);
}

/// What is known of the clipboard once its count has been looked at, and
/// whether to read it.
pub open spec fn polled(c: Clip, enabled: bool, seq: u32) -> (Clip, bool) {
    if enabled && c.seq != seq {
        (Clip { seq, text: c.text }, true)
    } else {
        (c, false)
    }
}

/// The clipboard is read once for each change of its count, while it is
/// mirrored. A change meanwhile is seen when it is mirrored again.
pub proof fn law_clipboard_is_read_once(c: Clip, seq: u32)
    ensures
        polled(c, true, seq).1 <==> seq != c.seq,
        polled(c, true, seq).0.seq == seq,
        polled(c, true, seq).0.text == c.text,
        !polled(polled(c, true, seq).0, true, seq).1,
        polled(c, false, seq) == (c, false),
        polled(polled(c, false, seq).0, true, seq) == polled(c, true, seq),
{
}

} // verus!
