//! The viewer's side of a file transfer: dropped files are sent one at a time.

use vstd::prelude::*;
use vstd::string::StringExecFns;

use crate::receiver::{chunk_came, end_came, Arriving, FileDeed, Receipt};
use crate::text::owned;
use crate::transfer::{total_len, Bulk, BulkFrame, FileMeta, MAX_FILE_BYTES};

verus! {

/// What a dropped path turns out to be.
#[derive(Debug, Clone, Copy, PartialEq, Eq, Structural)]
pub enum Dropped {
    Unreadable,
    Folder,
    File { size: u64 },
}

/// Whether a dropped path is not sent, and what the user is told.
pub open spec fn rejection(name: Seq<char>, d: Dropped) -> Option<Seq<char>> {
    match d {
        Dropped::Unreadable => Some("Cannot read "@ + name),
        Dropped::Folder => Some(name + " is a folder — send files instead"@),
        Dropped::File { size } => if size > MAX_FILE_BYTES {
            Some(name + " is too large"@)
        } else {
            None
        },
    }
}

/// Whether a dropped path is not sent, and what the user is told.
pub fn reject(name: &str, d: Dropped) -> (r: Option<String>)
    ensures
        r is Some <==> rejection(name@, d) is Some,
        r is Some ==> r->0@ == rejection(name@, d)->0,
{
    match d {
        Dropped::Unreadable => Some(owned("Cannot read ").concat(name)),
        Dropped::Folder => Some(owned(name).concat(" is a folder — send files instead")),
        Dropped::File { size } => if size > MAX_FILE_BYTES {
            Some(owned(name).concat(" is too large"))
        } else {
            None
        },
    }
}

/// What the user is told of a file that cannot be opened.
pub fn cannot_open(name: &str) -> (text: String)
    ensures
        text@ == "Cannot open "@ + name@,
{
    owned("Cannot open ").concat(name)
}

/// What comes of a step of sending.
#[derive(Debug)]
pub struct SendStep<C> {
    /// What to send, if anything.
    pub frame: Option<BulkFrame<C>>,
    /// What to tell the user, if anything.
    pub toast: Option<String>,
}

/// A file that is being sent.
#[derive(Debug)]
pub struct Outgoing {
    name: String,
    size: u64,
    sent: u64,
}

impl Outgoing {
    pub closed spec fn file_name(&self) -> Seq<char> {
        self.name@
    }

    pub closed spec fn size(&self) -> u64 {
        self.size
    }

    pub closed spec fn sent(&self) -> u64 {
        self.sent
    }

    /// A file is open: it is announced, with the place where it was dropped.
    pub fn begin<C>(name: String, size: u64, at: (C, C)) -> (r: (Outgoing, SendStep<C>))
        ensures
            r.0.file_name() == name@,
            r.0.size() == size,
            r.0.sent() == 0,
            r.1.frame is Some,
            r.1.frame->0@ is Begin,
            r.1.frame->0@->Begin_0.name@ == name@,
            r.1.frame->0@->Begin_0.size == size,
            r.1.frame->0@->Begin_0.drop_at == Some(at),
            r.1.toast is Some,
            r.1.toast->0@ == "Sending "@ + name@ + "…"@,
    {
        let toast: String = owned("Sending ").concat(name.as_str()).concat("…");
        let meta = FileMeta { name: name.clone(), size, drop_at: Some(at) };
        (
            Outgoing { name, size, sent: 0 },
            SendStep { frame: Some(BulkFrame::Begin(meta)), toast: Some(toast) },
        )
    }

    /// Some bytes were read: they are sent.
    pub fn on_bytes<C>(&mut self, bytes: Vec<u8>) -> (frame: BulkFrame<C>)
        requires
            old(self).sent() + bytes@.len() <= u64::MAX,
        ensures
            final(self).file_name() == old(self).file_name(),
            final(self).size() == old(self).size(),
            final(self).sent() == old(self).sent() + bytes@.len(),
            frame@ == Bulk::<C>::Chunk(bytes@),
    {
        self.sent = self.sent + bytes.len() as u64;
        BulkFrame::Chunk(bytes)
    }

    /// Reading failed: the peer is told, and so is the user.
    pub fn on_error<C>(&self, why: &str) -> (step: SendStep<C>)
        ensures
            step.frame is Some,
            step.frame->0@ == Bulk::<C>::Abort("read error: "@ + why@),
            step.toast is Some,
            step.toast->0@ == "Failed sending "@ + self.file_name(),
    {
        SendStep {
            frame: Some(BulkFrame::Abort(owned("read error: ").concat(why))),
            toast: Some(owned("Failed sending ").concat(self.name.as_str())),
        }
    }

    /// The file is at its end. If that is not where it was when the transfer
    /// began, the peer must not keep what it has.
    pub fn on_end<C>(&self) -> (step: SendStep<C>)
        ensures
            step.frame is Some,
            self.sent() == self.size() ==> step.frame->0@ == Bulk::<C>::End && step.toast is None,
            self.sent() != self.size() ==> {
                &&& step.frame->0@ == Bulk::<C>::Abort("file changed while sending"@)
                &&& step.toast is Some
                &&& step.toast->0@ == self.file_name() + " changed while sending"@
            },
    {
        if self.sent != self.size {
            SendStep {
                frame: Some(BulkFrame::Abort(owned("file changed while sending"))),
                toast: Some(owned(self.name.as_str()).concat(" changed while sending")),
            }
        } else {
            SendStep { frame: Some(BulkFrame::End), toast: None }
        }
    }
}

/// The transfer once some chunks have come.
pub open spec fn after_chunks<C>(r: Receipt<C>, chunks: Seq<Seq<u8>>) -> Receipt<C>
    decreases chunks.len(),
{
    if chunks.len() == 0 {
        r
    } else {
        chunk_came(after_chunks(r, chunks.drop_last()), chunks.last()).0
    }
}

proof fn lemma_chunks_arrive<C>(r: Receipt<C>, chunks: Seq<Seq<u8>>)
    requires
        r.incoming is Some,
        r.incoming->0.written == 0,
        total_len(chunks) <= r.incoming->0.expected,
    ensures
        after_chunks(r, chunks) == (Receipt {
            incoming: Some(Arriving { written: total_len(chunks), ..r.incoming->0 }),
            ..r
        }),
    decreases chunks.len(),
{
    if chunks.len() > 0 {
        lemma_chunks_arrive(r, chunks.drop_last());
    }
}

/// A file that is sent as it was announced is delivered: whatever the chunks,
/// if they add up to the size, the end delivers the file.
pub proof fn law_sent_file_is_delivered<C>(r: Receipt<C>, chunks: Seq<Seq<u8>>)
    requires
        r.incoming is Some,
        r.incoming->0.written == 0,
        total_len(chunks) == r.incoming->0.expected,
    ensures
        end_came(after_chunks(r, chunks)).1 == seq![
            FileDeed::Deliver(r.incoming->0.name, r.drop_at),
        ],
{
    lemma_chunks_arrive(r, chunks);
}

/// A file that is cut short is not delivered but removed.
pub proof fn law_truncated_file_is_discarded<C>(r: Receipt<C>, chunks: Seq<Seq<u8>>)
    requires
        r.incoming is Some,
        r.incoming->0.written == 0,
        total_len(chunks) < r.incoming->0.expected,
    ensures
        end_came(after_chunks(r, chunks)).1[0] == FileDeed::<C>::Discard,
        end_came(after_chunks(r, chunks)).0.incoming is None,
{
    lemma_chunks_arrive(r, chunks);
}

/// A dropped path is sent exactly if it is a file of two gigabytes at most;
/// otherwise the user is told its name and why.
pub proof fn law_only_files_are_sent(name: Seq<char>, size: u64)
    ensures
        size <= 0x8000_0000 ==> rejection(name, Dropped::File { size }) is None,
        size > 0x8000_0000 ==> rejection(name, Dropped::File { size }) == Some(
            name + " is too large"@,
        ),
        rejection(name, Dropped::Unreadable) == Some("Cannot read "@ + name),
        rejection(name, Dropped::Folder) == Some(name + " is a folder — send files instead"@),
{
}

/// What was sent is what is written: each chunk arrives as it was sent, and in
/// the order in which it was sent.
pub proof fn law_chunks_arrive_in_order<C>(r: Receipt<C>, chunks: Seq<Seq<u8>>, k: int)
    requires
        r.incoming is Some,
        r.incoming->0.written == 0,
        total_len(chunks) <= r.incoming->0.expected,
        0 <= k < chunks.len(),
    ensures
        chunk_came(after_chunks(r, chunks.take(k)), chunks[k]).1 == seq![
            FileDeed::<C>::Write(chunks[k]),
        ],
    decreases chunks.len(),
{
    if k == chunks.len() - 1 {
        assert(chunks.take(k) =~= chunks.drop_last());
        lemma_chunks_arrive(r, chunks.drop_last());
    } else {
        law_chunks_arrive_in_order(r, chunks.drop_last(), k);
        assert(chunks.drop_last().take(k) =~= chunks.take(k));
    }
}

} // verus!
