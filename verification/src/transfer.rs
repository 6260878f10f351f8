//! Files over the reliable bulk channel: the frames, and the receipt of a file
//! that a peer pushes.
//!
//! The channel keeps message boundaries, so each message is one frame and a
//! leading byte tells its kind:
//!
//! | byte | frame | payload                           |
//! |------|-------|-----------------------------------|
//! | 0    | Begin | JSON of the file's name and size  |
//! | 1    | Chunk | file bytes, in order              |
//! | 2    | End   | none                              |
//! | 3    | Abort | UTF-8 reason                      |
//!
//! There is one transfer at a time per session, and `Begin` implicitly ends
//! any previous one. Reading and writing the JSON is left to the caller.

use vstd::prelude::*;
use vstd::string::StringExecFns;
use vstd::utf8::{encode_utf8, encode_utf8_decode_utf8, encode_utf8_valid_utf8};

use crate::bytes::{append_bytes, copy_range};
use crate::names::{sanitize_file_name, sanitized, UniqueName};
use crate::text::{
    decimal, decimal_text, law_decimal_stands_for_the_number, lossy, lossy_text, number_in, owned,
};

verus! {

/// How many file bytes one chunk carries: well under the message limit, and
/// little enough to interleave with video.
pub const CHUNK_BYTES: usize = 16384;

/// The largest file that is accepted.
pub const MAX_FILE_BYTES: u64 = 2147483648;

/// What is announced at the start of a transfer. `C` is a screen coordinate.
#[derive(Debug, Clone, PartialEq)]
pub struct FileMeta<C> {
    /// The sender's file name. It is hostile input.
    pub name: String,
    pub size: u64,
    /// Where on the remote screen the file was dropped; `None` to save it
    /// without pasting.
    pub drop_at: Option<(C, C)>,
}

/// One frame of the bulk channel.
#[derive(Debug, Clone, PartialEq)]
pub enum BulkFrame<C> {
    Begin(FileMeta<C>),
    Chunk(Vec<u8>),
    End,
    Abort(String),
}

/// What a frame is.
pub ghost enum Bulk<C> {
    Begin(FileMeta<C>),
    Chunk(Seq<u8>),
    End,
    Abort(Seq<char>),
}

impl<C> View for BulkFrame<C> {
    type V = Bulk<C>;

    open spec fn view(&self) -> Bulk<C> {
        match self {
            BulkFrame::Begin(meta) => Bulk::Begin(*meta),
            BulkFrame::Chunk(bytes) => Bulk::Chunk(bytes@),
            BulkFrame::End => Bulk::End,
            BulkFrame::Abort(reason) => Bulk::Abort(reason@),
        }
    }
}

/// A frame on the wire; `json` stands for an announcement.
pub open spec fn bulk_bytes<C>(frame: Bulk<C>, json: Seq<u8>) -> Seq<u8> {
    match frame {
        Bulk::Begin(_) => seq![0u8] + json,
        Bulk::Chunk(bytes) => seq![1u8] + bytes,
        Bulk::End => seq![2u8],
        Bulk::Abort(reason) => seq![3u8] + encode_utf8(reason),
    }
}

/// The frame that a message holds; `meta` is what the announcement in it
/// stands for, if it is a good one.
pub open spec fn bulk_frame<C>(bytes: Seq<u8>, meta: Option<FileMeta<C>>) -> Option<Bulk<C>> {
    let rest = bytes.skip(1);
    if bytes.len() == 0 {
        None
    } else if bytes[0] == 0 {
        match meta {
            Some(m) => Some(Bulk::Begin(m)),
            None => None,
        }
    } else if bytes[0] == 1 {
        Some(Bulk::Chunk(rest))
    } else if bytes[0] == 2 {
        Some(Bulk::End)
    } else if bytes[0] == 3 {
        Some(Bulk::Abort(lossy(rest)))
    } else {
        None
    }
}

/// The JSON of the announcement in a message, if it is one.
pub fn announcement(bytes: &[u8]) -> (r: Option<Vec<u8>>)
    ensures
        r is Some <==> bytes@.len() > 0 && bytes@[0] == 0,
        r is Some ==> r->0@ == bytes@.skip(1),
        r is Some <==> announced(bytes@) is Some,
        r is Some ==> r->0@ == announced(bytes@)->0,
{
    if bytes.len() > 0 && bytes[0] == 0 {
        let rest: Vec<u8> = copy_range(bytes, 1, bytes.len());
        assert(rest@ =~= bytes@.skip(1));
        Some(rest)
    } else {
        None
    }
}

impl<C> BulkFrame<C> {
    /// The frame as one message. `json` is the announcement of a `Begin`, and
    /// is not used for any other frame.
    pub fn encode(&self, json: &[u8]) -> (out: Vec<u8>)
        ensures
            out@ == bulk_bytes(self@, json@),
    {
        let mut out: Vec<u8> = Vec::new();
        match self {
            BulkFrame::Begin(_) => {
                out.push(0);
                append_bytes(&mut out, json);
            },
            BulkFrame::Chunk(bytes) => {
                out.push(1);
                append_bytes(&mut out, bytes.as_slice());
            },
            BulkFrame::End => {
                out.push(2);
            },
            BulkFrame::Abort(reason) => {
                out.push(3);
                append_bytes(&mut out, reason.as_str().as_bytes());
            },
        }
        assert(out@ =~= bulk_bytes(self@, json@));
        out
    }

    /// The frame in a message. `meta` is what the caller has read out of the
    /// announcement in it, `None` if that is malformed. `None` for an empty
    /// message, an unknown kind or a malformed announcement.
    pub fn decode(bytes: &[u8], meta: Option<FileMeta<C>>) -> (r: Option<BulkFrame<C>>)
        ensures
            r is Some <==> bulk_frame(bytes@, meta) is Some,
            r is Some ==> r->0@ == bulk_frame(bytes@, meta)->0,
    {
        if bytes.len() == 0 {
            return None;
        }
        let kind: u8 = bytes[0];
        let rest: Vec<u8> = copy_range(bytes, 1, bytes.len());
        assert(rest@ =~= bytes@.skip(1));
        if kind == 0 {
            match meta {
                Some(m) => Some(BulkFrame::Begin(m)),
                None => None,
            }
        } else if kind == 1 {
            Some(BulkFrame::Chunk(rest))
        } else if kind == 2 {
            Some(BulkFrame::End)
        } else if kind == 3 {
            Some(BulkFrame::Abort(lossy_text(rest.as_slice())))
        } else {
            None
        }
    }
}

/// Every frame reads back as it was sent, if the JSON of an announcement does.
pub proof fn law_frames_read_back<C>(frame: Bulk<C>, json: Seq<u8>, meta: Option<FileMeta<C>>)
    requires
        frame is Begin ==> meta == Some(frame->Begin_0),
    ensures
        bulk_frame(bulk_bytes(frame, json), meta) == Some(frame),
{
    let bytes = bulk_bytes(frame, json);
    match frame {
        Bulk::Begin(_) => {},
        Bulk::Chunk(data) => {
            assert(bytes.skip(1) =~= data);
        },
        Bulk::End => {},
        Bulk::Abort(reason) => {
            assert(bytes.skip(1) =~= encode_utf8(reason));
            encode_utf8_valid_utf8(reason);
            encode_utf8_decode_utf8(reason);
        },
    }
}

/// Why a transfer is refused or abandoned.
#[derive(Debug)]
pub enum TransferError {
    /// The declared size is over the limit.
    TooLarge(u64),
    /// Nothing is left of the file name.
    UnusableName,
    /// Every name that could be used is taken.
    NoFreeName,
    /// More arrived than was declared.
    Exceeded,
    /// Less arrived than was declared, of the file of this name.
    Incomplete(String),
}

/// Why a transfer is refused or abandoned, with names as sequences.
pub ghost enum TransferFault {
    TooLarge(u64),
    UnusableName,
    NoFreeName,
    Exceeded,
    Incomplete(Seq<char>),
}

impl View for TransferError {
    type V = TransferFault;

    open spec fn view(&self) -> TransferFault {
        match self {
            TransferError::TooLarge(size) => TransferFault::TooLarge(*size),
            TransferError::UnusableName => TransferFault::UnusableName,
            TransferError::NoFreeName => TransferFault::NoFreeName,
            TransferError::Exceeded => TransferFault::Exceeded,
            TransferError::Incomplete(name) => TransferFault::Incomplete(name@),
        }
    }
}

/// A fault in words.
pub open spec fn fault_text(fault: TransferFault) -> Seq<char> {
    match fault {
        TransferFault::TooLarge(size) => "file is too large ("@ + decimal((size / 1048576) as nat)
            + " MB, limit "@ + decimal((MAX_FILE_BYTES / 1048576) as nat) + " MB)"@,
        TransferFault::UnusableName => "unusable file name"@,
        TransferFault::NoFreeName => "no free file name"@,
        TransferFault::Exceeded => "sender exceeded the size it declared"@,
        TransferFault::Incomplete(name) => "incomplete transfer of "@ + name,
    }
}

impl TransferError {
    /// The error in words.
    pub fn message(&self) -> (text: String)
        ensures
            text@ == fault_text(self@),
    {
        match self {
            TransferError::TooLarge(size) => {
                let had: String = decimal_text(*size / 1048576);
                let limit: String = decimal_text(MAX_FILE_BYTES / 1048576);
                owned("file is too large (").concat(had.as_str()).concat(" MB, limit ").concat(
                    limit.as_str(),
                ).concat(" MB)")
            },
            TransferError::UnusableName => owned("unusable file name"),
            TransferError::NoFreeName => owned("no free file name"),
            TransferError::Exceeded => owned("sender exceeded the size it declared"),
            TransferError::Incomplete(name) => owned("incomplete transfer of ").concat(
                name.as_str(),
            ),
        }
    }
}

/// Whether an announced file is refused, and why.
pub open spec fn refusal(name: Seq<char>, size: u64) -> Option<TransferFault> {
    if size > MAX_FILE_BYTES {
        Some(TransferFault::TooLarge(size))
    } else if sanitized(name) is None {
        Some(TransferFault::UnusableName)
    } else {
        None
    }
}

/// A file that has been announced and accepted, while a free name for it is
/// looked for.
#[derive(Debug)]
pub struct Opening {
    search: UniqueName,
    expected: u64,
}

impl Opening {
    pub closed spec fn wf(&self) -> bool {
        self.search.wf() && self.expected <= MAX_FILE_BYTES
    }

    /// The sanitized name.
    pub closed spec fn wanted(&self) -> Seq<char> {
        self.search.wanted()
    }

    /// Which name is being tried, from 1.
    pub closed spec fn attempt(&self) -> int {
        self.search.attempt()
    }

    /// The declared size.
    pub closed spec fn expected(&self) -> u64 {
        self.expected
    }

    /// The name to try, inside the receive folder.
    pub fn candidate(&self) -> (out: String)
        requires
            self.wf(),
        ensures
            out@ == crate::names::candidate(self.wanted(), self.attempt()),
    {
        self.search.candidate()
    }

    /// The name that was tried is taken. There is either another one to try or
    /// the transfer is refused: nothing is ever overwritten.
    pub fn taken(&mut self) -> (r: Result<(), TransferError>)
        requires
            old(self).wf(),
        ensures
            final(self).wf(),
            final(self).wanted() == old(self).wanted(),
            final(self).expected() == old(self).expected(),
            r is Ok <==> old(self).attempt() < crate::names::LAST_ATTEMPT,
            r is Ok ==> final(self).attempt() == old(self).attempt() + 1,
            r is Err ==> final(self).attempt() == old(self).attempt(),
            r is Err ==> r->Err_0@ == TransferFault::NoFreeName,
    {
        if self.search.taken() {
            Ok(())
        } else {
            Err(TransferError::NoFreeName)
        }
    }

    /// The file has been created under the name that was tried.
    pub fn opened(self) -> (f: Incoming)
        requires
            self.wf(),
        ensures
            f.wf(),
            f.file_name() == crate::names::candidate(self.wanted(), self.attempt()),
            f.written() == 0,
            f.expected() == self.expected(),
    {
        let name: String = self.search.candidate();
        Incoming { name, written: 0, expected: self.expected }
    }
}

/// A file that is arriving.
#[derive(Debug)]
pub struct Incoming {
    name: String,
    written: u64,
    expected: u64,
}

impl Incoming {
    /// No more has arrived than was declared, which is within the limit.
    pub closed spec fn wf(&self) -> bool {
        self.written <= self.expected <= MAX_FILE_BYTES
    }

    pub closed spec fn file_name(&self) -> Seq<char> {
        self.name@
    }

    pub closed spec fn written(&self) -> u64 {
        self.written
    }

    pub closed spec fn expected(&self) -> u64 {
        self.expected
    }

    /// Takes or refuses an announced file. An error means that nothing may be
    /// created.
    pub fn begin<C>(meta: &FileMeta<C>) -> (r: Result<Opening, TransferError>)
        ensures
            r is Ok <==> refusal(meta.name@, meta.size) is None,
            r is Err ==> r->Err_0@ == refusal(meta.name@, meta.size)->0,
            r is Ok ==> {
                let o = r->Ok_0;
                &&& o.wf()
                &&& o.wanted() == sanitized(meta.name@)->0
                &&& o.attempt() == 1
                &&& o.expected() == meta.size
            },
    {
        if meta.size > MAX_FILE_BYTES {
            return Err(TransferError::TooLarge(meta.size));
        }
        match sanitize_file_name(meta.name.as_str()) {
            Some(name) => Ok(Opening { search: UniqueName::new(name), expected: meta.size }),
            None => Err(TransferError::UnusableName),
        }
    }

    /// Counts a chunk of this many bytes against the declared size. An error
    /// means that the chunk must not be written and the transfer ends.
    pub fn write(&mut self, bytes: &[u8]) -> (r: Result<(), TransferError>)
        requires
            old(self).wf(),
        ensures
            final(self).wf(),
            final(self).file_name() == old(self).file_name(),
            final(self).expected() == old(self).expected(),
            r is Ok <==> old(self).written() + bytes@.len() <= old(self).expected(),
            final(self).written() == counted_after(
                old(self).written() as nat,
                old(self).expected(),
                bytes@.len(),
            ),
            r is Err ==> r->Err_0@ == TransferFault::Exceeded,
    {
        let n: u64 = bytes.len() as u64;
        if n > self.expected - self.written {
            return Err(TransferError::Exceeded);
        }
        self.written = self.written + n;
        Ok(())
    }

    /// Ends the transfer: the name of the complete file, or an error if less
    /// arrived than was declared, and then the file must be removed.
    pub fn finish(self) -> (r: Result<String, TransferError>)
        ensures
            r is Ok <==> self.written() == self.expected(),
            r is Ok ==> r->Ok_0@ == self.file_name(),
            r is Err ==> r->Err_0@ == TransferFault::Incomplete(self.file_name()),
    {
        if self.written != self.expected {
            return Err(TransferError::Incomplete(self.name));
        }
        Ok(self.name)
    }

    /// How many bytes have arrived and how many will.
    pub fn progress(&self) -> (p: (u64, u64))
        ensures
            p == (self.written(), self.expected()),
            self.wf() ==> p.0 <= p.1,
    {
        (self.written, self.expected)
    }
}

/// The sum of the lengths of some chunks.
pub open spec fn total_len(chunks: Seq<Seq<u8>>) -> nat
    decreases chunks.len(),
{
    if chunks.len() == 0 {
        0
    } else {
        total_len(chunks.drop_last()) + chunks.last().len()
    }
}

/// How many bytes are counted after a chunk: it is taken whole or not at all.
pub open spec fn counted_after(written: nat, expected: u64, len: nat) -> nat {
    if written + len <= expected {
        written + len
    } else {
        written
    }
}

/// How many bytes are counted once chunks have arrived at a file of a declared
/// size.
pub open spec fn counted(expected: u64, chunks: Seq<Seq<u8>>) -> nat
    decreases chunks.len(),
{
    if chunks.len() == 0 {
        0
    } else {
        counted_after(counted(expected, chunks.drop_last()), expected, chunks.last().len())
    }
}

/// However much a peer sends, no more is ever written than it declared.
pub proof fn law_declared_size_is_a_cap(expected: u64, chunks: Seq<Seq<u8>>)
    ensures
        counted(expected, chunks) <= expected,
    decreases chunks.len(),
{
    if chunks.len() > 0 {
        law_declared_size_is_a_cap(expected, chunks.drop_last());
    }
}

/// A file sent in chunks that add up to the declared size is complete, and all
/// of it is taken.
pub proof fn law_complete_file_is_taken(expected: u64, chunks: Seq<Seq<u8>>)
    requires
        total_len(chunks) <= expected,
    ensures
        counted(expected, chunks) == total_len(chunks),
    decreases chunks.len(),
{
    if chunks.len() > 0 {
        law_complete_file_is_taken(expected, chunks.drop_last());
    }
}

/// The first byte of a message tells what it is, the rest is what it carries:
/// 0 announces a file, 1 is a piece of it, 2 its end, 3 calls it off. Anything
/// else, and an empty message, means nothing.
pub proof fn law_frames_begin_with_their_kind<C>(
    meta: FileMeta<C>,
    json: Seq<u8>,
    data: Seq<u8>,
    reason: Seq<char>,
    kind: u8,
)
    ensures
        bulk_bytes(Bulk::Begin(meta), json) == seq![0u8] + json,
        bulk_bytes(Bulk::<C>::Chunk(data), json) == seq![1u8] + data,
        bulk_bytes(Bulk::<C>::End, json) == seq![2u8],
        bulk_bytes(Bulk::<C>::Abort(reason), json) == seq![3u8] + encode_utf8(reason),
        bulk_frame(seq![1u8] + data, Some(meta)) == Some(Bulk::<C>::Chunk(data)),
        kind > 3 ==> bulk_frame(seq![kind] + data, Some(meta)) is None,
        bulk_frame(Seq::<u8>::empty(), Some(meta)) is None,
        bulk_frame(seq![0u8] + json, None::<FileMeta<C>>) is None,
{
    assert((seq![1u8] + data).skip(1) =~= data);
}

/// A file is refused exactly if it is over two gigabytes or if its name leaves
/// nothing to call it by; the size is looked at first.
pub proof fn law_files_are_refused_for_size_or_name(name: Seq<char>, size: u64)
    ensures
        size > 0x8000_0000 ==> refusal(name, size) == Some(TransferFault::TooLarge(size)),
        size <= 0x8000_0000 && sanitized(name) is None ==> refusal(name, size) == Some(
            TransferFault::UnusableName,
        ),
        size <= 0x8000_0000 && sanitized(name) is Some ==> refusal(name, size) is None,
{
}

/// Who sends too large a file is told both sizes, in units of 2^20 bytes.
pub proof fn law_size_fault_names_both_sizes(size: u64)
    ensures
        fault_text(TransferFault::TooLarge(size)) == "file is too large ("@ + decimal(
            (size / 0x10_0000) as nat,
        ) + " MB, limit "@ + seq!['2', '0', '4', '8'] + " MB)"@,
        number_in(seq!['2', '0', '4', '8']) == 2048,
        number_in(decimal((size / 0x10_0000) as nat)) == size / 0x10_0000,
{
    law_decimal_stands_for_the_number((size / 0x10_0000) as nat);
    reveal_with_fuel(decimal, 5);
    reveal_with_fuel(number_in, 6);
    assert(decimal(2048) =~= seq!['2', '0', '4', '8']);
    let s = seq!['2', '0', '4', '8'];
    assert(s.drop_last() =~= seq!['2', '0', '4']);
    assert(s.drop_last().drop_last() =~= seq!['2', '0']);
    assert(s.drop_last().drop_last().drop_last() =~= seq!['2']);
}

/// A chunk counts with its length if all of it fits, and not at all otherwise.
pub proof fn law_chunks_count_whole_or_not(written: nat, expected: u64, len: nat)
    requires
        written <= expected,
    ensures
        len <= expected - written ==> counted_after(written, expected, len) == written + len,
        len > expected - written ==> counted_after(written, expected, len) == written,
{
}

/// What a message says of a file to come, if it does.
pub open spec fn announced(bytes: Seq<u8>) -> Option<Seq<u8>> {
    if bytes.len() > 0 && bytes[0] == 0 {
        Some(bytes.subrange(1, bytes.len() as int))
    } else {
        None
    }
}

/// What is announced stands behind a zero; a message that begins otherwise, or
/// is empty, announces nothing.
pub proof fn law_announcements_stand_behind_a_zero(kind: u8, json: Seq<u8>)
    ensures
        announced(seq![0u8] + json) == Some(json),
        kind != 0 ==> announced(seq![kind] + json) is None,
        announced(Seq::<u8>::empty()) is None,
{
    assert((seq![0u8] + json).subrange(1, 1 + json.len() as int) =~= json);
}

/// Frames and errors are seen with everything in them.
pub proof fn law_frames_are_seen_as_they_are<C>(f: BulkFrame<C>, e: TransferError)
    ensures
        match f {
            BulkFrame::Begin(meta) => f@ == Bulk::Begin(meta),
            BulkFrame::Chunk(bytes) => f@ == Bulk::<C>::Chunk(bytes@),
            BulkFrame::End => f@ is End,
            BulkFrame::Abort(reason) => f@ == Bulk::<C>::Abort(reason@),
        },
        match e {
            TransferError::TooLarge(size) => e@ == TransferFault::TooLarge(size),
            TransferError::UnusableName => e@ is UnusableName,
            TransferError::NoFreeName => e@ is NoFreeName,
            TransferError::Exceeded => e@ is Exceeded,
            TransferError::Incomplete(name) => e@ == TransferFault::Incomplete(name@),
        },
{
}

/// Each fault has its own words.
pub proof fn law_faults_have_words(name: Seq<char>)
    ensures
        fault_text(TransferFault::UnusableName) == "unusable file name"@,
        fault_text(TransferFault::NoFreeName) == "no free file name"@,
        fault_text(TransferFault::Exceeded) == "sender exceeded the size it declared"@,
        fault_text(TransferFault::Incomplete(name)) == "incomplete transfer of "@ + name,
{
}

/// A file goes out in pieces of sixteen kilobytes, and may have up to two
/// gigabytes.
pub proof fn law_files_go_in_pieces()
    ensures
        CHUNK_BYTES == 16 * 1024,
        MAX_FILE_BYTES == 2 * 1024 * 1024 * 1024,
{
}

} // verus!
