//! The host's side of a file transfer.
//!
//! Whatever arrives here is the peer's choice. A name cannot lead out of the
//! receive folder, nothing is overwritten, and no more is written than was
//! declared. A transfer that fails, that the sender calls off or that another
//! one supersedes leaves nothing half-written behind. Only where the permission
//! to control is taken away, or the session ends, does a file that was still
//! arriving stay as it is.

use vstd::prelude::*;
use vstd::string::StringExecFns;

use crate::injector::{after_key, key_acts, lemma_stays_unique, with, without, Act, Hand, Injector};
use crate::names::{
    before_dot, candidate, is_device, is_safe_name, law_candidates_are_no_device,
    law_candidates_are_safe, law_sanitized_name_is_no_device, law_sanitized_name_is_safe, sanitized,
    LAST_ATTEMPT,
};
use crate::scancode::{law_lower_row_count_up, law_middle_row_count_up, scan_code, ScanCode};
use crate::text::owned;
use crate::transfer::{
    fault_text, refusal, Bulk, BulkFrame, FileMeta, Incoming, Opening, TransferFault,
};

verus! {

/// Something to be done about a file.
#[derive(Debug)]
pub enum FileAct<C> {
    /// Create a file of this name in the receive folder, unless there is one:
    /// `name_taken`, `opened` or `open_failed` is the answer.
    TryName(String),
    /// Write to the file; `write_failed` is the answer if that fails.
    Write(Vec<u8>),
    /// Close the file and remove it.
    Discard,
    /// Close the file and leave it as it is.
    Close,
    /// The file of this name is complete: hand it to the user, where it was
    /// dropped.
    Deliver { name: String, drop_at: Option<(C, C)> },
    /// Tell the user.
    Toast(String),
}

/// Something to be done about a file, with text as sequences.
pub ghost enum FileDeed<C> {
    TryName(Seq<char>),
    Write(Seq<u8>),
    Discard,
    Close,
    Deliver(Seq<char>, Option<(C, C)>),
    Toast(Seq<char>),
}

impl<C> View for FileAct<C> {
    type V = FileDeed<C>;

    open spec fn view(&self) -> FileDeed<C> {
        match self {
            FileAct::TryName(name) => FileDeed::TryName(name@),
            FileAct::Write(bytes) => FileDeed::Write(bytes@),
            FileAct::Discard => FileDeed::Discard,
            FileAct::Close => FileDeed::Close,
            FileAct::Deliver { name, drop_at } => FileDeed::Deliver(name@, *drop_at),
            FileAct::Toast(text) => FileDeed::Toast(text@),
        }
    }
}

/// The deeds in a list.
pub open spec fn file_deeds<C>(v: Seq<FileAct<C>>) -> Seq<FileDeed<C>> {
    v.map_values(|a: FileAct<C>| a@)
}

/// A file for which a free name is looked for.
pub ghost struct Wanted {
    /// The name that the peer gave.
    pub raw: Seq<char>,
    /// What is left of it.
    pub name: Seq<char>,
    pub attempt: int,
    pub expected: u64,
}

/// A file that is arriving.
pub ghost struct Arriving {
    pub name: Seq<char>,
    pub written: nat,
    pub expected: u64,
}

/// The state of a transfer.
#[verifier::ext_equal]
pub ghost struct Receipt<C> {
    pub opening: Option<Wanted>,
    pub incoming: Option<Arriving>,
    pub drop_at: Option<(C, C)>,
}

/// What is done about a file that is arriving when the transfer ends early.
pub open spec fn discarding<C>(r: Receipt<C>) -> Seq<FileDeed<C>> {
    if r.incoming is Some {
        seq![FileDeed::Discard]
    } else {
        seq![]
    }
}

/// What is done about a file that is arriving when the peer may no longer send
/// it.
pub open spec fn closing<C>(r: Receipt<C>) -> Seq<FileDeed<C>> {
    if r.incoming is Some {
        seq![FileDeed::Close]
    } else {
        seq![]
    }
}

/// A transfer that is over.
pub open spec fn over<C>(r: Receipt<C>) -> Receipt<C> {
    Receipt { opening: None, incoming: None, ..r }
}

/// A file is announced. That ends any previous transfer.
pub open spec fn begun<C>(r: Receipt<C>, meta: FileMeta<C>) -> (Receipt<C>, Seq<FileDeed<C>>) {
    let fresh = Receipt { drop_at: meta.drop_at, ..over(r) };
    match refusal(meta.name@, meta.size) {
        Some(fault) => (
            fresh,
            discarding(r).push(FileDeed::Toast("Refused file: "@ + fault_text(fault))),
        ),
        None => {
            let name = sanitized(meta.name@)->0;
            (
                Receipt {
                    opening: Some(
                        Wanted { raw: meta.name@, name, attempt: 1, expected: meta.size },
                    ),
                    ..fresh
                },
                discarding(r).push(FileDeed::TryName(candidate(name, 1))),
            )
        },
    }
}

/// The name that was tried is taken.
pub open spec fn name_was_taken<C>(r: Receipt<C>) -> (Receipt<C>, Seq<FileDeed<C>>) {
    match r.opening {
        Some(w) => if w.attempt < LAST_ATTEMPT {
            (
                Receipt { opening: Some(Wanted { attempt: w.attempt + 1, ..w }), ..r },
                seq![FileDeed::TryName(candidate(w.name, w.attempt + 1))],
            )
        } else {
            (
                Receipt { opening: None, ..r },
                seq![
                    FileDeed::Toast("Refused file: "@ + fault_text(TransferFault::NoFreeName)),
                ],
            )
        },
        None => (r, seq![]),
    }
}

/// The file has been created.
pub open spec fn was_opened<C>(r: Receipt<C>) -> (Receipt<C>, Seq<FileDeed<C>>) {
    match r.opening {
        Some(w) => (
            Receipt {
                opening: None,
                incoming: Some(
                    Arriving {
                        name: candidate(w.name, w.attempt),
                        written: 0,
                        expected: w.expected,
                    },
                ),
                ..r
            },
            seq![FileDeed::Toast("Receiving "@ + w.raw + "…"@)],
        ),
        None => (r, seq![]),
    }
}

/// The file could not be created.
pub open spec fn was_not_opened<C>(r: Receipt<C>, why: Seq<char>) -> (
    Receipt<C>,
    Seq<FileDeed<C>>,
) {
    if r.opening is Some {
        (
            Receipt { opening: None, ..r },
            seq![FileDeed::Toast("Refused file: "@ + why)],
        )
    } else {
        (r, seq![])
    }
}

/// The transfer fails.
pub open spec fn failed<C>(r: Receipt<C>, why: Seq<char>) -> (Receipt<C>, Seq<FileDeed<C>>) {
    if r.incoming is Some {
        (
            Receipt { incoming: None, ..r },
            seq![FileDeed::Toast("Transfer failed: "@ + why), FileDeed::Discard],
        )
    } else {
        (r, seq![])
    }
}

/// A chunk has come.
pub open spec fn chunk_came<C>(r: Receipt<C>, data: Seq<u8>) -> (Receipt<C>, Seq<FileDeed<C>>) {
    match r.incoming {
        Some(f) => if f.written + data.len() <= f.expected {
            (
                Receipt { incoming: Some(Arriving { written: f.written + data.len(), ..f }), ..r },
                seq![FileDeed::Write(data)],
            )
        } else {
            failed(r, fault_text(TransferFault::Exceeded))
        },
        None => (r, seq![]),
    }
}

/// The end of the file has come.
pub open spec fn end_came<C>(r: Receipt<C>) -> (Receipt<C>, Seq<FileDeed<C>>) {
    match r.incoming {
        Some(f) => if f.written == f.expected {
            (
                Receipt { incoming: None, drop_at: None, ..r },
                seq![FileDeed::Deliver(f.name, r.drop_at)],
            )
        } else {
            (
                Receipt { incoming: None, ..r },
                seq![
                    FileDeed::Discard,
                    FileDeed::Toast(
                        "Transfer failed: "@ + fault_text(TransferFault::Incomplete(f.name)),
                    ),
                ],
            )
        },
        None => (r, seq![]),
    }
}

/// What a message on the bulk channel makes of the transfer. Writing to this
/// machine's disk takes the permission to control it; without that, nothing
/// more is written to whatever was arriving. A malformed message is ignored.
pub open spec fn bulk_came<C>(r: Receipt<C>, allowed: bool, frame: Option<Bulk<C>>) -> (
    Receipt<C>,
    Seq<FileDeed<C>>,
) {
    if !allowed {
        (over(r), closing(r))
    } else {
        match frame {
            None => (r, seq![]),
            Some(Bulk::Begin(meta)) => begun(r, meta),
            Some(Bulk::Chunk(data)) => chunk_came(r, data),
            Some(Bulk::End) => end_came(r),
            Some(Bulk::Abort(_)) => (
                Receipt { incoming: None, ..r },
                discarding(r).push(FileDeed::Toast("Transfer cancelled by sender"@)),
            ),
        }
    }
}

/// Receives files, one at a time.
#[derive(Debug)]
pub struct FileReceiver<C> {
    opening: Option<(Opening, String)>,
    incoming: Option<Incoming>,
    drop_at: Option<(C, C)>,
}

impl<C> View for FileReceiver<C> {
    type V = Receipt<C>;

    closed spec fn view(&self) -> Receipt<C> {
        Receipt {
            opening: match self.opening {
                Some((o, raw)) => Some(
                    Wanted {
                        raw: raw@,
                        name: o.wanted(),
                        attempt: o.attempt(),
                        expected: o.expected(),
                    },
                ),
                None => None,
            },
            incoming: match self.incoming {
                Some(f) => Some(
                    Arriving {
                        name: f.file_name(),
                        written: f.written() as nat,
                        expected: f.expected(),
                    },
                ),
                None => None,
            },
            drop_at: self.drop_at,
        }
    }
}

fn push_file<C>(acts: &mut Vec<FileAct<C>>, a: FileAct<C>)
    ensures
        file_deeds(final(acts)@) == file_deeds(old(acts)@).push(a@),
{
    acts.push(a);
    assert(file_deeds(acts@) =~= file_deeds(old(acts)@).push(a@));
}

fn no_files<C>() -> (acts: Vec<FileAct<C>>)
    ensures
        file_deeds(acts@) == Seq::<FileDeed<C>>::empty(),
{
    let acts: Vec<FileAct<C>> = Vec::new();
    assert(file_deeds(acts@) =~= Seq::<FileDeed<C>>::empty());
    acts
}

impl<C: Copy> FileReceiver<C> {
    pub closed spec fn wf(&self) -> bool {
        &&& self.opening is Some ==> self.opening->Some_0.0.wf()
        &&& self.incoming is Some ==> self.incoming->0.wf()
    }

    pub fn new() -> (r: Self)
        ensures
            r.wf(),
            r@ == (Receipt { opening: None, incoming: None, drop_at: None::<(C, C)> }),
    {
        FileReceiver { opening: None, incoming: None, drop_at: None }
    }

    /// Gives up whatever is arriving.
    fn give_up(&mut self) -> (acts: Vec<FileAct<C>>)
        requires
            old(self).wf(),
        ensures
            final(self).wf(),
            final(self)@ == over(old(self)@),
            file_deeds(acts@) == discarding(old(self)@),
    {
        let mut acts: Vec<FileAct<C>> = no_files();
        if self.incoming.is_some() {
            push_file(&mut acts, FileAct::Discard);
        }
        self.opening = None;
        self.incoming = None;
        assert(file_deeds(acts@) =~= discarding(old(self)@));
        acts
    }

    /// Takes nothing more of whatever is arriving.
    fn close(&mut self) -> (acts: Vec<FileAct<C>>)
        requires
            old(self).wf(),
        ensures
            final(self).wf(),
            final(self)@ == over(old(self)@),
            file_deeds(acts@) == closing(old(self)@),
    {
        let mut acts: Vec<FileAct<C>> = no_files();
        if self.incoming.is_some() {
            push_file(&mut acts, FileAct::Close);
        }
        self.opening = None;
        self.incoming = None;
        assert(file_deeds(acts@) =~= closing(old(self)@));
        acts
    }

    fn begin(&mut self, meta: FileMeta<C>) -> (acts: Vec<FileAct<C>>)
        requires
            old(self).wf(),
        ensures
            final(self).wf(),
            (final(self)@, file_deeds(acts@)) == begun(old(self)@, meta),
    {
        let mut acts: Vec<FileAct<C>> = self.give_up();
        self.drop_at = meta.drop_at;
        match Incoming::begin(&meta) {
            Ok(o) => {
                push_file(&mut acts, FileAct::TryName(o.candidate()));
                self.opening = Some((o, meta.name));
            },
            Err(e) => {
                let why: String = e.message();
                push_file(
                    &mut acts,
                    FileAct::Toast(owned("Refused file: ").concat(why.as_str())),
                );
            },
        }
        acts
    }

    /// The name that was tried is taken.
    pub fn name_taken(&mut self) -> (acts: Vec<FileAct<C>>)
        requires
            old(self).wf(),
        ensures
            final(self).wf(),
            (final(self)@, file_deeds(acts@)) == name_was_taken(old(self)@),
    {
        let mut acts: Vec<FileAct<C>> = no_files();
        let o: Option<(Opening, String)> = self.opening.take();
        if let Some((o, raw)) = o {
            let mut o: Opening = o;
            match o.taken() {
                Ok(()) => {
                    push_file(&mut acts, FileAct::TryName(o.candidate()));
                    self.opening = Some((o, raw));
                },
                Err(e) => {
                    let why: String = e.message();
                    push_file(
                        &mut acts,
                        FileAct::Toast(owned("Refused file: ").concat(why.as_str())),
                    );
                },
            }
        }
        assert(self@ =~= name_was_taken(old(self)@).0);
        assert(file_deeds(acts@) =~= name_was_taken(old(self)@).1);
        acts
    }

    /// The file has been created.
    pub fn opened(&mut self) -> (acts: Vec<FileAct<C>>)
        requires
            old(self).wf(),
        ensures
            final(self).wf(),
            (final(self)@, file_deeds(acts@)) == was_opened(old(self)@),
    {
        let mut acts: Vec<FileAct<C>> = no_files();
        let o: Option<(Opening, String)> = self.opening.take();
        if let Some((o, raw)) = o {
            push_file(
                &mut acts,
                FileAct::Toast(owned("Receiving ").concat(raw.as_str()).concat("…")),
            );
            self.incoming = Some(o.opened());
        }
        assert(self@ =~= was_opened(old(self)@).0);
        assert(file_deeds(acts@) =~= was_opened(old(self)@).1);
        acts
    }

    /// The file could not be created.
    pub fn open_failed(&mut self, why: &str) -> (acts: Vec<FileAct<C>>)
        requires
            old(self).wf(),
        ensures
            final(self).wf(),
            (final(self)@, file_deeds(acts@)) == was_not_opened(old(self)@, why@),
    {
        let mut acts: Vec<FileAct<C>> = no_files();
        if self.opening.is_some() {
            self.opening = None;
            push_file(&mut acts, FileAct::Toast(owned("Refused file: ").concat(why)));
        }
        assert(self@ =~= was_not_opened(old(self)@, why@).0);
        assert(file_deeds(acts@) =~= was_not_opened(old(self)@, why@).1);
        acts
    }

    /// The file could not be written to.
    pub fn write_failed(&mut self, why: &str) -> (acts: Vec<FileAct<C>>)
        requires
            old(self).wf(),
        ensures
            final(self).wf(),
            (final(self)@, file_deeds(acts@)) == failed(old(self)@, why@),
    {
        let mut acts: Vec<FileAct<C>> = no_files();
        if self.incoming.is_some() {
            self.incoming = None;
            push_file(&mut acts, FileAct::Toast(owned("Transfer failed: ").concat(why)));
            push_file(&mut acts, FileAct::Discard);
        }
        assert(self@ =~= failed(old(self)@, why@).0);
        assert(file_deeds(acts@) =~= failed(old(self)@, why@).1);
        acts
    }

    fn chunk(&mut self, data: Vec<u8>) -> (acts: Vec<FileAct<C>>)
        requires
            old(self).wf(),
        ensures
            final(self).wf(),
            (final(self)@, file_deeds(acts@)) == chunk_came(old(self)@, data@),
    {
        let mut acts: Vec<FileAct<C>> = no_files();
        let f: Option<Incoming> = self.incoming.take();
        if let Some(f) = f {
            let mut f: Incoming = f;
            match f.write(data.as_slice()) {
                Ok(()) => {
                    self.incoming = Some(f);
                    push_file(&mut acts, FileAct::Write(data));
                },
                Err(e) => {
                    let why: String = e.message();
                    push_file(
                        &mut acts,
                        FileAct::Toast(owned("Transfer failed: ").concat(why.as_str())),
                    );
                    push_file(&mut acts, FileAct::Discard);
                },
            }
        }
        assert(self@ =~= chunk_came(old(self)@, data@).0);
        assert(file_deeds(acts@) =~= chunk_came(old(self)@, data@).1);
        acts
    }

    fn end(&mut self) -> (acts: Vec<FileAct<C>>)
        requires
            old(self).wf(),
        ensures
            final(self).wf(),
            (final(self)@, file_deeds(acts@)) == end_came(old(self)@),
    {
        let mut acts: Vec<FileAct<C>> = no_files();
        let f: Option<Incoming> = self.incoming.take();
        if let Some(f) = f {
            match f.finish() {
                Ok(name) => {
                    let drop_at: Option<(C, C)> = self.drop_at.take();
                    push_file(&mut acts, FileAct::Deliver { name, drop_at });
                },
                Err(e) => {
                    let why: String = e.message();
                    push_file(&mut acts, FileAct::Discard);
                    push_file(
                        &mut acts,
                        FileAct::Toast(owned("Transfer failed: ").concat(why.as_str())),
                    );
                },
            }
        }
        assert(self@ =~= end_came(old(self)@).0);
        assert(file_deeds(acts@) =~= end_came(old(self)@).1);
        acts
    }

    /// A message has come on the bulk channel; `None` if it is malformed.
    /// `allowed` if the peer may control this machine.
    pub fn on_frame(&mut self, allowed: bool, frame: Option<BulkFrame<C>>) -> (acts: Vec<
        FileAct<C>,
    >)
        requires
            old(self).wf(),
        ensures
            final(self).wf(),
            (final(self)@, file_deeds(acts@)) == bulk_came(
                old(self)@,
                allowed,
                match frame {
                    Some(f) => Some(f@),
                    None => None,
                },
            ),
    {
        if !allowed {
            return self.close();
        }
        match frame {
            None => no_files(),
            Some(BulkFrame::Begin(meta)) => self.begin(meta),
            Some(BulkFrame::Chunk(data)) => self.chunk(data),
            Some(BulkFrame::End) => self.end(),
            Some(BulkFrame::Abort(_)) => {
                let mut acts: Vec<FileAct<C>> = no_files();
                if self.incoming.is_some() {
                    self.incoming = None;
                    push_file(&mut acts, FileAct::Discard);
                }
                assert(file_deeds(acts@) =~= discarding(old(self)@));
                push_file(&mut acts, FileAct::Toast(owned("Transfer cancelled by sender")));
                acts
            },
        }
    }
}

/// What the user is told of a received file.
pub open spec fn delivered_text(name: Seq<char>, pasted: bool) -> Seq<char> {
    if pasted {
        "Pasted "@ + name
    } else {
        name + " is on the clipboard (also saved to Downloads\\ShareCtrlScreen)"@
    }
}

/// What the user is told of a received file.
pub fn delivered_toast(name: &str, pasted: bool) -> (text: String)
    ensures
        text@ == delivered_text(name@, pasted),
{
    if pasted {
        owned("Pasted ").concat(name)
    } else {
        owned(name).concat(" is on the clipboard (also saved to Downloads\\ShareCtrlScreen)")
    }
}

/// Where to paste a received file: where it was dropped, if it is on the
/// clipboard, pasting is wanted and there is something to type with. `None` to
/// leave it on the clipboard.
pub fn paste_at<C>(
    on_clipboard: bool,
    paste_dropped: bool,
    drop_at: Option<(C, C)>,
    can_type: bool,
) -> (r: Option<(C, C)>)
    ensures
        r == (if on_clipboard && paste_dropped && can_type {
            drop_at
        } else {
            None
        }),
        r == pasted_at(on_clipboard, paste_dropped, drop_at, can_type),
{
    if on_clipboard && paste_dropped && can_type {
        drop_at
    } else {
        None
    }
}

/// The hand after typing what pastes.
pub open spec fn after_paste(h: Hand) -> Hand {
    after_key(
        after_key(after_key(after_key(h, "ControlLeft"@, true), "KeyV"@, true), "KeyV"@, false),
        "ControlLeft"@,
        false,
    )
}

/// Types what pastes: the V key while the left Ctrl key is held.
pub fn paste_keys<C>(inj: &mut Injector) -> (acts: Vec<Act<C>>)
    requires
        old(inj).wf(),
    ensures
        final(inj).wf(),
        final(inj)@ == after_paste(old(inj)@),
        acts@ == key_acts::<C>("ControlLeft"@, true) + key_acts("KeyV"@, true) + key_acts(
            "KeyV"@,
            false,
        ) + key_acts("ControlLeft"@, false),
{
    let mut acts: Vec<Act<C>> = inj.key("ControlLeft", true);
    let mut more: Vec<Act<C>> = inj.key("KeyV", true);
    acts.append(&mut more);
    let mut more: Vec<Act<C>> = inj.key("KeyV", false);
    acts.append(&mut more);
    let mut more: Vec<Act<C>> = inj.key("ControlLeft", false);
    acts.append(&mut more);
    acts
}

/// A peer that may only watch cannot get anything onto this machine's disk:
/// nothing is created, written or delivered.
pub proof fn law_view_only_peer_sends_nothing<C>(r: Receipt<C>, frame: Option<Bulk<C>>)
    ensures
        bulk_came(r, false, frame).0.incoming is None,
        forall|i: int|
            0 <= i < bulk_came(r, false, frame).1.len() ==> #[trigger] bulk_came(
                r,
                false,
                frame,
            ).1[i] == FileDeed::<C>::Close,
{
}

/// Whatever a peer sends, a file that is arriving never holds more than was
/// declared. When a transfer ends without being delivered its file is removed,
/// as long as the peer may control this machine; after that it is closed.
pub proof fn law_no_overrun_and_no_remains<C>(r: Receipt<C>, allowed: bool, frame: Option<Bulk<C>>)
    requires
        r.incoming is Some ==> r.incoming->0.written <= r.incoming->0.expected,
    ensures
        ({
            let (after, out) = bulk_came(r, allowed, frame);
            &&& after.incoming is Some ==> after.incoming->0.written <= after.incoming->0.expected
            &&& r.incoming is Some && after.incoming is None ==> out.contains(
                if allowed {
                    FileDeed::Discard
                } else {
                    FileDeed::Close
                },
            ) || out.len() == 1 && out[0] is Deliver
        }),
{
    let (after, out) = bulk_came(r, allowed, frame);
    if r.incoming is Some && after.incoming is None {
        if out.len() > 0 {
            assert(out.contains(out[0]));
        }
        if out.len() > 1 {
            assert(out.contains(out[1]));
        }
    }
}

/// Whether a name is one plain path component, and no device.
pub open spec fn is_harmless_name(name: Seq<char>) -> bool {
    is_safe_name(name) && !is_device(before_dot(name))
}

/// Whether every name in a transfer is harmless.
pub open spec fn well_named<C>(r: Receipt<C>) -> bool {
    &&& r.opening is Some ==> 1 <= r.opening->0.attempt <= LAST_ATTEMPT && is_harmless_name(
        r.opening->0.name,
    )
    &&& r.incoming is Some ==> is_harmless_name(r.incoming->0.name)
}

/// Whether every name that is created or delivered is harmless.
pub open spec fn names_harmless<C>(acts: Seq<FileDeed<C>>) -> bool {
    forall|i: int|
        0 <= i < acts.len() ==> match #[trigger] acts[i] {
            FileDeed::TryName(name) => is_harmless_name(name),
            FileDeed::Deliver(name, _) => is_harmless_name(name),
            _ => true,
        }
}

/// Whatever name a peer sends, and however many names are taken, only files
/// right in the receive folder are created or delivered, and no device is
/// opened.
pub proof fn law_files_stay_in_the_folder<C>(
    r: Receipt<C>,
    allowed: bool,
    frame: Option<Bulk<C>>,
    why: Seq<char>,
)
    requires
        well_named(r),
    ensures
        well_named(bulk_came(r, allowed, frame).0) && names_harmless(
            bulk_came(r, allowed, frame).1,
        ),
        well_named(name_was_taken(r).0) && names_harmless(name_was_taken(r).1),
        well_named(was_opened(r).0) && names_harmless(was_opened(r).1),
        well_named(was_not_opened(r, why).0) && names_harmless(was_not_opened(r, why).1),
        well_named(failed(r, why).0) && names_harmless(failed(r, why).1),
{
    if let Some(Bulk::Begin(meta)) = frame {
        if sanitized(meta.name@) is Some {
            law_sanitized_name_is_safe(meta.name@);
            law_sanitized_name_is_no_device(meta.name@);
        }
    }
    if let Some(w) = r.opening {
        law_candidates_are_safe(w.name, w.attempt);
        law_candidates_are_no_device(w.name, w.attempt);
        if w.attempt < LAST_ATTEMPT {
            law_candidates_are_safe(w.name, w.attempt + 1);
            law_candidates_are_no_device(w.name, w.attempt + 1);
        }
    }
}

/// Only a file of exactly the declared size is delivered, and under a name
/// that the search for a free one gave.
pub proof fn law_only_complete_files_are_delivered<C>(
    r: Receipt<C>,
    allowed: bool,
    frame: Option<Bulk<C>>,
    name: Seq<char>,
    drop_at: Option<(C, C)>,
)
    requires
        bulk_came(r, allowed, frame).1.contains(FileDeed::Deliver(name, drop_at)),
    ensures
        allowed,
        r.incoming is Some,
        r.incoming->0.name == name,
        r.incoming->0.written == r.incoming->0.expected,
{
}

/// A file that is announced and can be taken gets the name it was announced
/// with, made safe, and that name is what is created. If it is taken the next
/// one is tried; the file that is created last is the one that arrives, empty,
/// with the declared size and the place where it was dropped.
pub proof fn law_file_arrives_under_the_tried_name<C>(r: Receipt<C>, meta: FileMeta<C>, name: Seq<
    char,
>)
    requires
        sanitized(meta.name@) == Some(name),
        meta.size <= 0x8000_0000,
    ensures
        ({
            let (asked, out) = bulk_came(r, true, Some(Bulk::Begin(meta)));
            let (again, next) = name_was_taken(asked);
            let first = was_opened(asked).0;
            let second = was_opened(again).0;
            &&& out.last() == FileDeed::<C>::TryName(candidate(name, 1))
            &&& next == seq![FileDeed::<C>::TryName(candidate(name, 2))]
            &&& first.incoming == Some(
                Arriving { name: candidate(name, 1), written: 0, expected: meta.size },
            )
            &&& second.incoming == Some(
                Arriving { name: candidate(name, 2), written: 0, expected: meta.size },
            )
            &&& first.drop_at == meta.drop_at && second.drop_at == meta.drop_at
            &&& first.opening is None && asked.incoming is None
        }),
{
}

/// Trying goes on as long as names are taken, one number after the other, and
/// ends in a refusal after the ten thousandth: nothing is overwritten.
pub proof fn law_names_are_tried_one_after_the_other<C>(r: Receipt<C>)
    requires
        r.opening is Some,
    ensures
        ({
            let w = r.opening->0;
            let (after, out) = name_was_taken(r);
            if w.attempt < 10_000 {
                &&& out == seq![FileDeed::<C>::TryName(candidate(w.name, w.attempt + 1))]
                &&& after.opening == Some(Wanted { attempt: w.attempt + 1, ..w })
            } else {
                &&& after.opening is None
                &&& out.len() == 1 && out[0] is Toast
            }
        }),
{
}

/// What comes of a file is written as it comes: a chunk that fits is written,
/// all of it and nothing else, and is counted.
pub proof fn law_chunks_are_written_as_they_come<C>(r: Receipt<C>, data: Seq<u8>)
    requires
        r.incoming is Some,
        r.incoming->0.written + data.len() <= r.incoming->0.expected,
    ensures
        bulk_came(r, true, Some(Bulk::Chunk(data))).1 == seq![FileDeed::<C>::Write(data)],
        bulk_came(r, true, Some(Bulk::Chunk(data))).0 == (Receipt {
            incoming: Some(
                Arriving { written: r.incoming->0.written + data.len(), ..r.incoming->0 },
            ),
            ..r
        }),
{
}

/// A chunk too many ends the transfer: nothing of it is written, and the file
/// goes.
pub proof fn law_overlong_files_are_removed<C>(r: Receipt<C>, data: Seq<u8>)
    requires
        r.incoming is Some,
        r.incoming->0.written + data.len() > r.incoming->0.expected,
    ensures
        ({
            let (after, out) = bulk_came(r, true, Some(Bulk::Chunk(data)));
            &&& after.incoming is None
            &&& out.len() == 2 && out[0] is Toast && out[1] == FileDeed::<C>::Discard
        }),
{
}

/// The end of a complete file hands it to the user where it was dropped; the end
/// of any other removes it. A sender who calls off has it removed too, and a new
/// announcement removes what was arriving before.
pub proof fn law_transfers_end_as_they_should<C>(r: Receipt<C>, why: Seq<char>, meta: FileMeta<C>)
    requires
        r.incoming is Some,
    ensures
        r.incoming->0.written == r.incoming->0.expected ==> bulk_came(
            r,
            true,
            Some(Bulk::End),
        ).1 == seq![FileDeed::Deliver(r.incoming->0.name, r.drop_at)],
        r.incoming->0.written != r.incoming->0.expected ==> bulk_came(
            r,
            true,
            Some(Bulk::End),
        ).1[0] == FileDeed::<C>::Discard,
        bulk_came(r, true, Some(Bulk::Abort(why))).1[0] == FileDeed::<C>::Discard,
        bulk_came(r, true, Some(Bulk::Begin(meta))).1[0] == FileDeed::<C>::Discard,
        bulk_came(r, true, Some(Bulk::End)).0.incoming is None,
        bulk_came(r, true, Some(Bulk::Abort(why))).0.incoming is None,
        failed(r, why).1.last() == FileDeed::<C>::Discard && failed(r, why).0.incoming is None,
        bulk_came(r, true, None::<Bulk<C>>) == (r, Seq::<FileDeed<C>>::empty()),
{
}

/// Pasting leaves the hand as it was, but for the two keys it types: those are
/// up.
pub proof fn law_pasting_holds_nothing<C>(h: Hand)
    requires
        h.keys.no_duplicates(),
    ensures
        after_paste(h).buttons == h.buttons,
        after_paste(h).target == h.target,
        forall|k: ScanCode| #[trigger]
            after_paste(h).keys.contains(k) ==> h.keys.contains(k),
        !after_paste(h).keys.contains(ScanCode { sc: 0x1d, ext: false }),
        !after_paste(h).keys.contains(ScanCode { sc: 0x2f, ext: false }),
        key_acts::<C>("ControlLeft"@, true) == seq![
            Act::<C>::Key { key: ScanCode { sc: 0x1d, ext: false }, down: true },
        ],
        key_acts::<C>("KeyV"@, true) == seq![
            Act::<C>::Key { key: ScanCode { sc: 0x2f, ext: false }, down: true },
        ],
{
    law_middle_row_count_up(0);
    law_lower_row_count_up(5);
    let ctrl = ScanCode { sc: 0x1d, ext: false };
    let v = ScanCode { sc: 0x2f, ext: false };
    assert(scan_code("ControlLeft"@) == Some(ctrl));
    assert(scan_code("KeyV"@) == Some(v));
    let a = with(h.keys, ctrl);
    lemma_stays_unique(h.keys, ctrl);
    let b = with(a, v);
    lemma_stays_unique(a, v);
    let c = without(b, v);
    lemma_stays_unique(b, v);
    let d = without(c, ctrl);
    lemma_stays_unique(c, ctrl);
    assert(after_paste(h).keys == d);
    assert forall|k: ScanCode| #[trigger] after_paste(h).keys.contains(k) implies h.keys.contains(
        k,
    ) by {
        assert(d.contains(k));
        assert(c.contains(k) && k != ctrl);
        assert(b.contains(k) && k != v);
        assert(a.contains(k));
    }
    if d.contains(v) {
        assert(c.contains(v));
    }
}

/// Where a received file is pasted.
pub open spec fn pasted_at<C>(
    on_clipboard: bool,
    paste_dropped: bool,
    drop_at: Option<(C, C)>,
    can_type: bool,
) -> Option<(C, C)> {
    match drop_at {
        Some(at) if on_clipboard && paste_dropped && can_type => Some(at),
        _ => None,
    }
}

/// A file is pasted where it was dropped and nowhere else, and only if it is on
/// the clipboard, that is wanted, and it can be done.
pub proof fn law_files_are_pasted_where_dropped<C>(
    on_clipboard: bool,
    paste_dropped: bool,
    at: (C, C),
    can_type: bool,
)
    ensures
        pasted_at(on_clipboard, paste_dropped, Some(at), can_type) == (if on_clipboard
            && paste_dropped && can_type {
            Some(at)
        } else {
            None
        }),
        pasted_at(on_clipboard, paste_dropped, None::<(C, C)>, can_type) is None,
{
}

/// What is to be done is seen with everything in it, and in its order.
pub proof fn law_deeds_are_seen_as_they_are<C>(a: FileAct<C>, v: Seq<FileAct<C>>)
    ensures
        match a {
            FileAct::TryName(name) => a@ == FileDeed::<C>::TryName(name@),
            FileAct::Write(bytes) => a@ == FileDeed::<C>::Write(bytes@),
            FileAct::Discard => a@ is Discard,
            FileAct::Close => a@ is Close,
            FileAct::Deliver { name, drop_at } => a@ == FileDeed::Deliver(name@, drop_at),
            FileAct::Toast(text) => a@ == FileDeed::<C>::Toast(text@),
        },
        file_deeds(v.push(a)) == file_deeds(v).push(a@),
        file_deeds(Seq::<FileAct<C>>::empty()).len() == 0,
{
    assert(file_deeds(v.push(a)) =~= file_deeds(v).push(a@));
}

/// The user is told what becomes of a file: that it is refused and why, that it
/// comes and under which name the sender knows it, that it failed and why, and
/// that the sender called it off.
pub proof fn law_users_are_told_of_files<C>(
    r: Receipt<C>,
    meta: FileMeta<C>,
    data: Seq<u8>,
    why: Seq<char>,
)
    ensures
        refusal(meta.name@, meta.size) is Some ==> bulk_came(
            r,
            true,
            Some(Bulk::Begin(meta)),
        ).1.last() == FileDeed::<C>::Toast(
            "Refused file: "@ + fault_text(refusal(meta.name@, meta.size)->0),
        ),
        r.opening is Some ==> {
            &&& was_opened(r).1 == seq![
                FileDeed::<C>::Toast("Receiving "@ + r.opening->0.raw + "…"@),
            ]
            &&& was_not_opened(r, why).1 == seq![FileDeed::<C>::Toast("Refused file: "@ + why)]
            &&& was_not_opened(r, why).0 == (Receipt { opening: None, ..r })
            &&& r.opening->0.attempt >= 10_000 ==> name_was_taken(r).1 == seq![
                FileDeed::<C>::Toast("Refused file: "@ + "no free file name"@),
            ]
        },
        r.incoming is Some ==> {
            &&& failed(r, why).1 == seq![
                FileDeed::<C>::Toast("Transfer failed: "@ + why),
                FileDeed::Discard,
            ]
            &&& r.incoming->0.written + data.len() > r.incoming->0.expected ==> bulk_came(
                r,
                true,
                Some(Bulk::Chunk(data)),
            ).1[0] == FileDeed::<C>::Toast(
                "Transfer failed: "@ + "sender exceeded the size it declared"@,
            )
            &&& r.incoming->0.written != r.incoming->0.expected ==> bulk_came(
                r,
                true,
                Some(Bulk::End),
            ).1.last() == FileDeed::<C>::Toast(
                "Transfer failed: "@ + ("incomplete transfer of "@ + r.incoming->0.name),
            )
        },
        bulk_came(r, true, Some(Bulk::Abort(why))).1.last() == FileDeed::<C>::Toast(
            "Transfer cancelled by sender"@,
        ),
{
}

/// The user is told of a file that has come: that it was pasted, or where it is.
pub proof fn law_users_are_told_where_it_is(name: Seq<char>)
    ensures
        delivered_text(name, true) == "Pasted "@ + name,
        delivered_text(name, false) == name
            + " is on the clipboard (also saved to Downloads\\ShareCtrlScreen)"@,
{
}

/// Without a file that is arriving or for which a name is sought, nothing that
/// is said of one has any effect.
pub proof fn law_nothing_comes_of_nothing<C>(r: Receipt<C>, data: Seq<u8>, why: Seq<char>)
    ensures
        r.incoming is None ==> {
            &&& bulk_came(r, true, Some(Bulk::Chunk(data))) == (r, Seq::<FileDeed<C>>::empty())
            &&& bulk_came(r, true, Some(Bulk::End)) == (r, Seq::<FileDeed<C>>::empty())
            &&& failed(r, why) == (r, Seq::<FileDeed<C>>::empty())
            &&& bulk_came(r, true, Some(Bulk::Abort(why))).1.len() == 1
        },
        r.opening is None ==> {
            &&& name_was_taken(r) == (r, Seq::<FileDeed<C>>::empty())
            &&& was_opened(r) == (r, Seq::<FileDeed<C>>::empty())
            &&& was_not_opened(r, why) == (r, Seq::<FileDeed<C>>::empty())
        },
{
}

/// A sender that may not act here any more is not listened to, whatever it
/// sends: what was arriving is closed as it is.
pub proof fn law_forbidden_senders_are_not_heard<C>(r: Receipt<C>, frame: Option<Bulk<C>>)
    ensures
        bulk_came(r, false, frame).0 == (Receipt { opening: None, incoming: None, ..r }),
        r.incoming is Some ==> bulk_came(r, false, frame).1 == seq![FileDeed::<C>::Close],
        r.incoming is None ==> bulk_came(r, false, frame).1.len() == 0,
{
}

} // verus!
