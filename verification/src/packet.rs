//! Fragmentation of encoded access units into datagrams, and their
//! reassembly.
//!
//! The unreliable channel does not fragment, so each access unit is cut into
//! chunks that fit a datagram, and the receiver puts them together again. An
//! access unit whose fragments do not all arrive is dropped as soon as a newer
//! one completes: a lost frame never stalls the picture.

use std::collections::HashMap;

use vstd::prelude::*;

use crate::bytes::{
    append_bytes, copy_range, le16, le16_at, le32, le32_at, lemma_le16_reads_back,
    lemma_le32_reads_back, push_le16, push_le32, read_le16, read_le32,
};

verus! {

/// The largest application payload of one datagram.
pub const MAX_PAYLOAD: usize = 1100;

/// The bytes in front of a fragment's payload.
pub const HEADER_LEN: usize = 10;

/// The flag bit of a keyframe.
pub const FLAG_KEYFRAME: u8 = 1;

/// One wire fragment, all numbers least significant byte first: frame id (4),
/// fragment index (2), fragment count (2), flags (1), reserved (1), payload.
#[derive(Debug, Clone)]
pub struct Fragment(pub Vec<u8>);

/// A completely reassembled access unit.
#[derive(Debug, Clone)]
pub struct ReassembledFrame {
    pub frame_id: u32,
    pub keyframe: bool,
    pub data: Vec<u8>,
}

/// What a reassembled access unit is, with its data as a sequence.
pub struct Frame {
    pub frame_id: u32,
    pub keyframe: bool,
    pub data: Seq<u8>,
}

impl View for ReassembledFrame {
    type V = Frame;

    open spec fn view(&self) -> Frame {
        Frame { frame_id: self.frame_id, keyframe: self.keyframe, data: self.data@ }
    }
}

/// How many fragments an access unit of `len` bytes takes.
pub open spec fn fragment_count(len: int) -> int {
    (len + MAX_PAYLOAD - 1) / MAX_PAYLOAD as int
}

/// The bytes of an access unit that its fragment `i` carries.
pub open spec fn chunk(au: Seq<u8>, i: int) -> Seq<u8> {
    let end = (i + 1) * MAX_PAYLOAD;
    au.subrange(
        i * MAX_PAYLOAD,
        if end < au.len() {
            end
        } else {
            au.len() as int
        },
    )
}

/// A fragment on the wire.
pub open spec fn wire_fragment(
    frame_id: u32,
    idx: u16,
    count: u16,
    keyframe: bool,
    payload: Seq<u8>,
) -> Seq<u8> {
    le32(frame_id) + le16(idx) + le16(count) + seq![
        if keyframe {
            FLAG_KEYFRAME
        } else {
            0u8
        },
        0u8,
    ] + payload
}

/// Fragment `i` of an access unit, as `fragment` writes it. Index and count
/// are written modulo 65536.
pub open spec fn fragment_of(frame_id: u32, keyframe: bool, au: Seq<u8>, i: int) -> Seq<u8> {
    wire_fragment(
        frame_id,
        (i % 65536) as u16,
        (fragment_count(au.len() as int) % 65536) as u16,
        keyframe,
        chunk(au, i),
    )
}

/// Splits an access unit into ordered fragments tagged with `frame_id`.
pub fn fragment(frame_id: u32, keyframe: bool, au: &[u8]) -> (out: Vec<Fragment>)
    ensures
        out@.len() == fragment_count(au@.len() as int),
        forall|i: int|
            0 <= i < out@.len() ==> (#[trigger] out@[i]).0@ == fragment_of(
                frame_id,
                keyframe,
                au@,
                i,
            ),
{
    let mut out: Vec<Fragment> = Vec::new();
    let n: usize = au.len();
    let mut total: usize = n / MAX_PAYLOAD;
    if n % MAX_PAYLOAD != 0 {
        total += 1;
    }
    let count: u16 = (total % 65536) as u16;
    let flags: u8 = if keyframe {
        FLAG_KEYFRAME
    } else {
        0
    };
    let mut i: usize = 0;
    let mut at: usize = 0;
    while i < total
        invariant
            n == au@.len(),
            i <= total == fragment_count(n as int),
            count == (total % 65536) as u16,
            flags == (if keyframe {
                FLAG_KEYFRAME
            } else {
                0u8
            }),
            at <= n,
            i < total ==> at == i * MAX_PAYLOAD,
            i < total ==> at < n,
            out@.len() == i,
            forall|k: int|
                0 <= k < i ==> (#[trigger] out@[k]).0@ == fragment_of(
                    frame_id,
                    keyframe,
                    au@,
                    k,
                ),
        decreases total - i,
    {
        let end: usize = if n - at > MAX_PAYLOAD {
            at + MAX_PAYLOAD
        } else {
            n
        };
        let payload: Vec<u8> = copy_range(au, at, end);
        let mut buf: Vec<u8> = Vec::with_capacity(HEADER_LEN);
        push_le32(&mut buf, frame_id);
        push_le16(&mut buf, (i % 65536) as u16);
        push_le16(&mut buf, count);
        buf.push(flags);
        buf.push(0);
        append_bytes(&mut buf, payload.as_slice());
        assert(payload@ == chunk(au@, i as int));
        assert(buf@ =~= fragment_of(frame_id, keyframe, au@, i as int));
        out.push(Fragment(buf));
        i += 1;
        at = end;
    }
    out
}

/// What is known of a frame that is not complete yet.
pub ghost struct Pending {
    pub keyframe: bool,
    /// One entry per fragment, `None` where it has not arrived.
    pub parts: Seq<Option<Seq<u8>>>,
}

/// What a reassembler has received.
pub ghost struct Assembly {
    /// The incomplete frames by id.
    pub pending: Map<u32, Pending>,
    /// The newest completed frame.
    pub newest_done: Option<u32>,
}

/// How far `id` lies ahead of `base` on the circle of 32-bit frame ids.
pub open spec fn ahead(id: u32, base: u32) -> int {
    if id >= base {
        id - base
    } else {
        id - base + 0x1_0000_0000
    }
}

/// Half of the largest frame id.
pub const HALF_RING: u32 = 0x7fff_ffff;

/// Whether a fragment's header makes sense: a whole header, a count that is
/// not zero and an index below it.
pub open spec fn well_formed(frag: Seq<u8>) -> bool {
    &&& frag.len() >= HEADER_LEN
    &&& le16_at(frag, 4) < le16_at(frag, 6)
}

/// Whether `id` belongs to a frame that a completed one has superseded.
pub open spec fn superseded(st: Assembly, id: u32) -> bool {
    st.newest_done is Some && ahead(id, st.newest_done->0) > HALF_RING
}

/// Whether a fragment is taken in: well formed and not superseded.
pub open spec fn taken(st: Assembly, frag: Seq<u8>) -> bool {
    well_formed(frag) && !superseded(st, le32_at(frag, 0))
}

/// Whether the fragment's index lies within the frame as its first fragment
/// announced it.
pub open spec fn agrees(st: Assembly, frag: Seq<u8>) -> bool {
    let id = le32_at(frag, 0);
    taken(st, frag) && st.pending.contains_key(id) ==> le16_at(frag, 4)
        < st.pending[id].parts.len()
}

/// The frame that a fragment adds to, as it stands before.
pub open spec fn pending_for(st: Assembly, frag: Seq<u8>) -> Pending {
    let id = le32_at(frag, 0);
    if st.pending.contains_key(id) {
        st.pending[id]
    } else {
        Pending {
            keyframe: frag[8] % 2 == 1,
            parts: Seq::new(le16_at(frag, 6) as nat, |i: int| None),
        }
    }
}

/// A frame with one more fragment; what has arrived before stays.
pub open spec fn with_part(p: Pending, idx: int, payload: Seq<u8>) -> Pending {
    if p.parts[idx] is None {
        Pending { parts: p.parts.update(idx, Some(payload)), ..p }
    } else {
        p
    }
}

/// Whether every fragment has arrived.
pub open spec fn complete(parts: Seq<Option<Seq<u8>>>) -> bool {
    forall|i: int| 0 <= i < parts.len() ==> (#[trigger] parts[i]) is Some
}

/// The payloads one after the other.
pub open spec fn joined(parts: Seq<Option<Seq<u8>>>) -> Seq<u8>
    decreases parts.len(),
{
    if parts.len() == 0 {
        seq![]
    } else {
        joined(parts.drop_last()) + parts.last()->0
    }
}

/// The newest completed frame once `id` has completed too.
pub open spec fn newest(done: Option<u32>, id: u32) -> Option<u32> {
    if done is None || ahead(id, done->0) < HALF_RING {
        Some(id)
    } else {
        done
    }
}

/// The incomplete frames that are still worth waiting for once `id` is
/// complete: the newer ones.
pub open spec fn still_wanted(pending: Map<u32, Pending>, id: u32) -> Map<u32, Pending> {
    Map::new(
        |k: u32| pending.contains_key(k) && k != id && ahead(k, id) < HALF_RING,
        |k: u32| pending[k],
    )
}

/// What a received fragment makes of the assembly, and the frame that it
/// completes.
pub open spec fn received(st: Assembly, frag: Seq<u8>) -> (Assembly, Option<Frame>) {
    let id = le32_at(frag, 0);
    let p = with_part(
        pending_for(st, frag),
        le16_at(frag, 4) as int,
        frag.skip(HEADER_LEN as int),
    );
    if !taken(st, frag) {
        (st, None)
    } else if complete(p.parts) {
        (
            Assembly {
                pending: still_wanted(st.pending, id),
                newest_done: newest(st.newest_done, id),
            },
            Some(Frame { frame_id: id, keyframe: p.keyframe, data: joined(p.parts) }),
        )
    } else {
        (Assembly { pending: st.pending.insert(id, p), ..st }, None)
    }
}

/// How many fragments have arrived.
spec fn arrived(parts: Seq<Option<Seq<u8>>>) -> nat
    decreases parts.len(),
{
    if parts.len() == 0 {
        0
    } else {
        arrived(parts.drop_last()) + if parts.last() is Some {
            1nat
        } else {
            0nat
        }
    }
}

proof fn lemma_arrived_bound(parts: Seq<Option<Seq<u8>>>)
    ensures
        arrived(parts) <= parts.len(),
        arrived(parts) == parts.len() <==> complete(parts),
    decreases parts.len(),
{
    if parts.len() > 0 {
        let rest = parts.drop_last();
        lemma_arrived_bound(rest);
        if complete(rest) && parts.last() is Some {
            assert forall|i: int| 0 <= i < parts.len() implies (#[trigger] parts[i]) is Some by {
                if i < rest.len() {
                    assert(rest[i] is Some);
                }
            }
        }
        if complete(parts) {
            assert forall|i: int| 0 <= i < rest.len() implies (#[trigger] rest[i]) is Some by {
                assert(parts[i] is Some);
            }
        }
    }
}

proof fn lemma_arrived_update(parts: Seq<Option<Seq<u8>>>, idx: int, payload: Seq<u8>)
    requires
        0 <= idx < parts.len(),
        parts[idx] is None,
    ensures
        arrived(parts.update(idx, Some(payload))) == arrived(parts) + 1,
    decreases parts.len(),
{
    let after = parts.update(idx, Some(payload));
    if idx == parts.len() - 1 {
        assert(after.drop_last() =~= parts.drop_last());
    } else {
        assert(after.drop_last() =~= parts.drop_last().update(idx, Some(payload)));
        lemma_arrived_update(parts.drop_last(), idx, payload);
    }
}

proof fn lemma_arrived_none(n: nat)
    ensures
        arrived(Seq::new(n, |i: int| None)) == 0,
    decreases n,
{
    if n > 0 {
        let s: Seq<Option<Seq<u8>>> = Seq::new(n, |i: int| None);
        assert(s.drop_last() =~= Seq::new((n - 1) as nat, |i: int| None));
        lemma_arrived_none((n - 1) as nat);
    }
}

struct Partial {
    keyframe: bool,
    parts: Vec<Option<Vec<u8>>>,
    have: usize,
}

/// The sequence that an optional byte vector stands for.
spec fn part_view(p: Option<Vec<u8>>) -> Option<Seq<u8>> {
    match p {
        Some(v) => Some(v@),
        None => None,
    }
}

spec fn parts_view(parts: Seq<Option<Vec<u8>>>) -> Seq<Option<Seq<u8>>> {
    Seq::new(parts.len(), |i: int| part_view(parts[i]))
}

impl Partial {
    spec fn pending(self) -> Pending {
        Pending { keyframe: self.keyframe, parts: parts_view(self.parts@) }
    }

    spec fn counts(self) -> bool {
        self.have == arrived(self.pending().parts)
    }

    /// The payloads one after the other.
    fn joined(&self) -> (data: Vec<u8>)
        requires
            complete(self.pending().parts),
        ensures
            data@ == joined(self.pending().parts),
    {
        let mut data: Vec<u8> = Vec::new();
        let n: usize = self.parts.len();
        let ghost parts = self.pending().parts;
        let mut i: usize = 0;
        while i < n
            invariant
                i <= n == self.parts@.len(),
                parts == self.pending().parts,
                complete(parts),
                data@ == joined(parts.take(i as int)),
            decreases n - i,
        {
            assert(parts[i as int] is Some);
            if let Some(p) = &self.parts[i] {
                append_bytes(&mut data, p.as_slice());
            }
            i += 1;
            assert(parts.take(i as int).drop_last() =~= parts.take(i - 1));
        }
        assert(parts.take(n as int) =~= parts);
        data
    }
}

/// Reassembles fragments into frames, discarding stale incomplete frames.
pub struct Reassembler {
    partials: HashMap<u32, Partial>,
    /// The newest completed frame id, to drop late fragments of old frames.
    newest_done: u32,
    have_done: bool,
}

impl View for Reassembler {
    type V = Assembly;

    closed spec fn view(&self) -> Assembly {
        Assembly {
            pending: Map::new(
                |k: u32| self.partials@.contains_key(k),
                |k: u32| self.partials@[k].pending(),
            ),
            newest_done: if self.have_done {
                Some(self.newest_done)
            } else {
                None
            },
        }
    }
}

impl Default for Reassembler {
    fn default() -> (r: Self)
        ensures
            r.wf(),
            r@ == (Assembly { pending: Map::empty(), newest_done: None }),
    {
        Reassembler::new()
    }
}

impl Reassembler {
    /// Each incomplete frame counts what has arrived of it, and is indeed
    /// incomplete.
    pub closed spec fn wf(&self) -> bool {
        forall|k: u32| #[trigger]
            self.partials@.contains_key(k) ==> self.partials@[k].counts() && !complete(
                self.partials@[k].pending().parts,
            )
    }

    /// A reassembler that has received nothing.
    pub fn new() -> (r: Self)
        ensures
            r.wf(),
            r@ == (Assembly { pending: Map::empty(), newest_done: None }),
    {
        broadcast use vstd::std_specs::hash::group_hash_axioms;

        let r = Reassembler { partials: HashMap::new(), newest_done: 0, have_done: false };
        assert(r@.pending =~= Map::empty());
        r
    }

    /// How many frames are incomplete.
    pub fn pending_frames(&self) -> (n: usize)
        ensures
            n == self@.pending.dom().len(),
    {
        broadcast use vstd::std_specs::hash::group_hash_axioms;

        assert(self@.pending.dom() =~= self.partials@.dom());
        self.partials.len()
    }

    /// Whether a fragment can be fed: its index lies within the frame as its
    /// first fragment announced it.
    pub fn agrees(&self, frag: &[u8]) -> (yes: bool)
        ensures
            yes == agrees(self@, frag@),
    {
        broadcast use vstd::std_specs::hash::group_hash_axioms;

        if frag.len() < HEADER_LEN {
            return true;
        }
        let frame_id: u32 = read_le32(frag, 0);
        let idx: u16 = read_le16(frag, 4);
        let count: u16 = read_le16(frag, 6);
        if idx >= count || (self.have_done && frame_id.wrapping_sub(self.newest_done) > HALF_RING) {
            return true;
        }
        match self.partials.get(&frame_id) {
            Some(p) => (idx as usize) < p.parts.len(),
            None => true,
        }
    }

    /// Feeds one received fragment. Returns a frame once all its parts have
    /// arrived.
    pub fn push(&mut self, frag: &[u8]) -> (r: Option<ReassembledFrame>)
        requires
            old(self).wf(),
            agrees(old(self)@, frag@),
        ensures
            final(self).wf(),
            final(self)@ == received(old(self)@, frag@).0,
            r is Some <==> received(old(self)@, frag@).1 is Some,
            r is Some ==> r->0@ == received(old(self)@, frag@).1->0,
    {
        broadcast use vstd::std_specs::hash::group_hash_axioms;

        if frag.len() < HEADER_LEN {
            return None;
        }
        let frame_id: u32 = read_le32(frag, 0);
        let idx: u16 = read_le16(frag, 4);
        let count: u16 = read_le16(frag, 6);
        let keyframe: bool = frag[8] % 2 == 1;
        if count == 0 || idx >= count {
            return None;
        }
        if self.have_done && frame_id.wrapping_sub(self.newest_done) > HALF_RING {
            return None;
        }
        let ghost st = old(self)@;
        let ghost before = pending_for(st, frag@);
        let mut entry: Partial = match self.partials.remove(&frame_id) {
            Some(p) => p,
            None => {
                let mut parts: Vec<Option<Vec<u8>>> = Vec::new();
                let mut i: u16 = 0;
                while i < count
                    invariant
                        i <= count,
                        parts@ =~= Seq::new(i as nat, |i: int| None),
                    decreases count - i,
                {
                    parts.push(None);
                    i += 1;
                }
                assert(parts_view(parts@) =~= Seq::new(count as nat, |i: int| None));
                proof {
                    lemma_arrived_none(count as nat);
                }
                Partial { keyframe, parts, have: 0 }
            },
        };
        assert(entry.pending().parts =~= before.parts);
        assert(entry.pending() == before);
        assert(entry.counts());
        let ghost payload = frag@.skip(HEADER_LEN as int);
        let at: usize = idx as usize;
        let total: usize = entry.parts.len();
        proof {
            lemma_arrived_bound(before.parts);
        }
        if entry.parts[at].is_none() {
            assert(before.parts[at as int] is None);
            let bytes: Vec<u8> = copy_range(frag, HEADER_LEN, frag.len());
            assert(bytes@ =~= payload);
            proof {
                lemma_arrived_update(before.parts, at as int, payload);
                lemma_arrived_bound(before.parts.update(at as int, Some(payload)));
            }
            entry.parts.set(at, Some(bytes));
            entry.have = entry.have + 1;
            assert(entry.pending().parts =~= before.parts.update(at as int, Some(payload)));
        } else {
            assert(before.parts[at as int] is Some);
        }
        let ghost after = with_part(before, at as int, payload);
        assert(entry.pending() == after);
        proof {
            lemma_arrived_bound(after.parts);
        }
        if entry.have == total {
            let data: Vec<u8> = entry.joined();
            self.mark_done(frame_id);
            self.drop_stale(frame_id);
            assert(self@.pending =~= still_wanted(st.pending, frame_id));
            return Some(ReassembledFrame { frame_id, keyframe: entry.keyframe, data });
        }
        self.partials.insert(frame_id, entry);
        assert(self@.pending =~= st.pending.insert(frame_id, after));
        None
    }

    /// Records that a frame has completed.
    fn mark_done(&mut self, frame_id: u32)
        ensures
            final(self).partials == old(self).partials,
            final(self)@.newest_done == newest(old(self)@.newest_done, frame_id),
    {
        if !self.have_done || frame_id.wrapping_sub(self.newest_done) < HALF_RING {
            self.newest_done = frame_id;
            self.have_done = true;
        }
    }

    /// Forgets the incomplete frames that `frame_id` supersedes.
    fn drop_stale(&mut self, frame_id: u32)
        ensures
            final(self).newest_done == old(self).newest_done,
            final(self).have_done == old(self).have_done,
            final(self).partials@ == Map::new(
                |k: u32|
                    old(self).partials@.contains_key(k) && ahead(k, frame_id) < HALF_RING,
                |k: u32| old(self).partials@[k],
            ),
    {
        broadcast use vstd::std_specs::hash::group_hash_axioms;

        let mut stale: Vec<u32> = Vec::new();
        for k in it: self.partials.keys()
            invariant
                forall|i: int|
                    0 <= i < it.index() && ahead(*#[trigger] it.seq()[i], frame_id) >= HALF_RING
                        ==> stale@.contains(*it.seq()[i]),
                forall|i: int|
                    0 <= i < stale@.len() ==> ahead(#[trigger] stale@[i], frame_id) >= HALF_RING,
        {
            if k.wrapping_sub(frame_id) >= HALF_RING {
                let ghost was = stale@;
                stale.push(*k);
                assert(stale@.last() == *k);
                assert forall|x: u32| was.contains(x) implies stale@.contains(x) by {
                    let i = was.index_of(x);
                    assert(stale@[i] == x);
                }
            }
        }
        assert(forall|k: u32|
            self.partials@.contains_key(k) && ahead(k, frame_id) >= HALF_RING
                ==> stale@.contains(k));
        let n: usize = stale.len();
        let mut i: usize = 0;
        while i < n
            invariant
                i <= n == stale@.len(),
                self.newest_done == old(self).newest_done,
                self.have_done == old(self).have_done,
                forall|j: int|
                    0 <= j < stale@.len() ==> ahead(#[trigger] stale@[j], frame_id) >= HALF_RING,
                self.partials@ == old(self).partials@.remove_keys(
                    Set::new(|k: u32| stale@.take(i as int).contains(k)),
                ),
            decreases n - i,
        {
            self.partials.remove(&stale[i]);
            i += 1;
            let ghost gone = stale@.take(i - 1);
            assert(stale@.take(i as int) =~= gone.push(stale@[i - 1]));
            assert forall|k: u32| #[trigger]
                stale@.take(i as int).contains(k) <==> gone.contains(k) || k == stale@[i - 1] by {
                if gone.contains(k) {
                    assert(gone.push(stale@[i - 1])[gone.index_of(k)] == k);
                }
                assert(gone.push(stale@[i - 1])[i - 1] == stale@[i - 1]);
            }
            assert(self.partials@ =~= old(self).partials@.remove_keys(
                Set::new(|k: u32| stale@.take(i as int).contains(k)),
            ));
        }
        assert(stale@.take(n as int) =~= stale@);
        assert(self.partials@ =~= Map::new(
            |k: u32| old(self).partials@.contains_key(k) && ahead(k, frame_id) < HALF_RING,
            |k: u32| old(self).partials@[k],
        ));
    }
}

/// What an assembly and a list of fragments, fed in order, come to: the
/// assembly afterwards and the frames that were handed out on the way.
pub open spec fn all_received(st: Assembly, frags: Seq<Seq<u8>>) -> (Assembly, Seq<Frame>)
    decreases frags.len(),
{
    if frags.len() == 0 {
        (st, seq![])
    } else {
        let (before, out) = all_received(st, frags.drop_last());
        let (after, frame) = received(before, frags.last());
        (
            after,
            match frame {
                Some(f) => out.push(f),
                None => out,
            },
        )
    }
}

/// What the header of a fragment says.
spec fn says(frag: Seq<u8>, id: u32, idx: int, count: int, keyframe: bool, payload: Seq<u8>) -> bool {
    &&& frag.len() >= HEADER_LEN
    &&& le32_at(frag, 0) == id
    &&& le16_at(frag, 4) == idx
    &&& le16_at(frag, 6) == count
    &&& (frag[8] % 2 == 1) == keyframe
    &&& frag.skip(HEADER_LEN as int) == payload
}

/// A fragment's header reads back as it was written.
#[verifier::rlimit(50)]
proof fn lemma_header_reads_back(id: u32, idx: u16, count: u16, keyframe: bool, payload: Seq<u8>)
    ensures
        says(
            wire_fragment(id, idx, count, keyframe, payload),
            id,
            idx as int,
            count as int,
            keyframe,
            payload,
        ),
{
    let w = wire_fragment(id, idx, count, keyframe, payload);
    assert(w.len() == HEADER_LEN + payload.len());
    assert(w.subrange(0, 4) =~= le32(id));
    assert(w.subrange(4, 6) =~= le16(idx));
    assert(w.subrange(6, 8) =~= le16(count));
    lemma_le32_reads_back(w, 0, id);
    lemma_le16_reads_back(w, 4, idx);
    lemma_le16_reads_back(w, 6, count);
    assert(w.skip(HEADER_LEN as int) =~= payload);
}

/// The first `n` chunks of an access unit, one after the other.
proof fn lemma_chunks_join(au: Seq<u8>, parts: Seq<Option<Seq<u8>>>)
    requires
        parts.len() <= fragment_count(au.len() as int),
        forall|i: int| 0 <= i < parts.len() ==> #[trigger] parts[i] == Some(chunk(au, i)),
    ensures
        joined(parts) == au.take(
            if parts.len() * MAX_PAYLOAD < au.len() {
                parts.len() * MAX_PAYLOAD
            } else {
                au.len() as int
            },
        ),
    decreases parts.len(),
{
    if parts.len() == 0 {
        assert(au.take(0) =~= seq![]);
    } else {
        let rest = parts.drop_last();
        assert forall|i: int| 0 <= i < rest.len() implies #[trigger] rest[i] == Some(
            chunk(au, i),
        ) by {
            assert(rest[i] == parts[i]);
        }
        lemma_chunks_join(au, rest);
        let n = parts.len() as int;
        assert(parts[n - 1] == Some(chunk(au, n - 1)));
        assert(joined(parts) =~= au.take(
            if n * MAX_PAYLOAD < au.len() {
                n * MAX_PAYLOAD
            } else {
                au.len() as int
            },
        ));
    }
}

/// The frame after some of its fragments have arrived.
spec fn partly(
    st: Assembly,
    id: u32,
    keyframe: bool,
    au: Seq<u8>,
    order: Seq<int>,
) -> Assembly {
    if order.len() == 0 {
        st
    } else {
        Assembly {
            pending: st.pending.insert(id, Pending { keyframe, parts: parts_of(au, order) }),
            ..st
        }
    }
}

spec fn sent(id: u32, keyframe: bool, au: Seq<u8>, order: Seq<int>) -> Seq<Seq<u8>> {
    order.map_values(|i: int| fragment_of(id, keyframe, au, i))
}

/// The parts of an access unit that have arrived.
spec fn parts_of(au: Seq<u8>, order: Seq<int>) -> Seq<Option<Seq<u8>>> {
    Seq::new(
        fragment_count(au.len() as int) as nat,
        |i: int|
            if order.contains(i) {
                Some(chunk(au, i))
            } else {
                None
            },
    )
}

proof fn lemma_parts_grow(au: Seq<u8>, order: Seq<int>, next: int)
    requires
        0 <= next < fragment_count(au.len() as int),
    ensures
        parts_of(au, order.push(next)) == (if parts_of(au, order)[next] is None {
            parts_of(au, order).update(next, Some(chunk(au, next)))
        } else {
            parts_of(au, order)
        }),
{
    let before = parts_of(au, order);
    let after = parts_of(au, order.push(next));
    assert forall|i: int| #[trigger]
        order.push(next).contains(i) <==> order.contains(i) || i == next by {
        if order.contains(i) {
            assert(order.push(next)[order.index_of(i)] == i);
        }
        assert(order.push(next)[order.len() as int] == next);
    }
    if before[next] is None {
        assert(after =~= before.update(next, Some(chunk(au, next))));
    } else {
        assert(after =~= before);
    }
}

#[verifier::rlimit(50)]
proof fn lemma_one_more(
    st: Assembly,
    id: u32,
    keyframe: bool,
    au: Seq<u8>,
    order: Seq<int>,
    next: int,
    frag: Seq<u8>,
)
    requires
        fragment_count(au.len() as int) <= u16::MAX,
        !st.pending.contains_key(id),
        !superseded(st, id),
        0 <= next < fragment_count(au.len() as int),
        says(frag, id, next, fragment_count(au.len() as int), keyframe, chunk(au, next)),
    ensures
        ({
            let mid = partly(st, id, keyframe, au, order);
            let p = with_part(
                pending_for(mid, frag),
                le16_at(frag, 4) as int,
                frag.skip(HEADER_LEN as int),
            );
            &&& taken(mid, frag)
            &&& agrees(mid, frag)
            &&& le32_at(frag, 0) == id
            &&& p == (Pending { keyframe, parts: parts_of(au, order.push(next)) })
        }),
{
    let mid = partly(st, id, keyframe, au, order);
    let before = pending_for(mid, frag);
    if order.len() == 0 {
        assert(before.parts =~= parts_of(au, order));
    } else {
        assert(mid.pending[id] == (Pending { keyframe, parts: parts_of(au, order) }));
    }
    assert(before == (Pending { keyframe, parts: parts_of(au, order) }));
    lemma_parts_grow(au, order, next);
}

#[verifier::rlimit(50)]
proof fn lemma_fragment_says(id: u32, keyframe: bool, au: Seq<u8>, next: int)
    requires
        fragment_count(au.len() as int) <= u16::MAX,
        0 <= next < fragment_count(au.len() as int),
    ensures
        says(
            fragment_of(id, keyframe, au, next),
            id,
            next,
            fragment_count(au.len() as int),
            keyframe,
            chunk(au, next),
        ),
{
    let n = fragment_count(au.len() as int);
    lemma_small_index(next, n);
    let payload = chunk(au, next);
    lemma_header_reads_back(id, (next % 65536) as u16, (n % 65536) as u16, keyframe, payload);
}

proof fn lemma_small_index(i: int, n: int)
    requires
        0 <= i < n <= u16::MAX,
    ensures
        (i % 65536) as u16 == i,
        (n % 65536) as u16 == n,
{
}

#[verifier::rlimit(50)]
proof fn lemma_prefix_received(
    st: Assembly,
    id: u32,
    keyframe: bool,
    au: Seq<u8>,
    order: Seq<int>,
    missing: int,
)
    requires
        0 < au.len(),
        fragment_count(au.len() as int) <= u16::MAX,
        !st.pending.contains_key(id),
        !superseded(st, id),
        forall|k: int|
            0 <= k < order.len() ==> 0 <= #[trigger] order[k] < fragment_count(au.len() as int),
        0 <= missing < fragment_count(au.len() as int),
        !order.contains(missing),
    ensures
        all_received(st, sent(id, keyframe, au, order)) == (
            partly(st, id, keyframe, au, order),
            Seq::<Frame>::empty(),
        ),
    decreases order.len(),
{
    if order.len() > 0 {
        let rest = order.drop_last();
        let next = order.last();
        assert forall|i: int| rest.contains(i) implies order.contains(i) by {
            assert(order[rest.index_of(i)] == i);
        }
        lemma_prefix_received(st, id, keyframe, au, rest, missing);
        lemma_fragment_says(id, keyframe, au, next);
        lemma_one_more(
            st,
            id,
            keyframe,
            au,
            rest,
            next,
            fragment_of(id, keyframe, au, next),
        );
        let frags = sent(id, keyframe, au, order);
        assert(frags.drop_last() =~= sent(id, keyframe, au, rest));
        assert(rest.push(next) =~= order);
        let mid = partly(st, id, keyframe, au, rest);
        let frag = fragment_of(id, keyframe, au, next);
        assert(frags.last() == frag);
        let p = with_part(
            pending_for(mid, frag),
            le16_at(frag, 4) as int,
            frag.skip(HEADER_LEN as int),
        );
        assert(p.parts[missing] is None);
        assert(!complete(p.parts));
        assert(mid.pending.insert(id, p) =~= partly(st, id, keyframe, au, order).pending);
    }
}

/// Whatever the order in which the fragments of an access unit arrive, and
/// however often some of them do, the frame is handed out exactly once, with
/// the arrival of the last missing fragment, and is the access unit that was
/// cut up. (An access unit of more than 65535 fragments does not fit the
/// header's count.)
#[verifier::rlimit(50)]
pub proof fn law_fragments_reassemble(
    st: Assembly,
    id: u32,
    keyframe: bool,
    au: Seq<u8>,
    order: Seq<int>,
)
    requires
        0 < au.len(),
        fragment_count(au.len() as int) <= u16::MAX,
        !st.pending.contains_key(id),
        !superseded(st, id),
        order.len() > 0,
        forall|k: int|
            0 <= k < order.len() ==> 0 <= #[trigger] order[k] < fragment_count(au.len() as int),
        forall|i: int| 0 <= i < fragment_count(au.len() as int) ==> #[trigger] order.contains(i),
        !order.drop_last().contains(order.last()),
    ensures
        all_received(st, order.map_values(|i: int| fragment_of(id, keyframe, au, i))) == (
            Assembly {
                pending: still_wanted(st.pending, id),
                newest_done: newest(st.newest_done, id),
            },
            seq![Frame { frame_id: id, keyframe, data: au }],
        ),
{
    let rest = order.drop_last();
    let next = order.last();
    lemma_prefix_received(st, id, keyframe, au, rest, next);
    lemma_fragment_says(id, keyframe, au, next);
    lemma_one_more(st, id, keyframe, au, rest, next, fragment_of(id, keyframe, au, next));
    let frags = sent(id, keyframe, au, order);
    assert(frags =~= order.map_values(|i: int| fragment_of(id, keyframe, au, i)));
    assert(frags.drop_last() =~= sent(id, keyframe, au, rest));
    assert(rest.push(next) =~= order);
    let mid = partly(st, id, keyframe, au, rest);
    let frag = fragment_of(id, keyframe, au, next);
    assert(frags.last() == frag);
    let p = with_part(
        pending_for(mid, frag),
        le16_at(frag, 4) as int,
        frag.skip(HEADER_LEN as int),
    );
    assert forall|i: int| 0 <= i < p.parts.len() implies #[trigger] p.parts[i] == Some(
        chunk(au, i),
    ) by {
        assert(order.contains(i));
    }
    assert(complete(p.parts));
    lemma_chunks_join(au, p.parts);
    assert(au.take(au.len() as int) =~= au);
    assert(still_wanted(mid.pending, id) =~= still_wanted(st.pending, id));
    assert(Seq::<Frame>::empty().push(Frame { frame_id: id, keyframe, data: au }) =~= seq![
        Frame { frame_id: id, keyframe, data: au },
    ]);
}

/// A completed frame leaves nothing behind: neither of itself nor of an older
/// frame, while the newer incomplete frames stay as they were.
pub proof fn law_completion_evicts(st: Assembly, frag: Seq<u8>)
    requires
        received(st, frag).1 is Some,
    ensures
        ({
            let (after, frame) = received(st, frag);
            let id = frame->0.frame_id;
            &&& !after.pending.contains_key(id)
            &&& forall|k: u32| #[trigger]
                after.pending.contains_key(k) <==> st.pending.contains_key(k) && k != id && ahead(
                    k,
                    id,
                ) < HALF_RING
            &&& forall|k: u32| #[trigger]
                after.pending.contains_key(k) ==> after.pending[k] == st.pending[k]
        }),
{
}

/// A fragment of a frame that a completed one has superseded changes nothing.
pub proof fn law_late_fragment_is_ignored(st: Assembly, frag: Seq<u8>)
    requires
        superseded(st, le32_at(frag, 0)),
    ensures
        received(st, frag) == (st, None::<Frame>),
{
}

/// Once a frame is the newest completed one, every frame in the half of the
/// ring behind it counts as superseded.
pub proof fn law_completion_supersedes_older(st: Assembly, frag: Seq<u8>, older: u32)
    requires
        received(st, frag).1 is Some,
        received(st, frag).0.newest_done == Some(received(st, frag).1->0.frame_id),
        0 < ahead(received(st, frag).1->0.frame_id, older) <= HALF_RING,
    ensures
        superseded(received(st, frag).0, older),
{
}

/// A fragment is ten bytes of header and then its payload. The header holds,
/// lowest byte first, the frame's number in four bytes, the fragment's index
/// and the count in two each, then one for a keyframe, and a zero.
#[verifier::rlimit(50)]
pub proof fn law_fragments_are_laid_out(
    id: u32,
    idx: u16,
    count: u16,
    keyframe: bool,
    payload: Seq<u8>,
)
    ensures
        ({
            let f = wire_fragment(id, idx, count, keyframe, payload);
            &&& f.len() == 10 + payload.len()
            &&& f[0] + 0x100 * f[1] + 0x1_0000 * f[2] + 0x100_0000 * f[3] == id
            &&& f[4] + 0x100 * f[5] == idx
            &&& f[6] + 0x100 * f[7] == count
            &&& f[8] == (if keyframe {
                1u8
            } else {
                0u8
            })
            &&& f[9] == 0
            &&& f.subrange(10, f.len() as int) == payload
        }),
{
    let f = wire_fragment(id, idx, count, keyframe, payload);
    assert(f[0] == le32(id)[0] && f[1] == le32(id)[1] && f[2] == le32(id)[2] && f[3] == le32(
        id,
    )[3]);
    assert(f[4] == le16(idx)[0] && f[5] == le16(idx)[1]);
    assert(f[6] == le16(count)[0] && f[7] == le16(count)[1]);
    assert(f.subrange(10, f.len() as int) =~= payload);
}

/// An access unit is cut into pieces of 1100 bytes, the last of which may be
/// shorter but not empty; piece `i` begins at byte `1100 * i`.
pub proof fn law_access_units_are_cut_evenly(au: Seq<u8>, i: int, k: int)
    ensures
        ({
            let n = fragment_count(au.len() as int);
            &&& 1100 * (n - 1) < au.len() <= 1100 * n
            &&& au.len() == 0 <==> n == 0
            &&& 0 <= i < n - 1 ==> chunk(au, i).len() == 1100
            &&& n > 0 ==> chunk(au, n - 1).len() == au.len() - 1100 * (n - 1)
            &&& 0 <= i < n && 0 <= k < chunk(au, i).len() ==> chunk(au, i)[k] == au[1100 * i + k]
        }),
{
}

/// The distance between two frame numbers is what has to be added to the one
/// to come to the other, once round the ring of 32-bit numbers at most.
pub proof fn law_frame_numbers_go_round(id: u32, base: u32)
    ensures
        0 <= ahead(id, base) < 0x1_0000_0000,
        (base + ahead(id, base)) % 0x1_0000_0000 == id,
{
}

/// A fragment counts if it has a whole header, an index below its count, and
/// belongs to a frame that is not behind the newest completed one: a frame is
/// behind if it is more than 0x7fffffff ahead.
pub proof fn law_fragments_that_count(st: Assembly, frag: Seq<u8>)
    requires
        frag.len() >= 8,
    ensures
        ({
            let id = frag[0] + 0x100 * frag[1] + 0x1_0000 * frag[2] + 0x100_0000 * frag[3];
            let idx = frag[4] + 0x100 * frag[5];
            let count = frag[6] + 0x100 * frag[7];
            taken(st, frag) <==> frag.len() >= 10 && idx < count && (st.newest_done is None || ahead(
                id as u32,
                st.newest_done->0,
            ) <= 0x7fff_ffff)
        }),
{
}

/// Without a whole header nothing happens.
pub proof fn law_short_fragments_are_ignored(st: Assembly, frag: Seq<u8>)
    requires
        frag.len() < 10,
    ensures
        received(st, frag) == (st, None::<Frame>),
{
}

/// A fragment that counts but does not complete its frame is kept with that
/// frame: its payload stands at its index unless one stood there before, all
/// other parts and frames stay. The first fragment of a frame says how many
/// parts there are and whether it is a keyframe.
pub proof fn law_fragments_are_kept(st: Assembly, frag: Seq<u8>)
    requires
        taken(st, frag),
        agrees(st, frag),
        received(st, frag).1 is None,
    ensures
        ({
            let id = (frag[0] + 0x100 * frag[1] + 0x1_0000 * frag[2] + 0x100_0000 * frag[3]) as u32;
            let idx = frag[4] + 0x100 * frag[5];
            let count = frag[6] + 0x100 * frag[7];
            let after = received(st, frag).0;
            &&& after.newest_done == st.newest_done
            &&& after.pending.dom() == st.pending.dom().insert(id)
            &&& forall|k: u32|
                k != id && st.pending.contains_key(k) ==> #[trigger] after.pending[k]
                    == st.pending[k]
            &&& after.pending[id].parts[idx] is Some
            &&& !st.pending.contains_key(id) ==> {
                &&& after.pending[id].keyframe == (frag[8] % 2 == 1)
                &&& after.pending[id].parts.len() == count
                &&& after.pending[id].parts[idx] == Some(frag.subrange(10, frag.len() as int))
                &&& forall|j: int|
                    0 <= j < count && j != idx ==> #[trigger] after.pending[id].parts[j] is None
            }
            &&& st.pending.contains_key(id) ==> {
                &&& after.pending[id].keyframe == st.pending[id].keyframe
                &&& after.pending[id].parts.len() == st.pending[id].parts.len()
                &&& st.pending[id].parts[idx] is None ==> after.pending[id].parts[idx] == Some(
                    frag.subrange(10, frag.len() as int),
                )
                &&& st.pending[id].parts[idx] is Some ==> after.pending[id].parts[idx]
                    == st.pending[id].parts[idx]
                &&& forall|j: int|
                    0 <= j < st.pending[id].parts.len() && j != idx
                        ==> #[trigger] after.pending[id].parts[j] == st.pending[id].parts[j]
            }
        }),
{
    assert(frag.skip(10) =~= frag.subrange(10, frag.len() as int));
    let id = le32_at(frag, 0);
    assert(received(st, frag).0.pending.dom() =~= st.pending.dom().insert(id));
}

/// A frame is handed out exactly when the last part that was missing comes,
/// and then under its number and with its parts one after the other.
pub proof fn law_frames_are_handed_out_complete(st: Assembly, frag: Seq<u8>)
    requires
        taken(st, frag),
        agrees(st, frag),
        st.pending.contains_key(le32_at(frag, 0)),
        st.pending[le32_at(frag, 0)].parts[le16_at(frag, 4) as int] is None,
    ensures
        ({
            let id = (frag[0] + 0x100 * frag[1] + 0x1_0000 * frag[2] + 0x100_0000 * frag[3]) as u32;
            let idx = frag[4] + 0x100 * frag[5];
            let p = st.pending[id];
            &&& received(st, frag).1 is Some <==> forall|j: int|
                0 <= j < p.parts.len() && j != idx ==> #[trigger] p.parts[j] is Some
            &&& received(st, frag).1 is Some ==> {
                &&& received(st, frag).1->0.frame_id == id
                &&& received(st, frag).1->0.keyframe == p.keyframe
                &&& received(st, frag).1->0.data == joined(
                    p.parts.update(idx, Some(frag.subrange(10, frag.len() as int))),
                )
            }
        }),
{
    assert(frag.skip(10) =~= frag.subrange(10, frag.len() as int));
    let id = le32_at(frag, 0);
    let idx = le16_at(frag, 4) as int;
    let p = st.pending[id];
    let q = p.parts.update(idx, Some(frag.subrange(10, frag.len() as int)));
    if complete(q) {
        assert forall|j: int| 0 <= j < p.parts.len() && j != idx implies #[trigger] p.parts[j]
            is Some by {
            assert(q[j] is Some);
        }
    }
}

/// The newest completed frame is the one last handed out, unless that lies
/// 0x7fffffff or more ahead of the one before, which means behind it.
pub proof fn law_newest_frame_is_remembered(st: Assembly, frag: Seq<u8>)
    requires
        received(st, frag).1 is Some,
    ensures
        ({
            let id = received(st, frag).1->0.frame_id;
            received(st, frag).0.newest_done == (if st.newest_done is None || ahead(
                id,
                st.newest_done->0,
            ) < 0x7fff_ffff {
                Some(id)
            } else {
                st.newest_done
            })
        }),
{
}

/// Parts are joined in the order of their indexes: nothing comes of no parts,
/// and the last part stands at the end.
pub proof fn law_parts_are_joined_in_order(parts: Seq<Option<Seq<u8>>>, last: Seq<u8>)
    ensures
        joined(Seq::<Option<Seq<u8>>>::empty()) == Seq::<u8>::empty(),
        joined(parts.push(Some(last))) == joined(parts) + last,
{
    assert(parts.push(Some(last)).drop_last() =~= parts);
}

/// A frame is seen as it is.
pub proof fn law_frames_are_seen_as_they_are(f: ReassembledFrame)
    ensures
        f@.frame_id == f.frame_id,
        f@.keyframe == f.keyframe,
        f@.data == f.data@,
{
}

} // verus!
