//! Video codecs: which one a session uses, and the arithmetic around encoding
//! and decoding.

use vstd::prelude::*;

use crate::config::texts;
use crate::text::{owned, same_text};

verus! {

/// A video codec. Every machine is taken to handle H.264.
#[derive(Debug, Clone, Copy, PartialEq, Eq, Structural)]
pub enum Codec {
    H264,
    Hevc,
    Av1,
}

/// The name of a codec, as it is advertised.
pub open spec fn codec_name(c: Codec) -> Seq<char> {
    match c {
        Codec::H264 => "H264"@,
        Codec::Hevc => "HEVC"@,
        Codec::Av1 => "AV1"@,
    }
}

/// The codec of a name.
pub open spec fn named_codec(name: Seq<char>) -> Option<Codec> {
    if name == "H264"@ {
        Some(Codec::H264)
    } else if name == "HEVC"@ {
        Some(Codec::Hevc)
    } else if name == "AV1"@ {
        Some(Codec::Av1)
    } else {
        None
    }
}

/// The codecs among some names, in their order; unknown names are skipped.
pub open spec fn named_codecs(names: Seq<Seq<char>>) -> Seq<Codec>
    decreases names.len(),
{
    if names.len() == 0 {
        seq![]
    } else {
        let before = named_codecs(names.drop_last());
        match named_codec(names.last()) {
            Some(c) => before.push(c),
            None => before,
        }
    }
}

/// The best codec that one side encodes and the other decodes: AV1 before
/// HEVC before H.264, and H.264 if there is none.
pub open spec fn best_codec(encodes: Seq<Codec>, decodes: Seq<Codec>) -> Codec {
    if encodes.contains(Codec::Av1) && decodes.contains(Codec::Av1) {
        Codec::Av1
    } else if encodes.contains(Codec::Hevc) && decodes.contains(Codec::Hevc) {
        Codec::Hevc
    } else {
        Codec::H264
    }
}

fn has_codec(list: &[Codec], c: Codec) -> (yes: bool)
    ensures
        yes == list@.contains(c),
{
    let n: usize = list.len();
    let mut i: usize = 0;
    while i < n
        invariant
            i <= n == list@.len(),
            forall|k: int| 0 <= k < i ==> #[trigger] list@[k] != c,
        decreases n - i,
    {
        if list[i] == c {
            return true;
        }
        i += 1;
    }
    false
}

impl Codec {
    /// The name of the codec.
    pub fn as_caps_str(self) -> (name: &'static str)
        ensures
            name@ == codec_name(self),
    {
        match self {
            Codec::H264 => "H264",
            Codec::Hevc => "HEVC",
            Codec::Av1 => "AV1",
        }
    }

    /// The codec of a name.
    pub fn from_caps_str(s: &str) -> (r: Option<Self>)
        ensures
            r == named_codec(s@),
    {
        if same_text(s, "H264") {
            Some(Codec::H264)
        } else if same_text(s, "HEVC") {
            Some(Codec::Hevc)
        } else if same_text(s, "AV1") {
            Some(Codec::Av1)
        } else {
            None
        }
    }

    /// The best codec that both ends can handle.
    pub fn negotiate(host_encodes: &[Codec], viewer_decodes: &[Codec]) -> (c: Codec)
        ensures
            c == best_codec(host_encodes@, viewer_decodes@),
    {
        if has_codec(host_encodes, Codec::Av1) && has_codec(viewer_decodes, Codec::Av1) {
            Codec::Av1
        } else if has_codec(host_encodes, Codec::Hevc) && has_codec(viewer_decodes, Codec::Hevc) {
            Codec::Hevc
        } else {
            Codec::H264
        }
    }
}

/// Codecs are told apart by their names.
pub proof fn law_codec_names(c: Codec)
    ensures
        named_codec(codec_name(c)) == Some(c),
{
    reveal_strlit("H264");
    reveal_strlit("HEVC");
    reveal_strlit("AV1");
    assert("H264"@[1] == '2');
    assert("HEVC"@[1] == 'E');
    assert("AV1"@.len() == 3);
    assert("H264"@.len() == 4);
    assert("HEVC"@.len() == 4);
}

/// What is negotiated is handled by both ends, or is the fallback.
pub proof fn law_negotiated_codec_suits_both(encodes: Seq<Codec>, decodes: Seq<Codec>)
    ensures
        ({
            let c = best_codec(encodes, decodes);
            c == Codec::H264 || encodes.contains(c) && decodes.contains(c)
        }),
{
}

/// One encoded access unit.
#[derive(Debug, Clone)]
pub struct EncodedFrame {
    pub data: Vec<u8>,
    /// Whether a viewer can start decoding from it.
    pub keyframe: bool,
    /// When it is shown, in units of 100 ns.
    pub timestamp: i64,
}

/// What an encoder is asked for.
#[derive(Debug, Clone, Copy, PartialEq, Eq, Structural)]
pub struct EncoderConfig {
    pub width: u32,
    pub height: u32,
    pub fps_num: u32,
    pub fps_den: u32,
    pub bitrate_bps: u32,
    pub codec: Codec,
}

impl Default for EncoderConfig {
    fn default() -> (c: Self)
        ensures
            c == (EncoderConfig {
                width: 1920,
                height: 1080,
                fps_num: 60,
                fps_den: 1,
                bitrate_bps: 8_000_000,
                codec: Codec::H264,
            }),
    {
        EncoderConfig {
            width: 1920,
            height: 1080,
            fps_num: 60,
            fps_den: 1,
            bitrate_bps: 8_000_000,
            codec: Codec::H264,
        }
    }
}

/// Which codecs a machine was found to handle.
#[derive(Debug, Clone, Copy, PartialEq, Eq, Structural)]
pub struct Probes {
    pub av1: bool,
    pub hevc: bool,
    pub h264: bool,
}

/// The codecs found, best first.
pub open spec fn found(p: Probes) -> Seq<Codec> {
    let a = if p.av1 {
        seq![Codec::Av1]
    } else {
        seq![]
    };
    let b = if p.hevc {
        a.push(Codec::Hevc)
    } else {
        a
    };
    if p.h264 {
        b.push(Codec::H264)
    } else {
        b
    }
}

fn list_found(p: Probes) -> (v: Vec<Codec>)
    ensures
        v@ == found(p),
{
    let mut v: Vec<Codec> = Vec::new();
    if p.av1 {
        v.push(Codec::Av1);
    }
    if p.hevc {
        v.push(Codec::Hevc);
    }
    if p.h264 {
        v.push(Codec::H264);
    }
    assert(v@ =~= found(p));
    v
}

/// The codecs that a host encodes: those found, or H.264 if none was.
pub open spec fn encodable(p: Probes) -> Seq<Codec> {
    if found(p).len() == 0 {
        seq![Codec::H264]
    } else {
        found(p)
    }
}

/// The codecs that a viewer decodes: those found, and H.264 in any case.
pub open spec fn decodable(p: Probes) -> Seq<Codec> {
    if p.h264 {
        found(p)
    } else {
        found(p).push(Codec::H264)
    }
}

/// The codecs that this host encodes, best first.
pub fn host_encodable(p: Probes) -> (v: Vec<Codec>)
    ensures
        v@ == encodable(p),
{
    let mut v: Vec<Codec> = list_found(p);
    if v.len() == 0 {
        v.push(Codec::H264);
        assert(v@ =~= seq![Codec::H264]);
    }
    v
}

/// The codecs that this viewer decodes, best first.
pub fn viewer_decodable(p: Probes) -> (v: Vec<Codec>)
    ensures
        v@ == decodable(p),
{
    let mut v: Vec<Codec> = list_found(p);
    if !p.h264 {
        v.push(Codec::H264);
    }
    v
}

/// The names of the codecs that this viewer decodes, for its request: a host
/// must never choose one that the viewer cannot decode.
pub fn viewer_decode_caps(p: Probes) -> (names: Vec<String>)
    ensures
        texts(names@) == decodable(p).map_values(|c: Codec| codec_name(c)),
{
    let v: Vec<Codec> = viewer_decodable(p);
    let mut names: Vec<String> = Vec::new();
    let n: usize = v.len();
    let mut i: usize = 0;
    while i < n
        invariant
            i <= n == v@.len(),
            v@ == decodable(p),
            texts(names@) == decodable(p).map_values(|c: Codec| codec_name(c)).take(i as int),
        decreases n - i,
    {
        let ghost before = names@;
        names.push(owned(v[i].as_caps_str()));
        i += 1;
        proof {
            let all = decodable(p).map_values(|c: Codec| codec_name(c));
            assert(texts(names@) =~= texts(before).push(all[i - 1]));
            assert(all.take(i as int) =~= all.take(i - 1).push(all[i - 1]));
        }
    }
    assert(decodable(p).map_values(|c: Codec| codec_name(c)).take(n as int) =~= decodable(
        p,
    ).map_values(|c: Codec| codec_name(c)));
    names
}

proof fn lemma_named_codecs_back(names: Seq<Seq<char>>, c: Codec)
    requires
        named_codecs(names).contains(c),
    ensures
        exists|i: int| 0 <= i < names.len() && #[trigger] named_codec(names[i]) == Some(c),
    decreases names.len(),
{
    if names.len() > 0 {
        let rest = names.drop_last();
        let all = named_codecs(names);
        let k = all.index_of(c);
        if k < named_codecs(rest).len() {
            assert(named_codecs(rest)[k] == c);
            lemma_named_codecs_back(rest, c);
            let i = choose|i: int|
                0 <= i < rest.len() && #[trigger] named_codec(rest[i]) == Some(c);
            assert(named_codec(names[i]) == Some(c));
        } else {
            assert(named_codec(names[names.len() - 1]) == Some(c));
        }
    }
}

/// A session never uses a codec that its viewer has not advertised, other than
/// the fallback, which every viewer advertises.
pub proof fn law_viewer_can_decode_what_is_chosen(host: Probes, viewer: Probes)
    ensures
        decodable(viewer).contains(
            best_codec(
                encodable(host),
                named_codecs(decodable(viewer).map_values(|c: Codec| codec_name(c))),
            ),
        ),
{
    let names = decodable(viewer).map_values(|c: Codec| codec_name(c));
    let c = best_codec(encodable(host), named_codecs(names));
    if c == Codec::H264 {
        let v = decodable(viewer);
        assert(v[v.len() - 1] == Codec::H264);
    } else {
        lemma_named_codecs_back(names, c);
        let i = choose|i: int| 0 <= i < names.len() && #[trigger] named_codec(names[i]) == Some(c);
        law_codec_names(decodable(viewer)[i]);
        assert(decodable(viewer)[i] == c);
    }
}

/// The number of a codec.
pub open spec fn codec_number(c: Codec) -> u8 {
    match c {
        Codec::H264 => 0,
        Codec::Hevc => 1,
        Codec::Av1 => 2,
    }
}

/// The codec of a number.
pub open spec fn numbered_codec(v: u8) -> Codec {
    if v == 1 {
        Codec::Hevc
    } else if v == 2 {
        Codec::Av1
    } else {
        Codec::H264
    }
}

/// The number of a codec.
pub fn codec_to_u8(c: Codec) -> (v: u8)
    ensures
        v == codec_number(c),
        numbered_codec(v) == c,
{
    match c {
        Codec::H264 => 0,
        Codec::Hevc => 1,
        Codec::Av1 => 2,
    }
}

/// The codec of a number. Any number that none has means H.264.
pub fn negotiated_codec(v: u8) -> (c: Codec)
    ensures
        c == numbered_codec(v),
{
    if v == 1 {
        Codec::Hevc
    } else if v == 2 {
        Codec::Av1
    } else {
        Codec::H264
    }
}

/// Host: picks the best codec that this host encodes and the viewer says it
/// decodes, records its number and gives its name.
pub fn set_negotiated_codec_from_caps(
    negotiated: &mut u8,
    viewer_decode: &[String],
    host_encodes: &[Codec],
) -> (name: String)
    ensures
        ({
            let c = best_codec(host_encodes@, named_codecs(texts(viewer_decode@)));
            *final(negotiated) == codec_number(c) && name@ == codec_name(c)
        }),
{
    let mut viewer: Vec<Codec> = Vec::new();
    let ghost names = texts(viewer_decode@);
    let n: usize = viewer_decode.len();
    let mut i: usize = 0;
    assert(names.take(0) =~= seq![]);
    assert(viewer@ =~= named_codecs(names.take(0)));
    while i < n
        invariant
            i <= n == viewer_decode@.len(),
            names == texts(viewer_decode@),
            viewer@ == named_codecs(names.take(i as int)),
        decreases n - i,
    {
        assert(names.take(i + 1).drop_last() =~= names.take(i as int));
        if let Some(c) = Codec::from_caps_str(viewer_decode[i].as_str()) {
            viewer.push(c);
        }
        i += 1;
    }
    assert(names.take(n as int) =~= names);
    let chosen: Codec = Codec::negotiate(host_encodes, viewer.as_slice());
    *negotiated = codec_to_u8(chosen);
    owned(chosen.as_caps_str())
}

/// The codec that a host has named; H.264 if the name is unknown.
pub open spec fn codec_or_default(name: Seq<char>) -> Codec {
    match named_codec(name) {
        Some(c) => c,
        None => Codec::H264,
    }
}

/// Viewer: records the codec that the host has named.
pub fn set_codec_from_str(negotiated: &mut u8, s: &str)
    ensures
        *final(negotiated) == codec_number(codec_or_default(s@)),
{
    let c: Codec = match Codec::from_caps_str(s) {
        Some(c) => c,
        None => Codec::H264,
    };
    *negotiated = codec_to_u8(c);
}

/// Two numbers in one, as media types hold a frame's size or rate.
pub open spec fn packed(hi: u32, lo: u32) -> int {
    hi * 0x1_0000_0000 + lo
}

/// Packs two numbers into one.
pub fn pack(hi: u32, lo: u32) -> (v: u64)
    ensures
        v == packed(hi, lo),
{
    hi as u64 * 0x1_0000_0000 + lo as u64
}

/// Takes two numbers out of one.
pub fn unpack(v: u64) -> (r: (u32, u32))
    ensures
        packed(r.0, r.1) == v,
{
    ((v / 0x1_0000_0000) as u32, (v % 0x1_0000_0000) as u32)
}

/// What is packed comes out again: no two pairs share a number.
pub proof fn law_packing_keeps_both(a: (u32, u32), b: (u32, u32))
    requires
        packed(a.0, a.1) == packed(b.0, b.1),
    ensures
        a == b,
{
}

/// How long one frame lasts, in units of 100 ns.
pub open spec fn frame_duration(cfg: EncoderConfig) -> int {
    10_000_000 * cfg.fps_den as int / (if cfg.fps_num == 0 {
        1int
    } else {
        cfg.fps_num as int
    })
}

/// Stamps the frames that go into an encoder.
#[derive(Debug, Clone, Copy)]
pub struct SampleClock {
    pub frame_index: i64,
}

impl SampleClock {
    /// The time and the duration of the next frame.
    pub fn next_sample(&mut self, cfg: &EncoderConfig) -> (r: (i64, i64))
        requires
            0 <= old(self).frame_index < i64::MAX,
            old(self).frame_index * frame_duration(*cfg) <= i64::MAX,
        ensures
            final(self).frame_index == old(self).frame_index + 1,
            r.0 == old(self).frame_index * frame_duration(*cfg),
            r.1 == frame_duration(*cfg),
    {
        let num: i64 = if cfg.fps_num == 0 {
            1
        } else {
            cfg.fps_num as i64
        };
        let total: i64 = 10_000_000 * cfg.fps_den as i64;
        let duration: i64 = total / num;
        assert(duration == frame_duration(*cfg));
        assert(0 <= self.frame_index * duration) by (nonlinear_arith)
            requires
                0 <= self.frame_index,
                0 <= duration,
        ;
        let time: i64 = self.frame_index * duration;
        self.frame_index = self.frame_index + 1;
        (time, duration)
    }
}

/// What an encoder announces.
#[derive(Debug, Clone, Copy, PartialEq, Eq, Structural)]
pub enum EncoderEvent {
    NeedInput,
    HaveOutput,
    Other,
}

/// What to do about it.
#[derive(Debug, Clone, Copy, PartialEq, Eq, Structural)]
pub enum PumpStep {
    /// Hand the frame in, then wait for the next event.
    Feed,
    /// Hand the frame in: there is output already, so that is all.
    FeedAndStop,
    /// Take output out, then see `after_output`.
    Drain,
    /// Wait for the next event.
    Wait,
    Stop,
}

/// Drives an encoder through one frame: it is fed once, and done when it has
/// been fed and has given something, or asks for more.
#[derive(Debug, Clone, Copy, PartialEq, Eq, Structural)]
pub struct EncodePump {
    pub fed: bool,
    pub has_output: bool,
}

/// What to do about an encoder's event.
pub open spec fn pump_step(p: EncodePump, ev: EncoderEvent) -> PumpStep {
    match ev {
        EncoderEvent::NeedInput => if p.fed {
            PumpStep::Stop
        } else if p.has_output {
            PumpStep::FeedAndStop
        } else {
            PumpStep::Feed
        },
        EncoderEvent::HaveOutput => PumpStep::Drain,
        EncoderEvent::Other => if p.fed && p.has_output {
            PumpStep::Stop
        } else {
            PumpStep::Wait
        },
    }
}

impl EncodePump {
    pub fn new() -> (p: Self)
        ensures
            p == (EncodePump { fed: false, has_output: false }),
    {
        EncodePump { fed: false, has_output: false }
    }

    /// Deals with an event of the encoder.
    pub fn on_event(&mut self, ev: EncoderEvent) -> (step: PumpStep)
        ensures
            step == pump_step(*old(self), ev),
            final(self).has_output == old(self).has_output,
            final(self).fed == (old(self).fed || ev == EncoderEvent::NeedInput),
    {
        match ev {
            EncoderEvent::NeedInput => {
                if self.fed {
                    return PumpStep::Stop;
                }
                self.fed = true;
                if self.has_output {
                    PumpStep::FeedAndStop
                } else {
                    PumpStep::Feed
                }
            },
            EncoderEvent::HaveOutput => PumpStep::Drain,
            EncoderEvent::Other => if self.fed && self.has_output {
                PumpStep::Stop
            } else {
                PumpStep::Wait
            },
        }
    }

    /// Output was taken out, if there was some. Tells whether that is all.
    pub fn after_output(&mut self, got: bool) -> (stop: bool)
        ensures
            final(self).fed == old(self).fed,
            final(self).has_output == (old(self).has_output || got),
            stop == (final(self).fed && final(self).has_output),
            (*final(self), stop) == pumped(*old(self), got),
    {
        self.has_output = self.has_output || got;
        self.fed && self.has_output
    }
}

/// How many bytes apart the rows of a decoded picture lie: what the decoder
/// says, unless that is nothing or less than a row.
pub fn src_stride(announced: Option<u32>, width: u32) -> (stride: u32)
    ensures
        stride == (if announced is Some && announced->0 >= width {
            announced->0
        } else {
            width
        }),
        stride == row_distance(announced, width),
{
    match announced {
        Some(s) => if s >= width {
            s
        } else {
            width
        },
        None => width,
    }
}

/// The smallest of three numbers.
pub open spec fn least(a: int, b: int, c: int) -> int {
    let m = if a < b {
        a
    } else {
        b
    };
    if m < c {
        m
    } else {
        c
    }
}

/// How many rows an NV12 picture has: full ones of luma, then half as many of
/// chroma.
pub open spec fn nv12_rows(h: int) -> int {
    h + h / 2
}

/// The picture `dst` once the rows of `src` are copied over it, each as wide
/// as fits, whatever lies between the rows staying as it was.
pub open spec fn nv12_copied(
    dst: Seq<u8>,
    src: Seq<u8>,
    src_pitch: int,
    dst_pitch: int,
    row: int,
    rows: int,
) -> Seq<u8> {
    Seq::new(
        dst.len(),
        |i: int|
            if dst_pitch > 0 && i / dst_pitch < rows && i % dst_pitch < row {
                src[(i / dst_pitch) * src_pitch + i % dst_pitch]
            } else {
                dst[i]
            },
    )
}

/// The picture while it is copied: `y` rows are done, and `x` bytes of the
/// next.
spec fn nv12_partly(
    dst: Seq<u8>,
    src: Seq<u8>,
    src_pitch: int,
    dst_pitch: int,
    row: int,
    y: int,
    x: int,
) -> Seq<u8> {
    Seq::new(
        dst.len(),
        |i: int|
            if dst_pitch > 0 && i % dst_pitch < row && (i / dst_pitch < y || i / dst_pitch == y && i
                % dst_pitch < x) {
                src[(i / dst_pitch) * src_pitch + i % dst_pitch]
            } else {
                dst[i]
            },
    )
}

/// How many bytes of a buffer are read or written: all rows but the last with
/// the distance to the next, and the last one as far as it is copied.
pub open spec fn nv12_extent(pitch: int, row: int, rows: int) -> int {
    if row == 0 || rows == 0 {
        0
    } else {
        (rows - 1) * pitch + row
    }
}

/// Copies an NV12 picture, `h` rows of luma and then `h / 2` rows of chroma,
/// each `w` bytes wide, between buffers with different distances between rows.
pub fn copy_nv12(
    src: &[u8],
    src_pitch: usize,
    dst: &mut [u8],
    dst_pitch: usize,
    w: usize,
    h: usize,
)
    requires
        nv12_rows(h as int) <= usize::MAX,
        nv12_extent(
            src_pitch as int,
            least(w as int, src_pitch as int, dst_pitch as int),
            nv12_rows(h as int),
        ) <= src@.len(),
        nv12_extent(
            dst_pitch as int,
            least(w as int, src_pitch as int, dst_pitch as int),
            nv12_rows(h as int),
        ) <= old(dst)@.len(),
    ensures
        final(dst)@ == nv12_copied(
            old(dst)@,
            src@,
            src_pitch as int,
            dst_pitch as int,
            least(w as int, src_pitch as int, dst_pitch as int),
            nv12_rows(h as int),
        ),
{
    let narrow: usize = if w < src_pitch {
        w
    } else {
        src_pitch
    };
    let row: usize = if narrow < dst_pitch {
        narrow
    } else {
        dst_pitch
    };
    let rows: usize = h + h / 2;
    let src_len: usize = src.len();
    let dst_len: usize = dst.len();
    let ghost before = dst@;
    let ghost sp = src_pitch as int;
    let ghost dp = dst_pitch as int;
    let mut y: usize = 0;
    let mut from: usize = 0;
    let mut to: usize = 0;
    if row == 0 {
        proof {
            let after = nv12_copied(before, src@, sp, dp, row as int, rows as int);
            assert forall|i: int| 0 <= i < before.len() implies after[i] == before[i] by {
                if dp > 0 {
                    vstd::arithmetic::div_mod::lemma_mod_bound(i, dp);
                }
            }
            assert(before =~= after);
        }
        return;
    }
    proof {
        let start = nv12_partly(before, src@, sp, dp, row as int, 0, 0);
        assert forall|i: int| 0 <= i < before.len() implies start[i] == before[i] by {
            vstd::arithmetic::div_mod::lemma_mod_bound(i, dp);
            vstd::arithmetic::div_mod::lemma_div_pos_is_pos(i, dp);
        }
        assert(before =~= start);
    }
    while y < rows
        invariant
            y <= rows,
            sp == src_pitch,
            dp == dst_pitch,
            0 < row <= sp,
            row <= dp,
            rows > 0 ==> (rows - 1) * sp + row <= src@.len(),
            rows > 0 ==> (rows - 1) * dp + row <= before.len(),
            src@.len() == src_len,
            before.len() == dst_len,
            y < rows ==> from == y * sp,
            y < rows ==> to == y * dp,
            dst@ == nv12_partly(before, src@, sp, dp, row as int, y as int, 0),
        decreases rows - y,
    {
        let mut x: usize = 0;
        assert(y * sp <= (rows - 1) * sp && y * dp <= (rows - 1) * dp) by (nonlinear_arith)
            requires
                0 <= y,
                y <= rows - 1,
                0 <= sp,
                0 <= dp,
        ;
        while x < row
            invariant
                x <= row,
                y < rows,
                sp == src_pitch,
                dp == dst_pitch,
                0 < row <= sp,
                row <= dp,
                from == y * sp,
                to == y * dp,
                from + row <= src@.len() == src_len,
                to + row <= before.len() == dst_len,
                dst@ == nv12_partly(before, src@, sp, dp, row as int, y as int, x as int),
            decreases row - x,
        {
            let ghost mid = dst@;
            dst[to + x] = src[from + x];
            proof {
                let at = to + x;
                vstd::arithmetic::div_mod::lemma_fundamental_div_mod_converse(
                    at as int,
                    dp,
                    y as int,
                    x as int,
                );
                let after = nv12_partly(before, src@, sp, dp, row as int, y as int, x + 1);
                assert forall|i: int| 0 <= i < before.len() implies dst@[i] == after[i] by {
                    if i != at {
                        assert(dst@[i] == mid[i]);
                        if i / dp == y && i % dp == x {
                            vstd::arithmetic::div_mod::lemma_fundamental_div_mod(i, dp);
                            assert(dp * (i / dp) == y * dp) by (nonlinear_arith)
                                requires
                                    i / dp == y,
                            ;
                        }
                    }
                }
                assert(dst@ =~= after);
            }
            x += 1;
        }
        y += 1;
        proof {
            let a = nv12_partly(before, src@, sp, dp, row as int, y - 1, row as int);
            let b = nv12_partly(before, src@, sp, dp, row as int, y as int, 0);
            assert forall|i: int| 0 <= i < before.len() implies a[i] == b[i] by {
                vstd::arithmetic::div_mod::lemma_mod_bound(i, dp);
            }
            assert(a =~= b);
        }
        if y < rows {
            assert((y - 1) * sp + sp == y * sp && (y - 1) * dp + dp == y * dp && y * sp <= (rows - 1)
                * sp && y * dp <= (rows - 1) * dp) by (nonlinear_arith)
                requires
                    1 <= y <= rows - 1,
                    0 <= sp,
                    0 <= dp,
            ;
            from = from + src_pitch;
            to = to + dst_pitch;
        }
    }
    proof {
        let a = nv12_partly(before, src@, sp, dp, row as int, rows as int, 0);
        let b = nv12_copied(before, src@, sp, dp, row as int, rows as int);
        assert forall|i: int| 0 <= i < before.len() implies a[i] == b[i] by {
            vstd::arithmetic::div_mod::lemma_mod_bound(i, dp);
        }
        assert(a =~= b);
    }
}

/// Each codec goes by one name and one number: H264 by 0, HEVC by 1 and AV1 by
/// 2. Any other name stands for none, any other number for H.264.
pub proof fn law_codecs_go_by_these_names(name: Seq<char>, number: u8)
    ensures
        named_codec(name) == Some(Codec::H264) <==> name == seq!['H', '2', '6', '4'],
        named_codec(name) == Some(Codec::Hevc) <==> name == seq!['H', 'E', 'V', 'C'],
        named_codec(name) == Some(Codec::Av1) <==> name == seq!['A', 'V', '1'],
        codec_name(Codec::H264) == seq!['H', '2', '6', '4'],
        codec_name(Codec::Hevc) == seq!['H', 'E', 'V', 'C'],
        codec_name(Codec::Av1) == seq!['A', 'V', '1'],
        numbered_codec(number) == Codec::Hevc <==> number == 1,
        numbered_codec(number) == Codec::Av1 <==> number == 2,
        codec_number(Codec::H264) == 0,
        codec_number(Codec::Hevc) == 1,
        codec_number(Codec::Av1) == 2,
        codec_or_default(name) == Codec::Hevc <==> name == seq!['H', 'E', 'V', 'C'],
        codec_or_default(name) == Codec::Av1 <==> name == seq!['A', 'V', '1'],
{
    reveal_strlit("H264");
    reveal_strlit("HEVC");
    reveal_strlit("AV1");
    assert("H264"@ =~= seq!['H', '2', '6', '4']);
    assert("HEVC"@ =~= seq!['H', 'E', 'V', 'C']);
    assert("AV1"@ =~= seq!['A', 'V', '1']);
    assert(seq!['H', '2', '6', '4'][1] != seq!['H', 'E', 'V', 'C'][1]);
    assert(seq!['H', '2', '6', '4'][0] != seq!['A', 'V', '1'][0]);
    assert(seq!['H', 'E', 'V', 'C'][0] != seq!['A', 'V', '1'][0]);
}

proof fn lemma_named_codecs_forth(names: Seq<Seq<char>>, i: int, c: Codec)
    requires
        0 <= i < names.len(),
        named_codec(names[i]) == Some(c),
    ensures
        named_codecs(names).contains(c),
    decreases names.len(),
{
    if i == names.len() - 1 {
        let before = named_codecs(names.drop_last());
        assert(before.push(c)[before.len() as int] == c);
    } else {
        assert(names.drop_last()[i] == names[i]);
        lemma_named_codecs_forth(names.drop_last(), i, c);
        let before = named_codecs(names.drop_last());
        let at = choose|j: int| 0 <= j < before.len() && before[j] == c;
        assert(named_codecs(names)[at] == c);
    }
}

/// A session uses AV1 as soon as both ends know it, whatever else they know;
/// else HEVC as soon as both ends know that; and only else H.264.
pub proof fn law_best_common_codec_is_used(encodes: Seq<Codec>, names: Seq<Seq<char>>, i: int)
    requires
        0 <= i < names.len(),
    ensures
        names[i] == seq!['A', 'V', '1'] && encodes.contains(Codec::Av1) ==> best_codec(
            encodes,
            named_codecs(names),
        ) == Codec::Av1,
        names[i] == seq!['H', 'E', 'V', 'C'] && encodes.contains(Codec::Hevc) ==> best_codec(
            encodes,
            named_codecs(names),
        ) != Codec::H264,
        best_codec(encodes, named_codecs(names)) == Codec::Av1 ==> names.contains(
            seq!['A', 'V', '1'],
        ) && encodes.contains(Codec::Av1),
        best_codec(encodes, named_codecs(names)) == Codec::Hevc ==> names.contains(
            seq!['H', 'E', 'V', 'C'],
        ) && encodes.contains(Codec::Hevc),
        !names.contains(seq!['A', 'V', '1']) && !names.contains(seq!['H', 'E', 'V', 'C'])
            ==> best_codec(encodes, named_codecs(names)) == Codec::H264,
{
    law_codecs_go_by_these_names(names[i], 0);
    if names[i] == seq!['A', 'V', '1'] {
        lemma_named_codecs_forth(names, i, Codec::Av1);
    }
    if names[i] == seq!['H', 'E', 'V', 'C'] {
        lemma_named_codecs_forth(names, i, Codec::Hevc);
    }
    let list = named_codecs(names);
    if list.contains(Codec::Av1) {
        lemma_named_codecs_back(names, Codec::Av1);
        let k = choose|k: int|
            0 <= k < names.len() && #[trigger] named_codec(names[k]) == Some(Codec::Av1);
        law_codecs_go_by_these_names(names[k], 0);
    }
    if list.contains(Codec::Hevc) {
        lemma_named_codecs_back(names, Codec::Hevc);
        let k = choose|k: int|
            0 <= k < names.len() && #[trigger] named_codec(names[k]) == Some(Codec::Hevc);
        law_codecs_go_by_these_names(names[k], 0);
    }
}

/// A machine lists what it was found to handle and nothing else, the better
/// codec first; a viewer lists H.264 whatever was found, a host only where
/// nothing else was.
pub proof fn law_machines_list_what_they_handle(p: Probes)
    ensures
        encodable(p).contains(Codec::Av1) <==> p.av1,
        encodable(p).contains(Codec::Hevc) <==> p.hevc,
        encodable(p).contains(Codec::H264) <==> p.h264 || !p.av1 && !p.hevc,
        decodable(p).contains(Codec::Av1) <==> p.av1,
        decodable(p).contains(Codec::Hevc) <==> p.hevc,
        decodable(p).contains(Codec::H264),
        p.av1 ==> encodable(p)[0] == Codec::Av1 && decodable(p)[0] == Codec::Av1,
        p.hevc && !p.av1 ==> encodable(p)[0] == Codec::Hevc && decodable(p)[0] == Codec::Hevc,
        decodable(p).last() == Codec::H264,
        encodable(p).no_duplicates(),
        decodable(p).no_duplicates(),
{
    let e = encodable(p);
    let d = decodable(p);
    assert(p.av1 ==> e[0] == Codec::Av1 && d[0] == Codec::Av1);
    assert(p.hevc ==> e[if p.av1 { 1int } else { 0 }] == Codec::Hevc);
    assert(p.hevc ==> d[if p.av1 { 1int } else { 0 }] == Codec::Hevc);
    assert(d.last() == Codec::H264);
    assert(p.h264 || !p.av1 && !p.hevc ==> e.last() == Codec::H264);
}

/// The first number packed takes the high half, the second the low one.
pub proof fn law_packing_keeps_the_halves_apart(hi: u32, lo: u32)
    ensures
        packed(hi, lo) / 0x1_0000_0000 == hi,
        packed(hi, lo) % 0x1_0000_0000 == lo,
{
}

/// The frames of a second fill it: as many as there are frames in
/// `fps_den` seconds last that long, up to a rounding of less than a unit
/// each. Without a rate a frame lasts `fps_den` seconds.
pub proof fn law_frames_fill_the_second(cfg: EncoderConfig)
    ensures
        cfg.fps_num > 0 ==> cfg.fps_num * frame_duration(cfg) <= 10_000_000 * cfg.fps_den
            < cfg.fps_num * frame_duration(cfg) + cfg.fps_num,
        cfg.fps_num == 0 ==> frame_duration(cfg) == 10_000_000 * cfg.fps_den,
{
    let n = cfg.fps_num as int;
    if n > 0 {
        let t = 10_000_000 * cfg.fps_den as int;
        assert(n * (t / n) <= t < n * (t / n) + n) by (nonlinear_arith)
            requires
                n > 0,
        ;
    } else {
        let t = 10_000_000 * cfg.fps_den as int;
        assert(t / 1 == t);
    }
}

/// An encoder is fed exactly once for a frame and is left alone once it has
/// been fed and has given something or asks for more.
pub proof fn law_encoders_are_fed_once(p: EncodePump, ev: EncoderEvent)
    ensures
        pump_step(p, ev) == PumpStep::Feed || pump_step(p, ev) == PumpStep::FeedAndStop <==> !p.fed
            && ev == EncoderEvent::NeedInput,
        pump_step(p, ev) == PumpStep::Drain <==> ev == EncoderEvent::HaveOutput,
        pump_step(p, ev) == PumpStep::Stop <==> p.fed && (ev == EncoderEvent::NeedInput || ev
            == EncoderEvent::Other && p.has_output),
        pump_step(p, ev) == PumpStep::FeedAndStop ==> p.has_output,
        pump_step(p, ev) == PumpStep::Feed ==> !p.has_output,
{
}

/// Byte `x` of row `y` of a copied picture is byte `x` of row `y` of the one it
/// was copied from, as far as the row fits both; all else stays.
pub proof fn law_pictures_are_copied_row_by_row(
    dst: Seq<u8>,
    src: Seq<u8>,
    src_pitch: int,
    dst_pitch: int,
    w: int,
    h: int,
    x: int,
    y: int,
)
    requires
        0 <= x < dst_pitch,
        0 <= y,
        0 <= src_pitch,
        0 <= w,
        0 <= h,
        y * dst_pitch + x < dst.len(),
    ensures
        ({
            let out = nv12_copied(
                dst,
                src,
                src_pitch,
                dst_pitch,
                least(w, src_pitch, dst_pitch),
                nv12_rows(h),
            );
            &&& out.len() == dst.len()
            &&& out[y * dst_pitch + x] == (if x < w && x < src_pitch && 2 * y < 2 * h + (h - h % 2) {
                src[y * src_pitch + x]
            } else {
                dst[y * dst_pitch + x]
            })
        }),
{
    let i = y * dst_pitch + x;
    assert(i >= 0 && i / dst_pitch == y && i % dst_pitch == x) by {
        vstd::arithmetic::div_mod::lemma_fundamental_div_mod_converse(i, dst_pitch, y, x);
        assert(y * dst_pitch >= 0) by (nonlinear_arith)
            requires
                y >= 0,
                dst_pitch > 0,
        ;
    }
}

/// A pump once output was taken out, if there was some, and whether it is done.
pub open spec fn pumped(p: EncodePump, got: bool) -> (EncodePump, bool) {
    let after = EncodePump { has_output: p.has_output || got, ..p };
    (after, after.fed && after.has_output)
}

/// How far apart the rows of a decoded picture lie.
pub open spec fn row_distance(announced: Option<u32>, width: u32) -> u32 {
    match announced {
        Some(n) if n >= width => n,
        _ => width,
    }
}

/// A frame is done as soon as the encoder has been fed and has given something,
/// in whichever order; before that it is not.
pub proof fn law_frames_are_done_once(p: EncodePump, got: bool)
    ensures
        pumped(p, got).1 <==> p.fed && (p.has_output || got),
        pumped(p, got).0.fed == p.fed,
        pumped(p, true).0.has_output,
        pumped(p, false).0 == p,
{
}

/// Rows lie as far apart as the decoder says, and never closer than they are
/// wide.
pub proof fn law_rows_do_not_overlap(announced: u32, width: u32)
    ensures
        row_distance(Some(announced), width) >= width,
        announced >= width ==> row_distance(Some(announced), width) == announced,
        announced < width ==> row_distance(Some(announced), width) == width,
        row_distance(None, width) == width,
{
}

} // verus!
