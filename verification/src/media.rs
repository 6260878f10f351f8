//! The decisions around the picture: how large it is encoded, how many bits
//! and frames the link gets, when a keyframe is sent, and which received
//! frames are decoded.
//!
//! On a bad link the frame rate gives, never the sharpness. A viewer never
//! decodes across a gap: it drops what depends on a lost frame and asks for a
//! keyframe. Times are milliseconds unless a name says otherwise.

use vstd::arithmetic::power2::{lemma2_to64, lemma_pow2_adds, pow2};
use vstd::prelude::*;

use crate::codec::unpack;
use crate::double::{
    bytes_in, law_rounding_is_close, law_short_numbers_are_kept, lemma_nearest_divides,
    lemma_nearest_scaled, nearest, round_quotient, seconds,
    BITS_53, ONE,
};
use crate::turn::elapsed;

verus! {

/// What the encoder is given at most and at least, in bits per second.
pub const TARGET_BITRATE: u32 = 8_000_000;
pub const MIN_BITRATE: u32 = 2_500_000;

/// What the estimator is asked to probe toward.
pub const DESIRED_BITRATE: u32 = 9_000_000;

/// What a link is taken to carry at least.
pub const MIN_LINK: u32 = 100_000;

pub const MAX_FPS: u32 = 30;
pub const MIN_FPS: u32 = 4;

/// How long two encoded frames lie apart at least.
pub const MIN_FRAME_GAP_MS: u64 = 33;

/// How long two requested keyframes lie apart at least.
pub const MIN_KEYFRAME_GAP_MS: u64 = 1_000;

/// A size in pixels.
pub type Size = (u32, u32);

/// `a` times the fraction `num / den`, as doubles give it, to the nearest whole
/// number, halves up.
pub open spec fn scaled(a: int, num: int, den: int) -> int {
    (nearest(a * nearest(num * ONE, den), 1) + ONE as int / 2) / (ONE as int)
}

/// The even number at or just below.
pub open spec fn even(a: int) -> int {
    a - a % 2
}

/// At least two.
pub open spec fn at_least_two(a: int) -> int {
    if a < 2 {
        2
    } else {
        a
    }
}

/// By which fraction `src` must shrink to fit in `want`: the tighter of the
/// two axes, and never above one.
pub open spec fn shrink(want: Size, src: Size) -> (int, int) {
    if want.0 >= src.0 && want.1 >= src.1 {
        (1, 1)
    } else if want.0 * src.1 <= want.1 * src.0 {
        (want.0 as int, src.0 as int)
    } else {
        (want.1 as int, src.1 as int)
    }
}

/// The largest size of the shape of `src` that fits in `want`, never larger
/// than `src`, with even sides. An unknown size counts for nothing.
pub open spec fn fitted(want: Size, src: Size) -> (int, int) {
    let (num, den) = shrink(want, src);
    if want.0 == 0 || want.1 == 0 || src.0 == 0 || src.1 == 0 {
        (src.0 as int, src.1 as int)
    } else {
        (
            at_least_two(even(scaled(src.0 as int, num, den))),
            at_least_two(even(scaled(src.1 as int, num, den))),
        )
    }
}

proof fn lemma_fraction(num: int, den: int)
    requires
        0 < num <= den <= u32::MAX,
    ensures
        0x10_0000_0000_0000 <= nearest(num * ONE, den) <= 2 * ONE,
        BITS_53 * (den * nearest(num * ONE, den)) <= (num * ONE) * (BITS_53 + 1),
{
    let f = nearest(num * ONE, den);
    law_rounding_is_close(num * ONE, den);
    assert(f <= 2 * ONE) by (nonlinear_arith)
        requires
            BITS_53 * (den * f) <= (num * ONE) * (BITS_53 + 1),
            0 < num <= den,
            ONE > 0,
            BITS_53 >= 1,
    ;
    assert(den * f <= 0x1_0000_0000 * f) by (nonlinear_arith)
        requires
            0 <= f,
            den <= 0x1_0000_0000,
    ;
}

proof fn lemma_scaled_bound(a: int, num: int, den: int, cap: int)
    requires
        0 <= a <= u32::MAX,
        0 < num <= den <= u32::MAX,
        0 <= cap <= u32::MAX,
        a * num <= cap * den,
    ensures
        0 <= scaled(a, num, den) <= cap,
        0 <= nearest(a * nearest(num * ONE, den), 1) <= cap * ONE + ONE as int / 2,
{
    let f = nearest(num * ONE, den);
    let x = nearest(a * f, 1);
    lemma_fraction(num, den);
    if a == 0 {
        assert(0 * f == 0) by (nonlinear_arith);
        assert(x == 0);
    } else {
        assert(a * f >= f) by (nonlinear_arith)
            requires
                a >= 1,
                f >= 0,
        ;
        law_rounding_is_close(a * f, 1);
        let w = (a * f) * den;
        assert(BITS_53 * w <= ((a * num) * ONE) * (BITS_53 + 1)) by (nonlinear_arith)
            requires
                BITS_53 * (den * f) <= (num * ONE) * (BITS_53 + 1),
                w == (a * f) * den,
                0 <= a,
        ;
        assert(BITS_53 * (x * den) <= w * (BITS_53 + 1)) by (nonlinear_arith)
            requires
                BITS_53 * x <= (a * f) * (BITS_53 + 1),
                w == (a * f) * den,
                0 < den,
        ;
        let y = cap * den;
        assert(BITS_53 * (BITS_53 * (x * den)) <= (y * ONE) * (BITS_53 + 1) * (BITS_53 + 1));
        assert(BITS_53 * BITS_53 * x <= (cap * ONE) * (BITS_53 + 1) * (BITS_53 + 1))
            by (nonlinear_arith)
            requires
                BITS_53 * (BITS_53 * (x * den)) <= (y * ONE) * (BITS_53 + 1) * (BITS_53 + 1),
                y == cap * den,
                0 < den,
        ;
    }
}

/// The two sides shrink by one fraction, which fits both axes.
proof fn lemma_shrink_fits(want: Size, src: Size)
    requires
        want.0 > 0,
        want.1 > 0,
        src.0 > 0,
        src.1 > 0,
    ensures
        ({
            let (num, den) = shrink(want, src);
            &&& 0 < num <= den <= u32::MAX
            &&& src.0 * num <= want.0 * den
            &&& src.1 * num <= want.1 * den
            &&& src.0 * num <= src.0 * den
            &&& src.1 * num <= src.1 * den
        }),
{
    let (num, den) = shrink(want, src);
    let (a, b, c, d) = (want.0 as int, want.1 as int, src.0 as int, src.1 as int);
    if a >= c && b >= d {
    } else if a * d <= b * c {
        if a > c {
            assert(a * d > b * c) by (nonlinear_arith)
                requires
                    a > c > 0,
                    0 < b < d,
            ;
        }
        assert(c * a <= a * c && d * a <= b * c) by (nonlinear_arith)
            requires
                a * d <= b * c,
        ;
    } else {
        if b > d {
            assert(a * d < b * c) by (nonlinear_arith)
                requires
                    b > d > 0,
                    0 < a < c,
            ;
        }
        assert(d * b <= b * d && c * b <= a * d) by (nonlinear_arith)
            requires
                a * d > b * c,
        ;
    }
    assert(c * num <= c * den && d * num <= d * den) by (nonlinear_arith)
        requires
            num <= den,
            c > 0,
            d > 0,
    ;
}

fn scale(a: u32, num: u32, den: u32) -> (r: u32)
    requires
        0 < num <= den,
    ensures
        r == at_least_two(even(scaled(a as int, num as int, den as int))),
{
    proof {
        assert(a * num <= a * den) by (nonlinear_arith)
            requires
                num <= den,
                0 <= a,
        ;
        lemma_fraction(num as int, den as int);
        lemma_scaled_bound(a as int, num as int, den as int, a as int);
    }
    let f: u128 = round_quotient(num as u128 * ONE, den as u128);
    assert(a as int * f as int <= 0xffff_ffff * (2 * ONE)) by (nonlinear_arith)
        requires
            a <= 0xffff_ffffu32,
            f <= 2 * ONE,
    ;
    let x: u128 = round_quotient(a as u128 * f, 1);
    let y: u128 = (x + ONE / 2) / ONE;
    let z: u128 = y - y % 2;
    if z < 2 {
        2
    } else {
        z as u32
    }
}

/// The size to encode at for a viewer that shows `want` of a screen of `src`.
pub fn fit_within(want: Size, src: Size) -> (r: Size)
    ensures
        (r.0 as int, r.1 as int) == fitted(want, src),
{
    if want.0 == 0 || want.1 == 0 || src.0 == 0 || src.1 == 0 {
        return src;
    }
    proof {
        lemma_shrink_fits(want, src);
        assert(want.0 as int * src.1 as int <= 0xffff_ffff * 0xffff_ffff && want.1 as int
            * src.0 as int <= 0xffff_ffff * 0xffff_ffff) by (nonlinear_arith)
            requires
                want.0 <= 0xffff_ffffu32,
                want.1 <= 0xffff_ffffu32,
                src.0 <= 0xffff_ffffu32,
                src.1 <= 0xffff_ffffu32,
        ;
    }
    let (num, den): (u32, u32) = if want.0 >= src.0 && want.1 >= src.1 {
        (1, 1)
    } else if want.0 as u64 * src.1 as u64 <= want.1 as u64 * src.0 as u64 {
        (want.0, src.0)
    } else {
        (want.1, src.1)
    };
    (scale(src.0, num, den), scale(src.1, num, den))
}

/// What is encoded fits what is shown and what there is, and has even sides;
/// but no side is ever under two pixels.
pub proof fn law_fitted_size_fits(want: Size, src: Size)
    requires
        want.0 > 0,
        want.1 > 0,
        src.0 > 0,
        src.1 > 0,
    ensures
        fitted(want, src).0 <= at_least_two(want.0 as int),
        fitted(want, src).1 <= at_least_two(want.1 as int),
        fitted(want, src).0 <= at_least_two(src.0 as int),
        fitted(want, src).1 <= at_least_two(src.1 as int),
        fitted(want, src).0 % 2 == 0,
        fitted(want, src).1 % 2 == 0,
{
    let (num, den) = shrink(want, src);
    lemma_shrink_fits(want, src);
    lemma_scaled_bound(src.0 as int, num, den, want.0 as int);
    lemma_scaled_bound(src.1 as int, num, den, want.1 as int);
    lemma_scaled_bound(src.0 as int, num, den, src.0 as int);
    lemma_scaled_bound(src.1 as int, num, den, src.1 as int);
}

proof fn lemma_scaled_by_one(a: int)
    requires
        0 <= a <= u32::MAX,
    ensures
        scaled(a, 1, 1) == a,
{
    lemma2_to64();
    lemma_pow2_adds(64, 21);
    assert(pow2(85) == ONE);
    law_short_numbers_are_kept(1, 1, 85);
    law_short_numbers_are_kept(a, 1, 85);
}

/// A viewer that shows more than there is gets what there is, with even sides.
pub proof fn law_never_upscaled(want: Size, src: Size)
    requires
        want.0 >= src.0 > 0,
        want.1 >= src.1 > 0,
    ensures
        fitted(want, src) == (
            at_least_two(even(src.0 as int)),
            at_least_two(even(src.1 as int)),
        ),
{
    lemma_scaled_by_one(src.0 as int);
    lemma_scaled_by_one(src.1 as int);
}

/// The bit rate for an estimate: the estimate within its bounds, unless that
/// lies within 15 per cent of the current one.
pub open spec fn next_bitrate(current: u32, estimate: u32) -> u32 {
    let next = if estimate < MIN_BITRATE {
        MIN_BITRATE
    } else if estimate > TARGET_BITRATE {
        TARGET_BITRATE
    } else {
        estimate
    };
    let diff = if next > current {
        next - current
    } else {
        current - next
    };
    if diff * 100 > current * 15 {
        next
    } else {
        current
    }
}

/// What the link is taken to carry, for an estimate.
pub open spec fn link_for(estimate: u32) -> u32 {
    if estimate < MIN_LINK {
        MIN_LINK
    } else {
        estimate
    }
}

/// The rates of a host: what the encoder is given, and what the link carries.
#[derive(Debug, Clone, Copy, PartialEq, Eq, Structural)]
pub struct Rates {
    pub bitrate: u32,
    pub link: u32,
}

impl Rates {
    pub open spec fn wf(&self) -> bool {
        MIN_BITRATE <= self.bitrate <= TARGET_BITRATE && self.link >= MIN_LINK
    }

    pub fn new() -> (r: Self)
        ensures
            r.wf(),
            r == (Rates { bitrate: TARGET_BITRATE, link: TARGET_BITRATE }),
            r == (Rates { bitrate: 8_000_000, link: 8_000_000 }),
    {
        Rates { bitrate: TARGET_BITRATE, link: TARGET_BITRATE }
    }

    /// A new estimate of the link. The encoder never gets less than keeps the
    /// picture legible; what the link cannot take comes out of the frame rate.
    pub fn on_estimate(&mut self, bps: u32)
        requires
            old(self).wf(),
        ensures
            final(self).wf(),
            final(self).bitrate == next_bitrate(old(self).bitrate, bps),
            final(self).link == link_for(bps),
            final(self).bitrate > old(self).bitrate && bps >= 2_500_000 ==> final(self).bitrate
                <= bps,
    {
        self.link = if bps < MIN_LINK {
            MIN_LINK
        } else {
            bps
        };
        let next: u32 = if bps < MIN_BITRATE {
            MIN_BITRATE
        } else if bps > TARGET_BITRATE {
            TARGET_BITRATE
        } else {
            bps
        };
        let diff: u32 = if next > self.bitrate {
            next - self.bitrate
        } else {
            self.bitrate - next
        };
        if diff * 100 > self.bitrate * 15 {
            self.bitrate = next;
        }
    }
}

/// Whether decoding can go on.
#[derive(Debug, Clone, Copy, PartialEq, Eq, Structural)]
pub struct KeyGate {
    /// Whether a frame is missing, so that nothing can be decoded before the
    /// next keyframe.
    pub broken: bool,
    /// When a keyframe was last asked for.
    pub last_request: Option<u64>,
}

/// How long two requests for a keyframe lie apart at least.
pub const REQUEST_GAP_MS: u64 = 500;

/// Whether a keyframe may be asked for again.
pub open spec fn may_request(last: Option<u64>, now: u64, gap: u64) -> bool {
    last is None || elapsed(now, last->0) >= gap
}

/// Whether decoding is interrupted once a frame has come.
pub open spec fn broken_after(broken: bool, keyframe: bool, contiguous: bool) -> bool {
    !keyframe && (broken || !contiguous)
}

impl KeyGate {
    pub fn new() -> (g: Self)
        ensures
            g == (KeyGate { broken: false, last_request: None }),
    {
        KeyGate { broken: false, last_request: None }
    }

    /// A frame has come; `contiguous` if none is missing before it. Tells
    /// whether it can be decoded, and whether to ask for a keyframe.
    pub fn on_frame(&mut self, keyframe: bool, contiguous: bool, now: u64) -> (r: (bool, bool))
        ensures
            final(self).broken == broken_after(old(self).broken, keyframe, contiguous),
            r.0 == !final(self).broken,
            r.1 == (final(self).broken && may_request(
                old(self).last_request,
                now,
                REQUEST_GAP_MS,
            )),
            final(self).last_request == (if r.1 {
                Some(now)
            } else {
                old(self).last_request
            }),
    {
        if !contiguous && !keyframe {
            self.broken = true;
        }
        if self.broken && keyframe {
            self.broken = false;
        }
        if !self.broken {
            return (true, false);
        }
        let ask: bool = match self.last_request {
            None => true,
            Some(t) => now.saturating_sub(t) >= REQUEST_GAP_MS,
        };
        if ask {
            self.last_request = Some(now);
        }
        (false, ask)
    }
}

/// Whether decoding is interrupted after some frames, each a pair of whether
/// it is a keyframe and whether it is contiguous.
pub open spec fn broken_by(frames: Seq<(bool, bool)>) -> bool
    decreases frames.len(),
{
    if frames.len() == 0 {
        false
    } else {
        broken_after(broken_by(frames.drop_last()), frames.last().0, frames.last().1)
    }
}

/// Whether a frame is missing since the last keyframe.
pub open spec fn has_open_gap(frames: Seq<(bool, bool)>) -> bool {
    exists|i: int|
        0 <= i < frames.len() && !(#[trigger] frames[i]).0 && !frames[i].1 && forall|j: int|
            i < j < frames.len() ==> !(#[trigger] frames[j]).0
}

/// A frame is decoded exactly if no frame is missing between the last keyframe
/// and itself: nothing is ever decoded across a gap.
pub proof fn law_nothing_is_decoded_across_a_gap(frames: Seq<(bool, bool)>)
    ensures
        broken_by(frames) <==> has_open_gap(frames),
    decreases frames.len(),
{
    if frames.len() > 0 {
        let rest = frames.drop_last();
        let last = frames.len() - 1;
        law_nothing_is_decoded_across_a_gap(rest);
        if frames.last().0 {
            assert forall|i: int|
                0 <= i < frames.len() && !(#[trigger] frames[i]).0 && !frames[i].1 implies !(
            forall|j: int| i < j < frames.len() ==> !(#[trigger] frames[j]).0) by {
                assert(frames[last].0);
            }
        } else if !frames.last().1 {
            assert(!frames[last].0 && !frames[last].1);
        } else {
            if has_open_gap(rest) {
                let i = choose|i: int|
                    0 <= i < rest.len() && !(#[trigger] rest[i]).0 && !rest[i].1 && forall|j: int|
                        i < j < rest.len() ==> !(#[trigger] rest[j]).0;
                assert(frames[i] == rest[i]);
                assert forall|j: int| i < j < frames.len() implies !(#[trigger] frames[j]).0 by {
                    if j < rest.len() {
                        assert(rest[j] == frames[j]);
                    }
                }
            }
            if has_open_gap(frames) {
                let i = choose|i: int|
                    0 <= i < frames.len() && !(#[trigger] frames[i]).0 && !frames[i].1 && forall|
                        j: int,
                    |
                        i < j < frames.len() ==> !(#[trigger] frames[j]).0;
                assert(i < rest.len());
                assert(rest[i] == frames[i]);
                assert forall|j: int| i < j < rest.len() implies !(#[trigger] rest[j]).0 by {
                    assert(frames[j] == rest[j]);
                }
            }
        }
    }
}

/// How long to wait before the next frame is captured.
pub fn frame_wait_ms(since_last: u64) -> (ms: u64)
    ensures
        ms == (if since_last < MIN_FRAME_GAP_MS {
            MIN_FRAME_GAP_MS - since_last
        } else {
            0
        }),
        ms == frame_wait(since_last as int),
        since_last + ms >= 33,
        ms > 0 ==> since_last + ms == 33,
{
    if since_last < MIN_FRAME_GAP_MS {
        MIN_FRAME_GAP_MS - since_last
    } else {
        0
    }
}

/// How many bytes a link carries in some seconds and nanoseconds.
pub open spec fn drained(link: u32, secs: u32, nanos: u32) -> int {
    bytes_in(link, seconds(secs, nanos))
}

/// What is left of a debt.
pub open spec fn debt_left(debt: u64, link: u32, secs: u32, nanos: u32) -> int {
    if debt > drained(link, secs, nanos) {
        debt - drained(link, secs, nanos)
    } else {
        0
    }
}

proof fn lemma_part(nanos: u32)
    requires
        nanos < 1_000_000_000,
    ensures
        0 <= nearest(nanos * ONE, 1_000_000_000) <= 2 * ONE,
{
    if nanos == 0 {
        assert(nearest(0, 1_000_000_000) == 0);
    } else {
        law_rounding_is_close(nanos * ONE, 1_000_000_000);
    }
}

proof fn lemma_time(secs: u32, nanos: u32)
    requires
        nanos < 1_000_000_000,
    ensures
        ({
            let whole = secs * ONE + nearest(nanos * ONE, 1_000_000_000);
            &&& 0 <= whole <= secs * ONE + 2 * ONE
            &&& 0 <= seconds(secs, nanos) <= 2 * whole
            &&& secs > 0 ==> 2 * seconds(secs, nanos) >= whole
        }),
{
    lemma_part(nanos);
    let whole = secs * ONE + nearest(nanos * ONE, 1_000_000_000);
    if whole >= 0x10_0000_0000_0000 {
        law_rounding_is_close(whole, 1);
    } else {
        assert(whole / 1 == whole && whole % 1 == 0) by (nonlinear_arith);
        assert(seconds(secs, nanos) == whole);
    }
}

/// From one second on, a time is a multiple of 2^33 units.
proof fn lemma_long_time(link: u32, secs: u32, nanos: u32)
    requires
        nanos < 1_000_000_000,
        link >= MIN_LINK,
        secs > 0,
    ensures
        ({
            let short = seconds(secs, nanos) / 0x2_0000_0000;
            &&& 0 <= short <= 2 * ONE
            &&& drained(link, secs, nanos) == nearest(link * short, 8) / 0x10_0000_0000_0000
        }),
{
    let whole = secs * ONE + nearest(nanos * ONE, 1_000_000_000);
    let time = seconds(secs, nanos);
    lemma_time(secs, nanos);
    lemma_part(nanos);
    lemma2_to64();
    lemma_pow2_adds(32, 1);
    assert(pow2(33) == 0x2_0000_0000);
    lemma_nearest_divides(whole, 1, 33);
    let short = nearest(whole, 0x2_0000_0000);
    assert(time == 0x2_0000_0000 * short);
    assert(link * time == 0x2_0000_0000 * (link * short)) by (nonlinear_arith)
        requires
            time == 0x2_0000_0000 * short,
    ;
    assert(link * short >= MIN_LINK * short) by (nonlinear_arith)
        requires
            link >= MIN_LINK,
            short >= 0,
    ;
    lemma_nearest_scaled(link * short, 8, 33);
}

/// How many bytes may be ahead of the link: what it carries in the time of a
/// frame at the lowest frame rate.
pub open spec fn debt_limit(link: u32) -> int {
    link as int / 8 / MIN_FPS as int
}

fn carried(link: u32, secs: u32, nanos: u32) -> (bytes: u128)
    requires
        nanos < 1_000_000_000,
        link >= MIN_LINK,
    ensures
        bytes == drained(link, secs, nanos),
{
    let part: u128 = round_quotient(nanos as u128 * ONE, 1_000_000_000);
    proof {
        lemma_part(nanos);
        lemma_time(secs, nanos);
    }
    let time: u128 = round_quotient(secs as u128 * ONE + part, 1);
    if secs == 0 {
        assert(link as int * time as int <= 0xffff_ffff * (4 * ONE)) by (nonlinear_arith)
            requires
                link <= 0xffff_ffffu32,
                time <= 4 * ONE,
        ;
        round_quotient(link as u128 * time, 8) / ONE
    } else {
        let short: u128 = time / 0x2_0000_0000;
        proof {
            lemma_long_time(link, secs, nanos);
            assert(link as int * short as int <= 0xffff_ffff * (2 * ONE)) by (nonlinear_arith)
                requires
                    link <= 0xffff_ffffu32,
                    short <= 2 * ONE,
            ;
        }
        round_quotient(link as u128 * short, 8) / 0x10_0000_0000_0000
    }
}

/// Paces the source: counts the bytes that the encoder gave and that the link
/// cannot have carried yet.
#[derive(Debug, Clone, Copy, PartialEq, Eq, Structural)]
pub struct Pacer {
    pub debt_bytes: u64,
}

impl Pacer {
    pub fn new() -> (p: Self)
        ensures
            p.debt_bytes == 0,
    {
        Pacer { debt_bytes: 0 }
    }

    /// Time has passed over a link. Tells whether a frame may be captured: not
    /// while too much is ahead of the link, unless a keyframe is wanted.
    pub fn may_capture(&mut self, link_bps: u32, secs: u32, nanos: u32, want_key: bool) -> (yes:
        bool)
        requires
            nanos < 1_000_000_000,
        ensures
            final(self).debt_bytes == debt_left(
                old(self).debt_bytes,
                link_for(link_bps),
                secs,
                nanos,
            ),
            yes == (want_key || final(self).debt_bytes <= debt_limit(link_for(link_bps))),
    {
        let link: u32 = if link_bps < MIN_LINK {
            MIN_LINK
        } else {
            link_bps
        };
        let gone: u128 = carried(link, secs, nanos);
        self.debt_bytes = if self.debt_bytes as u128 > gone {
            self.debt_bytes - gone as u64
        } else {
            0
        };
        want_key || self.debt_bytes <= (link / 8 / MIN_FPS) as u64
    }

    /// The encoder gave this many bytes.
    pub fn charge(&mut self, bytes: usize)
        requires
            old(self).debt_bytes + bytes <= u64::MAX,
        ensures
            final(self).debt_bytes == old(self).debt_bytes + bytes,
    {
        self.debt_bytes = self.debt_bytes + bytes as u64;
    }
}

/// However much is ahead of it, a link that carries at least a debt's worth of
/// bytes in some time has the debt cleared by then.
pub proof fn law_debt_is_cleared_in_time(debt: u64, link: u32, secs: u32, nanos: u32)
    requires
        drained(link, secs, nanos) >= debt,
    ensures
        debt_left(debt, link, secs, nanos) == 0,
{
}

/// When keyframes that were asked for are sent.
#[derive(Debug, Clone, Copy, PartialEq, Eq, Structural)]
pub struct KeyLimiter {
    /// Whether one has been asked for and not sent.
    pub wanted: bool,
    /// When one was last sent.
    pub last: Option<u64>,
}

/// Whether a keyframe is sent with the next frame.
pub open spec fn key_now(k: KeyLimiter, now: u64) -> bool {
    k.wanted && may_request(k.last, now, MIN_KEYFRAME_GAP_MS)
}

impl KeyLimiter {
    pub fn new() -> (k: Self)
        ensures
            k == (KeyLimiter { wanted: false, last: None }),
    {
        KeyLimiter { wanted: false, last: None }
    }

    /// A keyframe is asked for.
    pub fn request(&mut self)
        ensures
            *final(self) == (KeyLimiter { wanted: true, ..*old(self) }),
    {
        self.wanted = true;
    }

    /// A frame was captured; `changed` if the screen has. Tells whether to
    /// encode it, and whether as a keyframe. A request that comes too soon is
    /// not dropped but put off.
    pub fn on_capture(&mut self, changed: bool, now: u64) -> (r: (bool, bool))
        ensures
            r.1 == key_now(*old(self), now),
            r.0 == (changed || r.1),
            *final(self) == (if r.1 {
                KeyLimiter { wanted: false, last: Some(now) }
            } else {
                *old(self)
            }),
    {
        let due: bool = match self.last {
            None => true,
            Some(t) => now.saturating_sub(t) >= MIN_KEYFRAME_GAP_MS,
        };
        let key: bool = self.wanted && due;
        if key {
            self.wanted = false;
            self.last = Some(now);
        }
        (changed || key, key)
    }
}

/// Two keyframes that were asked for lie at least a second apart, and a
/// request stays open until it is honoured.
pub proof fn law_keyframes_are_spaced(k: KeyLimiter, now: u64)
    ensures
        key_now(k, now) && k.last is Some ==> elapsed(now, k.last->0) >= MIN_KEYFRAME_GAP_MS,
        k.wanted && k.last is Some && now - k.last->0 >= MIN_KEYFRAME_GAP_MS ==> key_now(k, now),
{
}

/// Whether a captured frame shows a change, other than of the pointer.
pub fn has_change(pointer_only: bool, dirty_rects: usize, move_rects: usize) -> (yes: bool)
    ensures
        yes == (!pointer_only && (dirty_rects > 0 || move_rects > 0)),
        yes == shows_change(pointer_only, dirty_rects as int, move_rects as int),
{
    !pointer_only && (dirty_rects > 0 || move_rects > 0)
}

/// The size that an encoder works at.
#[derive(Debug, Clone, Copy, PartialEq, Eq)]
pub struct EncoderSize {
    /// The size of the screen.
    pub screen: (u32, u32),
    pub current: (u32, u32),
    /// A size that the encoder has refused.
    pub rejected: Option<(u32, u32)>,
}

/// A size with even sides, as encoders want it, and none under two.
pub open spec fn evened(size: (int, int)) -> (int, int) {
    (at_least_two(even(size.0)), at_least_two(even(size.1)))
}

/// The size that a viewer calls for; 0 if it has not said. Its sides are even.
pub open spec fn wanted_size(screen: Size, view_size: u64) -> (int, int) {
    evened(
        if view_size == 0 {
            (screen.0 as int, screen.1 as int)
        } else {
            fitted(
                (
                    (view_size as int / 0x1_0000_0000) as u32,
                    (view_size as int % 0x1_0000_0000) as u32,
                ),
                screen,
            )
        },
    )
}

fn evened_size(size: Size) -> (r: Size)
    ensures
        (r.0 as int, r.1 as int) == evened((size.0 as int, size.1 as int)),
{
    let w: u32 = size.0 - size.0 % 2;
    let h: u32 = size.1 - size.1 % 2;
    (
        if w < 2 {
            2
        } else {
            w
        },
        if h < 2 {
            2
        } else {
            h
        },
    )
}

impl EncoderSize {
    /// The size to begin with: that of the screen, with even sides.
    pub fn new(screen: Size) -> (s: Self)
        ensures
            s.screen == screen,
            (s.current.0 as int, s.current.1 as int) == wanted_size(screen, 0),
            s.rejected is None,
    {
        EncoderSize { screen, current: evened_size(screen), rejected: None }
    }

    /// The size to rebuild the encoder for, if that is called for: it differs
    /// from the current one and was not refused before.
    pub fn rebuild_for(&self, view_size: u64) -> (r: Option<Size>)
        ensures
            ({
                let want = wanted_size(self.screen, view_size);
                let changed = want != (self.current.0 as int, self.current.1 as int);
                let refused = self.rejected is Some && want == (
                    self.rejected->Some_0.0 as int,
                    self.rejected->Some_0.1 as int,
                );
                &&& r is Some <==> changed && !refused
                &&& r is Some ==> (r->Some_0.0 as int, r->Some_0.1 as int) == want
            }),
    {
        let want: Size = evened_size(
            if view_size == 0 {
                self.screen
            } else {
                fit_within(unpack(view_size), self.screen)
            },
        );
        let same: bool = want.0 == self.current.0 && want.1 == self.current.1;
        let refused: bool = match self.rejected {
            Some(r) => r.0 == want.0 && r.1 == want.1,
            None => false,
        };
        if !same && !refused {
            Some(want)
        } else {
            None
        }
    }

    /// The encoder was rebuilt, or refused to be. A refused size is not tried
    /// again, and the work goes on at the current one.
    pub fn rebuilt(&mut self, want: Size, ok: bool)
        ensures
            *final(self) == (if ok {
                EncoderSize { current: want, rejected: None, ..*old(self) }
            } else {
                EncoderSize { rejected: Some(want), ..*old(self) }
            }),
            *final(self) == after_rebuild(*old(self), want, ok),
    {
        if ok {
            self.current = want;
            self.rejected = None;
        } else {
            self.rejected = Some(want);
        }
    }
}

/// How many frames may queue up before the viewer gives them up.
pub const MAX_BACKLOG: usize = 6;

/// How long two of the viewer's requests for a keyframe lie apart at least.
pub const VIEWER_REQUEST_GAP_MS: u64 = 1_000;

/// How many frames in a row may fail to decode.
pub const MAX_UNDECODED: u32 = 5;

/// How a viewer keeps up with the host.
#[derive(Debug, Clone, Copy, PartialEq, Eq, Structural)]
pub struct CatchUp {
    /// Whether frames were given up, so that only a keyframe helps.
    pub awaiting_keyframe: bool,
    /// When a keyframe was last asked for.
    pub last_request: u64,
    /// How many frames in a row have failed to decode.
    pub undecoded: u32,
}

/// The place of the newest keyframe; -1 if there is none.
pub open spec fn newest_keyframe(keys: Seq<bool>) -> int
    decreases keys.len(),
{
    if keys.len() == 0 {
        -1
    } else if keys.last() {
        keys.len() - 1
    } else {
        newest_keyframe(keys.drop_last())
    }
}

/// How many of the frames that have queued up are skipped.
pub open spec fn to_skip(c: CatchUp, keys: Seq<bool>) -> int {
    let k = newest_keyframe(keys);
    if k >= 0 {
        k
    } else if c.awaiting_keyframe || keys.len() > MAX_BACKLOG {
        keys.len() as int
    } else {
        0
    }
}

/// Whether a keyframe is asked for.
pub open spec fn to_request(c: CatchUp, keys: Seq<bool>, now: u64) -> bool {
    newest_keyframe(keys) < 0 && if c.awaiting_keyframe {
        elapsed(now, c.last_request) >= VIEWER_REQUEST_GAP_MS
    } else {
        keys.len() > MAX_BACKLOG
    }
}

impl CatchUp {
    pub fn new(now: u64) -> (c: Self)
        ensures
            c == (CatchUp { awaiting_keyframe: false, last_request: now, undecoded: 0 }),
    {
        CatchUp { awaiting_keyframe: false, last_request: now, undecoded: 0 }
    }

    /// Frames have queued up, some of them keyframes. Tells how many of them
    /// to skip, and whether to ask for a keyframe. From the newest keyframe on
    /// decoding is always possible, and anything older only costs time.
    pub fn on_batch(&mut self, keys: &[bool], now: u64) -> (r: (usize, bool))
        ensures
            r.0 == to_skip(*old(self), keys@),
            r.1 == to_request(*old(self), keys@, now),
            *final(self) == (CatchUp {
                awaiting_keyframe: newest_keyframe(keys@) < 0 && r.0 > 0 || newest_keyframe(keys@)
                    < 0 && old(self).awaiting_keyframe,
                last_request: if r.1 {
                    now
                } else {
                    old(self).last_request
                },
                ..*old(self)
            }),
    {
        let n: usize = keys.len();
        let mut k: usize = n;
        assert(keys@.take(n as int) =~= keys@);
        while k > 0
            invariant
                k <= n == keys@.len(),
                newest_keyframe(keys@) == newest_keyframe(keys@.take(k as int)),
                *self == *old(self),
            decreases k,
        {
            assert(keys@.take(k as int).drop_last() =~= keys@.take(k - 1));
            assert(keys@.take(k as int).last() == keys@[k - 1]);
            if keys[k - 1] {
                self.awaiting_keyframe = false;
                return (k - 1, false);
            }
            k -= 1;
        }
        assert(newest_keyframe(keys@) == -1);
        if self.awaiting_keyframe {
            let ask: bool = now.saturating_sub(self.last_request) >= VIEWER_REQUEST_GAP_MS;
            if ask {
                self.last_request = now;
            }
            return (n, ask);
        }
        if n > MAX_BACKLOG {
            self.awaiting_keyframe = true;
            self.last_request = now;
            return (n, true);
        }
        (0, false)
    }

    /// A frame has been decoded, or the decoder gave nothing for it. Tells
    /// whether to ask for a keyframe.
    pub fn on_decoded(&mut self, got: bool, now: u64) -> (ask: bool)
        ensures
            final(self).awaiting_keyframe == old(self).awaiting_keyframe,
            final(self).undecoded == (if got {
                0
            } else if old(self).undecoded == u32::MAX {
                u32::MAX as int
            } else {
                old(self).undecoded + 1
            }),
            ask == (!got && final(self).undecoded >= MAX_UNDECODED && elapsed(
                now,
                old(self).last_request,
            ) >= VIEWER_REQUEST_GAP_MS),
            ask <==> !got && old(self).undecoded >= 4 && now - old(self).last_request >= 1_000,
            final(self).last_request == (if ask {
                now
            } else {
                old(self).last_request
            }),
    {
        if got {
            self.undecoded = 0;
            return false;
        }
        self.undecoded = self.undecoded.saturating_add(1);
        if self.undecoded >= MAX_UNDECODED && now.saturating_sub(self.last_request)
            >= VIEWER_REQUEST_GAP_MS {
            self.last_request = now;
            return true;
        }
        false
    }
}

proof fn lemma_newest(keys: Seq<bool>)
    ensures
        -1 <= newest_keyframe(keys) < keys.len() || keys.len() == 0 && newest_keyframe(keys) == -1,
        newest_keyframe(keys) >= 0 ==> keys[newest_keyframe(keys)],
        forall|i: int| newest_keyframe(keys) < i < keys.len() && i >= 0 ==> !#[trigger] keys[i],
    decreases keys.len(),
{
    if keys.len() > 0 && !keys.last() {
        let rest = keys.drop_last();
        lemma_newest(rest);
        assert forall|i: int| newest_keyframe(keys) < i < keys.len() && i >= 0 implies
            !#[trigger] keys[i] by {
            if i < rest.len() {
                assert(rest[i] == keys[i]);
            }
        }
    }
}

/// A viewer that has given frames up decodes nothing before a keyframe, and if
/// a keyframe has queued up, decoding begins with the newest.
pub proof fn law_catching_up_starts_at_a_keyframe(c: CatchUp, keys: Seq<bool>)
    requires
        to_skip(c, keys) < keys.len(),
    ensures
        c.awaiting_keyframe || newest_keyframe(keys) >= 0 ==> keys[to_skip(c, keys)],
        forall|i: int| to_skip(c, keys) < i < keys.len() ==> !#[trigger] keys[i],
{
    lemma_newest(keys);
}

/// Whether the frame that was decoded as the `i`th of `count` is shown: only
/// the last one is, and the others are there for it to build on.
pub fn presents(i: usize, count: usize) -> (yes: bool)
    ensures
        yes == (i + 1 == count),
        yes == is_shown(i as int, count as int),
{
    i < count && count - i == 1
}

/// Of the frames that have queued up, only the newest can be shown: the last of
/// those that are decoded is the last that came.
pub proof fn law_only_the_newest_is_shown(c: CatchUp, keys: Seq<bool>, i: int)
    requires
        0 <= i < keys.len() - to_skip(c, keys),
    ensures
        i + 1 == keys.len() - to_skip(c, keys) <==> to_skip(c, keys) + i == keys.len() - 1,
{
}

/// A viewer is never more than six frames behind without resynchronising.
pub proof fn law_backlog_is_bounded(c: CatchUp, keys: Seq<bool>)
    requires
        newest_keyframe(keys) < 0,
    ensures
        keys.len() - to_skip(c, keys) <= MAX_BACKLOG,
{
}

/// How long a window's size must stay the same before it is reported.
pub const SIZE_SETTLE_MS: u64 = 600;

/// Below this size nothing is reported.
pub const MIN_VIEW: (u32, u32) = (320, 240);

/// Reports the size of the viewer's window, once it has settled.
#[derive(Debug, Clone, Copy, PartialEq, Eq)]
pub struct SizeReport {
    pub reported: (u32, u32),
    pub pending: (u32, u32),
    pub settled_at: u64,
}

impl SizeReport {
    pub fn new(now: u64) -> (s: Self)
        ensures
            s == (SizeReport { reported: (0, 0), pending: (0, 0), settled_at: now }),
    {
        SizeReport { reported: (0, 0), pending: (0, 0), settled_at: now }
    }

    /// The window has this size now. Gives the size to report, if it is to be.
    pub fn on_size(&mut self, size: Size, now: u64) -> (r: Option<Size>)
        ensures
            size != old(self).pending ==> r is None && *final(self) == (SizeReport {
                pending: size,
                settled_at: now,
                ..*old(self)
            }),
            size == old(self).pending ==> {
                let ready = size != old(self).reported && size.0 >= MIN_VIEW.0 && size.1
                    >= MIN_VIEW.1 && elapsed(now, old(self).settled_at) >= SIZE_SETTLE_MS;
                &&& r == (if ready {
                    Some(size)
                } else {
                    None
                })
                &&& *final(self) == (if ready {
                    SizeReport { reported: size, ..*old(self) }
                } else {
                    *old(self)
                })
            },
            r is Some <==> size == old(self).pending && size != old(self).reported && size.0 >= 320
                && size.1 >= 240 && now - old(self).settled_at >= 600,
    {
        if size.0 != self.pending.0 || size.1 != self.pending.1 {
            self.pending = size;
            self.settled_at = now;
            return None;
        }
        let known: bool = size.0 == self.reported.0 && size.1 == self.reported.1;
        if !known && size.0 >= 320 && size.1 >= 240 && now.saturating_sub(self.settled_at)
            >= SIZE_SETTLE_MS {
            self.reported = size;
            return Some(size);
        }
        None
    }
}

/// What a host is to do in one pass of its capture loop.
#[derive(Debug, Clone, Copy)]
pub struct PassPlan {
    /// The bit rate to give the encoder, if it changes.
    pub set_bitrate: Option<u32>,
    /// The size to rebuild the encoder for, if it changes.
    pub rebuild: Option<(u32, u32)>,
    /// Whether to capture a frame.
    pub capture: bool,
}

/// The capture loop of a host.
#[derive(Debug, Clone, Copy)]
pub struct HostLoop {
    pub size: EncoderSize,
    pub pacer: Pacer,
    pub keys: KeyLimiter,
    /// The bit rate that the encoder was last given.
    pub applied: u32,
}

impl HostLoop {
    /// A loop over a screen of this size.
    pub fn new(screen: Size, bitrate: u32) -> (h: Self)
        ensures
            h.size.screen == screen,
            (h.size.current.0 as int, h.size.current.1 as int) == wanted_size(screen, 0),
            h.size.rejected is None,
            h.pacer.debt_bytes == 0,
            h.keys == (KeyLimiter { wanted: false, last: None }),
            h.applied == bitrate,
    {
        HostLoop {
            size: EncoderSize::new(screen),
            pacer: Pacer::new(),
            keys: KeyLimiter::new(),
            applied: bitrate,
        }
    }

    /// One pass begins, so many seconds and nanoseconds after the last one: with
    /// this bit rate, link and viewer's size, and `key_wanted` if a keyframe is
    /// asked for.
    pub fn begin_pass(
        &mut self,
        bitrate: u32,
        link_bps: u32,
        view_size: u64,
        key_wanted: bool,
        secs: u32,
        nanos: u32,
    ) -> (p: PassPlan)
        requires
            nanos < 1_000_000_000,
        ensures
            final(self).size == old(self).size,
            final(self).applied == bitrate,
            final(self).keys == (KeyLimiter {
                wanted: old(self).keys.wanted || key_wanted,
                ..old(self).keys
            }),
            final(self).pacer.debt_bytes == debt_left(
                old(self).pacer.debt_bytes,
                link_for(link_bps),
                secs,
                nanos,
            ),
            p.set_bitrate == (if bitrate != old(self).applied {
                Some(bitrate)
            } else {
                None
            }),
            p.capture == (final(self).keys.wanted || final(self).pacer.debt_bytes <= debt_limit(
                link_for(link_bps),
            )),
            ({
                let size = old(self).size;
                let want = wanted_size(size.screen, view_size);
                let changed = want != (size.current.0 as int, size.current.1 as int);
                let refused = size.rejected is Some && want == (
                    size.rejected->Some_0.0 as int,
                    size.rejected->Some_0.1 as int,
                );
                &&& p.rebuild is Some <==> changed && !refused
                &&& p.rebuild is Some ==> (
                    p.rebuild->Some_0.0 as int,
                    p.rebuild->Some_0.1 as int,
                ) == want
            }),
    {
        let set_bitrate: Option<u32> = if bitrate != self.applied {
            Some(bitrate)
        } else {
            None
        };
        self.applied = bitrate;
        if key_wanted {
            self.keys.request();
        }
        let rebuild: Option<(u32, u32)> = self.size.rebuild_for(view_size);
        let capture: bool = self.pacer.may_capture(link_bps, secs, nanos, self.keys.wanted);
        PassPlan { set_bitrate, rebuild, capture }
    }
}

/// The bit rate goes to what the link is estimated to carry, between 2.5 and 8
/// million bits a second, as soon as that lies more than 15 per cent from the
/// current one; until then it stays. So it never rises above an estimate that
/// lies in those bounds.
pub proof fn law_bit_rate_follows_the_estimate(current: u32, estimate: u32, clamped: u32)
    requires
        clamped == (if estimate < 2_500_000 {
            2_500_000u32
        } else if estimate > 8_000_000 {
            8_000_000u32
        } else {
            estimate
        }),
    ensures
        (clamped - current) * 100 > current * 15 || (current - clamped) * 100 > current * 15
            ==> next_bitrate(current, estimate) == clamped,
        (clamped - current) * 100 <= current * 15 && (current - clamped) * 100 <= current * 15
            ==> next_bitrate(current, estimate) == current,
        next_bitrate(current, estimate) > current && estimate >= 2_500_000 ==> next_bitrate(
            current,
            estimate,
        ) <= estimate,
{
}

/// The link is taken to carry what the estimate says, and never less than a
/// hundred thousand bits a second.
pub proof fn law_link_is_the_estimate(estimate: u32)
    ensures
        estimate >= 100_000 ==> link_for(estimate) == estimate,
        estimate < 100_000 ==> link_for(estimate) == 100_000,
{
}

/// The source may be ahead of the link by what the link carries in a quarter of
/// a second, and what it carries in some time comes off what it owes.
pub proof fn law_debt_is_a_quarter_of_a_second(debt: u64, link: u32, secs: u32, nanos: u32)
    ensures
        32 * debt_limit(link) <= link < 32 * (debt_limit(link) + 1),
        debt_left(debt, link, secs, nanos) >= 0,
        debt_left(debt, link, secs, nanos) >= debt - drained(link, secs, nanos),
        debt_left(debt, link, secs, nanos) > 0 ==> debt_left(debt, link, secs, nanos) + drained(
            link,
            secs,
            nanos,
        ) == debt,
{
}

/// A link carries an eighth of its bits a second in bytes, to one part in a
/// thousand million and one byte.
pub proof fn law_link_carries_its_rate(link: u32, secs: u32, nanos: u32)
    requires
        nanos < 1_000_000_000,
        link >= 100_000,
    ensures
        ({
            let exact = link * (secs * 1_000_000_000 + nanos);
            let got = drained(link, secs, nanos) * 8_000_000_000;
            &&& got * 1_000_000_000 <= exact * 1_000_000_001
            &&& (got + 8_000_000_000) * 1_000_000_001 >= exact * 1_000_000_000
        }),
{
    let part = nearest(nanos * ONE, 1_000_000_000);
    let whole = secs * ONE + part;
    let time = seconds(secs, nanos);
    let total = secs * 1_000_000_000 + nanos;
    let bits = link * time;
    lemma_part(nanos);
    if total == 0 {
        assert(part == 0) by {
            assert(nearest(0, 1_000_000_000) == 0);
        }
        assert(time == 0) by {
            assert(nearest(0, 1) == 0);
        }
        assert(link * 0 == 0) by (nonlinear_arith);
        assert(nearest(0, 8) == 0);
        assert(link * total == 0) by (nonlinear_arith)
            requires
                total == 0,
        ;
    } else {
        if nanos == 0 {
            assert(nearest(0, 1_000_000_000) == 0);
        } else {
            law_rounding_is_close(nanos * ONE, 1_000_000_000);
        }
        // The time in units, times a thousand million, lies close to the total.
        assert(BITS_53 * (1_000_000_000 * whole) <= (total * ONE) * (BITS_53 + 1));
        assert((total * ONE) * (BITS_53 - 1) <= BITS_53 * (1_000_000_000 * whole));
        law_rounding_is_close(whole, 1);
        assert(time * 1 == time) by (nonlinear_arith);
        assert(whole * (BITS_53 - 1) <= BITS_53 * time <= whole * (BITS_53 + 1));
        assert(100_000 * time <= bits) by (nonlinear_arith)
            requires
                link >= 100_000,
                time >= 0,
                bits == link * time,
        ;
        law_rounding_is_close(bits, 8);
        let n = nearest(bits, 8);
        let x = link * total;
        let y = link * whole;
        assert(BITS_53 * (1_000_000_000 * y) <= (x * ONE) * (BITS_53 + 1)) by (nonlinear_arith)
            requires
                BITS_53 * (1_000_000_000 * whole) <= (total * ONE) * (BITS_53 + 1),
                x == link * total,
                y == link * whole,
                link >= 0,
        ;
        assert((x * ONE) * (BITS_53 - 1) <= BITS_53 * (1_000_000_000 * y)) by (nonlinear_arith)
            requires
                (total * ONE) * (BITS_53 - 1) <= BITS_53 * (1_000_000_000 * whole),
                x == link * total,
                y == link * whole,
                link >= 0,
        ;
        assert(BITS_53 * bits <= y * (BITS_53 + 1) && y * (BITS_53 - 1) <= BITS_53 * bits)
            by (nonlinear_arith)
            requires
                whole * (BITS_53 - 1) <= BITS_53 * time <= whole * (BITS_53 + 1),
                y == link * whole,
                bits == link * time,
                link >= 0,
        ;
        assert(0 <= x) by (nonlinear_arith)
            requires
                x == link * total,
                link >= 0,
                total >= 0,
        ;
    }
}

/// Keyframes that were asked for lie a second apart at least, and the viewer
/// asks for one every half second at most while it waits.
pub proof fn law_keyframe_gaps(k: KeyLimiter, last: Option<u64>, now: u64)
    ensures
        key_now(k, now) <==> k.wanted && (k.last is None || now >= k.last->0 && now - k.last->0
            >= 1_000),
        may_request(last, now, REQUEST_GAP_MS) <==> last is None || now >= last->0 && now - last->0
            >= 500,
{
}

/// A keyframe ends every interruption, a frame behind a gap begins one, and
/// nothing else does either.
pub proof fn law_interruptions_end_with_a_keyframe(broken: bool, keyframe: bool, contiguous: bool)
    ensures
        keyframe ==> !broken_after(broken, keyframe, contiguous),
        !keyframe && !contiguous ==> broken_after(broken, keyframe, contiguous),
        !keyframe && contiguous ==> broken_after(broken, keyframe, contiguous) == broken,
{
}

/// A viewer that has fallen behind starts again at the newest keyframe. Without
/// one it gives up what has queued up once that is more than six frames, or
/// while it waits for a keyframe; otherwise it skips nothing.
pub proof fn law_viewers_skip_only_when_behind(c: CatchUp, keys: Seq<bool>, k: int)
    requires
        -1 <= k < keys.len(),
        k >= 0 ==> keys[k],
        forall|i: int| k < i < keys.len() ==> !#[trigger] keys[i],
    ensures
        k >= 0 ==> to_skip(c, keys) == k,
        k < 0 && (c.awaiting_keyframe || keys.len() > 6) ==> to_skip(c, keys) == keys.len(),
        k < 0 && !c.awaiting_keyframe && keys.len() <= 6 ==> to_skip(c, keys) == 0,
{
    lemma_newest(keys);
    if newest_keyframe(keys) < k {
        assert(!keys[k]);
    }
}

/// A viewer asks for a keyframe when it gives frames up, and again every second
/// while it waits for one; never when one has come.
pub proof fn law_viewers_ask_when_they_give_up(c: CatchUp, keys: Seq<bool>, now: u64, k: int)
    requires
        -1 <= k < keys.len(),
        k >= 0 ==> keys[k],
        forall|i: int| k < i < keys.len() ==> !#[trigger] keys[i],
    ensures
        k >= 0 ==> !to_request(c, keys, now),
        k < 0 && !c.awaiting_keyframe ==> (to_request(c, keys, now) <==> keys.len() > 6),
        k < 0 && c.awaiting_keyframe ==> (to_request(c, keys, now) <==> now >= c.last_request && now
            - c.last_request >= 1_000),
{
    lemma_newest(keys);
    if newest_keyframe(keys) < k {
        assert(!keys[k]);
    }
}

/// What a viewer calls for has even sides and fits what it shows, given as the
/// width above the height in one number; without a word from it, it is the
/// screen but for an odd pixel.
pub proof fn law_viewers_get_the_size_they_show(screen: Size, w: u32, h: u32, view: u64)
    requires
        screen.0 >= 2,
        screen.1 >= 2,
        view as int == w * 0x1_0000_0000 + h,
    ensures
        wanted_size(screen, view).0 % 2 == 0 && wanted_size(screen, view).1 % 2 == 0,
        2 <= wanted_size(screen, view).0 <= screen.0 && 2 <= wanted_size(screen, view).1 <= screen.1,
        w >= 2 && h >= 2 ==> wanted_size(screen, view).0 <= w && wanted_size(screen, view).1 <= h,
        w == 0 || h == 0 || w >= screen.0 && h >= screen.1 ==> wanted_size(screen, view).0 + 1
            >= screen.0 && wanted_size(screen, view).1 + 1 >= screen.1,
{
    assert(view as int / 0x1_0000_0000 == w);
    assert(view as int % 0x1_0000_0000 == h);
    if w > 0 && h > 0 {
        law_fitted_size_fits((w, h), screen);
        if w >= screen.0 && h >= screen.1 {
            law_never_upscaled((w, h), screen);
        }
    }
}

/// Whether a captured frame shows a change.
pub open spec fn shows_change(pointer_only: bool, dirty_rects: int, move_rects: int) -> bool {
    dirty_rects + move_rects > 0 && !pointer_only
}

/// An encoder's size once it was rebuilt, or refused to be.
pub open spec fn after_rebuild(e: EncoderSize, want: (u32, u32), ok: bool) -> EncoderSize {
    match ok {
        true => EncoderSize { screen: e.screen, current: want, rejected: None },
        false => EncoderSize { screen: e.screen, current: e.current, rejected: Some(want) },
    }
}

/// Whether the `i`th of some decoded frames is shown.
pub open spec fn is_shown(i: int, count: int) -> bool {
    i == count - 1
}

/// How long to wait for the next frame.
pub open spec fn frame_wait(since_last: int) -> int {
    if since_last >= 33 {
        0
    } else {
        33 - since_last
    }
}

/// A frame counts as changed if anything but the pointer is.
pub proof fn law_changes_are_noticed(dirty_rects: nat, move_rects: nat)
    ensures
        dirty_rects > 0 ==> shows_change(false, dirty_rects as int, move_rects as int),
        move_rects > 0 ==> shows_change(false, dirty_rects as int, move_rects as int),
        !shows_change(false, 0, 0),
        !shows_change(true, dirty_rects as int, move_rects as int),
{
}

/// A size that the encoder takes is worked at, and any is tried again; one that
/// it refuses is remembered, and the work goes on as before.
pub proof fn law_encoders_work_at_what_they_take(e: EncoderSize, want: (u32, u32))
    ensures
        after_rebuild(e, want, true).current == want,
        after_rebuild(e, want, true).rejected is None,
        after_rebuild(e, want, false).current == e.current,
        after_rebuild(e, want, false).rejected == Some(want),
        after_rebuild(e, want, true).screen == e.screen,
        after_rebuild(e, want, false).screen == e.screen,
{
}

/// Of some decoded frames exactly one is shown, the last. Frames follow each
/// other no sooner than after 33 ms, and none waits longer than that.
pub proof fn law_one_frame_is_shown(i: int, count: int, since_last: nat)
    requires
        0 <= i < count,
    ensures
        is_shown(count - 1, count),
        i < count - 1 ==> !is_shown(i, count),
        since_last < 33 ==> since_last + frame_wait(since_last as int) == 33,
        since_last >= 33 ==> frame_wait(since_last as int) == 0,
{
}

/// A host aims at eight million bits a second at thirty frames, asks the link
/// for one million more, and goes down to two and a half.
pub proof fn law_host_aims_at_this()
    ensures
        TARGET_BITRATE == 8 * 1_000_000,
        DESIRED_BITRATE == TARGET_BITRATE + 1_000_000,
        2 * MIN_BITRATE == 5 * 1_000_000,
        MAX_FPS == 30,
        1000int / (MAX_FPS as int) == MIN_FRAME_GAP_MS,
{
}

} // verus!
