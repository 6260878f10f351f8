//! One side of a running session: what everything that happens on the media
//! connection makes of it, and what is to be done.
//!
//! The program around it owns the sockets and the other threads. It reports
//! what happens, in order, and does what it is told, in order.

use vstd::prelude::*;

use crate::clipboard::MAX_TEXT_BYTES;
use crate::codec::{pack, packed};
use crate::config::{byte_len, Permission};
use crate::control::{ControlMsg, Ctl};
use crate::injector::{after_input, input_acts, release_acts, Act, Hand, Injector};
use crate::input::{Input, InputMsg};
use crate::liveness::{live_acts, live_after, Death, LiveAct, Liveness};
use crate::media::{broken_after, may_request, KeyGate, Rates, REQUEST_GAP_MS};
use crate::media::{link_for, next_bitrate, TARGET_BITRATE};
use crate::receiver::{
    after_paste, bulk_came, failed, file_deeds, name_was_taken, paste_keys, was_not_opened,
    was_opened, FileAct, FileDeed, FileReceiver, Receipt,
};
use crate::stun::{Address, Endpoint};
use crate::text::same_text;
use crate::transfer::{Bulk, BulkFrame};
use crate::turn::{after_packet, after_send, relayed_data, send_datagrams, TurnAllocation};

verus! {

/// Something that happens.
#[derive(Debug)]
pub enum DriverEvent<C> {
    /// Time has passed.
    Tick,
    /// The user of the host lets the viewer control the machine, or not.
    Gate(bool),
    /// A datagram has come.
    Datagram,
    /// Another part of the program wants a control message sent.
    Outgoing(Vec<u8>),
    /// Another part of the program wants a pointer position sent.
    OutgoingCursor(Vec<u8>),
    Connected,
    /// The channel of this label is open.
    ChannelOpen(String),
    Video { data: Vec<u8>, keyframe: bool, contiguous: bool },
    /// The peer asks for a keyframe.
    KeyframeRequest,
    /// A new estimate of the link.
    Estimate(u32),
    /// A message on the control channel, as a control message if it is one,
    /// and as input if it is that.
    Ctl(Option<ControlMsg<C>>, Option<InputMsg<C>>),
    /// A message on the bulk channel, if it makes sense.
    Bulk(Option<BulkFrame<C>>),
    /// A message on the cursor channel, if it makes sense.
    Cursor(Option<ControlMsg<C>>),
    Disconnected,
    /// The connection has failed.
    Failed,
}

/// Something that happens, with text and bytes as sequences.
pub ghost enum Happening<C> {
    Tick,
    Gate(bool),
    Datagram,
    Outgoing(Seq<u8>),
    OutgoingCursor(Seq<u8>),
    Connected,
    ChannelOpen(Seq<char>),
    Video(Seq<u8>, bool, bool),
    KeyframeRequest,
    Estimate(u32),
    Ctl(Option<Ctl<C>>, Option<Input<C>>),
    Bulk(Option<Bulk<C>>),
    Cursor(Option<Ctl<C>>),
    Disconnected,
    Failed,
}

impl<C> View for DriverEvent<C> {
    type V = Happening<C>;

    open spec fn view(&self) -> Happening<C> {
        match self {
            DriverEvent::Tick => Happening::Tick,
            DriverEvent::Gate(allow) => Happening::Gate(*allow),
            DriverEvent::Datagram => Happening::Datagram,
            DriverEvent::Outgoing(b) => Happening::Outgoing(b@),
            DriverEvent::OutgoingCursor(b) => Happening::OutgoingCursor(b@),
            DriverEvent::Connected => Happening::Connected,
            DriverEvent::ChannelOpen(label) => Happening::ChannelOpen(label@),
            DriverEvent::Video { data, keyframe, contiguous } => Happening::Video(
                data@,
                *keyframe,
                *contiguous,
            ),
            DriverEvent::KeyframeRequest => Happening::KeyframeRequest,
            DriverEvent::Estimate(bps) => Happening::Estimate(*bps),
            DriverEvent::Ctl(m, i) => Happening::Ctl(
                match m {
                    Some(m) => Some(m@),
                    None => None,
                },
                match i {
                    Some(i) => Some(i@),
                    None => None,
                },
            ),
            DriverEvent::Bulk(f) => Happening::Bulk(
                match f {
                    Some(f) => Some(f@),
                    None => None,
                },
            ),
            DriverEvent::Cursor(m) => Happening::Cursor(
                match m {
                    Some(m) => Some(m@),
                    None => None,
                },
            ),
            DriverEvent::Disconnected => Happening::Disconnected,
            DriverEvent::Failed => Happening::Failed,
        }
    }
}

/// Something to be done.
#[derive(Debug)]
pub enum DriverAct<C> {
    /// About the peer being there or not.
    Live(LiveAct),
    /// Send a control message.
    Ctl(ControlMsg<C>),
    /// Send this on the control channel.
    CtlBytes(Vec<u8>),
    /// Send this on the cursor channel.
    CursorBytes(Vec<u8>),
    /// Decode a frame.
    Decode(Vec<u8>, bool),
    /// Ask the sender of the video for a keyframe.
    RequestKeyframe,
    /// Make the encoder give a keyframe.
    ForceKeyframe,
    /// What the encoder is given, and what the link carries.
    SetRates(Rates),
    /// At which size the viewer shows the picture, packed.
    SetViewSize(u64),
    /// What the host lets this viewer do from now on.
    SetPermission(Permission),
    /// Write text to the clipboard.
    ApplyClipboard(String),
    /// Where the host's pointer is.
    SetCursor { x: C, y: C, visible: bool },
    /// Attach to the desktop that has the input.
    FollowDesktop,
    Inject(Act<C>),
    File(FileAct<C>),
    /// The session is over.
    Dead(Death),
}

/// Something to be done, with text and bytes as sequences.
pub ghost enum Drove<C> {
    Live(LiveAct),
    Ctl(Ctl<C>),
    CtlBytes(Seq<u8>),
    CursorBytes(Seq<u8>),
    Decode(Seq<u8>, bool),
    RequestKeyframe,
    ForceKeyframe,
    SetRates(Rates),
    SetViewSize(u64),
    SetPermission(Permission),
    ApplyClipboard(Seq<char>),
    SetCursor(C, C, bool),
    FollowDesktop,
    Inject(Act<C>),
    File(FileDeed<C>),
    Dead(Death),
}

impl<C> View for DriverAct<C> {
    type V = Drove<C>;

    open spec fn view(&self) -> Drove<C> {
        match self {
            DriverAct::Live(a) => Drove::Live(*a),
            DriverAct::Ctl(m) => Drove::Ctl(m@),
            DriverAct::CtlBytes(b) => Drove::CtlBytes(b@),
            DriverAct::CursorBytes(b) => Drove::CursorBytes(b@),
            DriverAct::Decode(b, k) => Drove::Decode(b@, *k),
            DriverAct::RequestKeyframe => Drove::RequestKeyframe,
            DriverAct::ForceKeyframe => Drove::ForceKeyframe,
            DriverAct::SetRates(r) => Drove::SetRates(*r),
            DriverAct::SetViewSize(v) => Drove::SetViewSize(*v),
            DriverAct::SetPermission(p) => Drove::SetPermission(*p),
            DriverAct::ApplyClipboard(s) => Drove::ApplyClipboard(s@),
            DriverAct::SetCursor { x, y, visible } => Drove::SetCursor(*x, *y, *visible),
            DriverAct::FollowDesktop => Drove::FollowDesktop,
            DriverAct::Inject(a) => Drove::Inject(*a),
            DriverAct::File(a) => Drove::File(a@),
            DriverAct::Dead(d) => Drove::Dead(*d),
        }
    }
}

/// What is in a list of things to do.
pub open spec fn droves<C>(v: Seq<DriverAct<C>>) -> Seq<Drove<C>> {
    v.map_values(|a: DriverAct<C>| a@)
}

/// One side of a session.
#[verifier::ext_equal]
pub ghost struct Drive<C> {
    /// Host: whether the viewer may control this machine. Viewer: `None`.
    pub gate: Option<bool>,
    /// Host: what is held down here for the viewer.
    pub hand: Hand,
    pub live: Liveness,
    pub cursor_open: bool,
    pub bulk_open: bool,
    /// What waits for the control channel to open.
    pub backlog: Seq<Seq<u8>>,
    pub keygate: KeyGate,
    pub rates: Rates,
    pub files: Receipt<C>,
}

/// Whether this is the host's side.
pub open spec fn is_host<C>(d: Drive<C>) -> bool {
    d.gate is Some
}

/// Whether the peer may act on this machine.
pub open spec fn controlled<C>(d: Drive<C>) -> bool {
    d.gate == Some(true)
}

/// A hand that holds nothing.
pub open spec fn empty_hand(h: Hand) -> Hand {
    Hand { keys: seq![], buttons: seq![], ..h }
}

/// Low-level events to inject.
pub open spec fn injecting<C>(acts: Seq<Act<C>>) -> Seq<Drove<C>> {
    acts.map_values(|a: Act<C>| Drove::Inject(a))
}

/// Things to do about files.
pub open spec fn filing<C>(acts: Seq<FileDeed<C>>) -> Seq<Drove<C>> {
    acts.map_values(|a: FileDeed<C>| Drove::File(a))
}

/// Whether something is in the way of the viewer's input: it is let go of as
/// soon as control is taken away.
pub open spec fn gated<C>(d: Drive<C>, allow: bool) -> (Drive<C>, Seq<Drove<C>>) {
    if !is_host(d) {
        (d, seq![])
    } else if controlled(d) && !allow {
        (
            Drive { gate: Some(false), hand: empty_hand(d.hand), ..d },
            injecting(release_acts::<C>(d.hand)),
        )
    } else {
        (Drive { gate: Some(allow), ..d }, seq![])
    }
}

/// A channel opens. What waited for the control channel goes out, in order.
pub open spec fn channel_opened<C>(d: Drive<C>, label: Seq<char>, now: u64) -> (
    Drive<C>,
    Seq<Drove<C>>,
) {
    if label == "ctl"@ {
        (
            Drive {
                live: Liveness { ctl_open: true, last_pong: now, ..d.live },
                backlog: seq![],
                ..d
            },
            d.backlog.map_values(|b: Seq<u8>| Drove::CtlBytes(b)),
        )
    } else if label == "cursor"@ {
        (Drive { cursor_open: true, ..d }, seq![])
    } else if label == "bulk"@ {
        (Drive { bulk_open: true, ..d }, seq![])
    } else {
        (d, seq![])
    }
}

/// A video frame comes: it is decoded unless a frame before it is missing,
/// and then a keyframe is asked for both ways.
pub open spec fn frame_came<C>(
    d: Drive<C>,
    data: Seq<u8>,
    keyframe: bool,
    contiguous: bool,
    now: u64,
) -> (Drive<C>, Seq<Drove<C>>) {
    let broken = broken_after(d.keygate.broken, keyframe, contiguous);
    let ask = broken && may_request(d.keygate.last_request, now, REQUEST_GAP_MS);
    (
        Drive {
            keygate: KeyGate {
                broken,
                last_request: if ask {
                    Some(now)
                } else {
                    d.keygate.last_request
                },
            },
            ..d
        },
        if ask {
            seq![Drove::RequestKeyframe, Drove::Ctl(Ctl::KeyframeRequest)]
        } else if broken || is_host(d) {
            seq![]
        } else {
            seq![Drove::Decode(data, keyframe)]
        },
    )
}

/// Something comes that is no control message for this side: it is input, and
/// a host that is controlled injects it.
pub open spec fn input_came<C>(d: Drive<C>, input: Option<Input<C>>) -> (Drive<C>, Seq<Drove<C>>) {
    if !controlled(d) {
        (d, seq![])
    } else {
        match input {
            Some(msg) => (
                Drive { hand: after_input(d.hand, msg), ..d },
                seq![Drove::FollowDesktop] + injecting(input_acts(msg)),
            ),
            None => (d, seq![Drove::FollowDesktop]),
        }
    }
}

/// A message comes on the control channel.
pub open spec fn ctl_came<C>(
    d: Drive<C>,
    msg: Option<Ctl<C>>,
    input: Option<Input<C>>,
    now: u64,
) -> (Drive<C>, Seq<Drove<C>>) {
    let alive = Drive { live: Liveness { last_pong: now, ..d.live }, ..d };
    match msg {
        Some(Ctl::Ping(seq)) => (alive, seq![Drove::Ctl(Ctl::Pong(seq))]),
        Some(Ctl::Pong(_)) => (alive, seq![]),
        Some(Ctl::KeyframeRequest) => if is_host(d) {
            (d, seq![Drove::ForceKeyframe])
        } else {
            input_came(d, input)
        },
        Some(Ctl::ViewSize(w, h)) => if is_host(d) {
            (d, seq![Drove::SetViewSize(packed(w, h) as u64)])
        } else {
            input_came(d, input)
        },
        Some(Ctl::Clipboard(text)) => if d.gate != Some(false) && byte_len(text)
            <= MAX_TEXT_BYTES {
            (d, seq![Drove::ApplyClipboard(text)])
        } else {
            (d, seq![])
        },
        Some(Ctl::Perm(p)) => if is_host(d) {
            input_came(d, input)
        } else {
            (d, seq![Drove::SetPermission(p)])
        },
        Some(Ctl::Bye) => (d, seq![Drove::Dead(Death::PeerLeft)]),
        _ => input_came(d, input),
    }
}

/// What a happening makes of this side, and what is to be done.
pub open spec fn driven<C>(d: Drive<C>, ev: Happening<C>, now: u64) -> (Drive<C>, Seq<Drove<C>>) {
    match ev {
        Happening::Tick => (
            Drive { live: live_after(d.live, now), ..d },
            live_acts(d.live, is_host(d), now).map_values(|a: LiveAct| Drove::Live(a)),
        ),
        Happening::Gate(allow) => gated(d, allow),
        Happening::Datagram => (
            Drive { live: Liveness { last_rx: now, ..d.live }, ..d },
            seq![],
        ),
        Happening::Outgoing(b) => if d.live.ctl_open {
            (d, seq![Drove::CtlBytes(b)])
        } else {
            (Drive { backlog: d.backlog.push(b), ..d }, seq![])
        },
        Happening::OutgoingCursor(b) => if d.cursor_open {
            (d, seq![Drove::CursorBytes(b)])
        } else {
            (d, seq![])
        },
        Happening::Connected => (
            Drive {
                live: Liveness { connected: true, last_rx: now, last_pong: now, ..d.live },
                ..d
            },
            if is_host(d) {
                seq![Drove::ForceKeyframe]
            } else {
                seq![]
            },
        ),
        Happening::ChannelOpen(label) => channel_opened(d, label, now),
        Happening::Video(data, keyframe, contiguous) => frame_came(
            d,
            data,
            keyframe,
            contiguous,
            now,
        ),
        Happening::KeyframeRequest => if is_host(d) {
            (d, seq![Drove::ForceKeyframe])
        } else {
            (d, seq![])
        },
        Happening::Estimate(bps) => if is_host(d) {
            let rates = Rates {
                bitrate: next_bitrate(d.rates.bitrate, bps),
                link: link_for(bps),
            };
            (Drive { rates, ..d }, seq![Drove::SetRates(rates)])
        } else {
            (d, seq![])
        },
        Happening::Ctl(msg, input) => ctl_came(d, msg, input, now),
        Happening::Bulk(frame) => {
            let (files, out) = bulk_came(d.files, controlled(d), frame);
            (Drive { files, ..d }, filing(out))
        },
        Happening::Cursor(msg) => (
            d,
            match msg {
                Some(Ctl::Cursor(x, y, _, visible)) => seq![Drove::SetCursor(x, y, visible)],
                _ => seq![],
            },
        ),
        Happening::Disconnected => (d, seq![Drove::Dead(Death::Dropped)]),
        Happening::Failed => (d, seq![Drove::Dead(Death::TransportError)]),
    }
}

/// One side of a session.
#[derive(Debug)]
pub struct Driver<C> {
    gate: Option<bool>,
    injector: Injector,
    live: Liveness,
    cursor_open: bool,
    bulk_open: bool,
    ctl_backlog: Vec<Vec<u8>>,
    keygate: KeyGate,
    rates: Rates,
    files: FileReceiver<C>,
}

impl<C> View for Driver<C> {
    type V = Drive<C>;

    closed spec fn view(&self) -> Drive<C> {
        Drive {
            gate: self.gate,
            hand: self.injector@,
            live: self.live,
            cursor_open: self.cursor_open,
            bulk_open: self.bulk_open,
            backlog: crate::fec::shards(self.ctl_backlog@),
            keygate: self.keygate,
            rates: self.rates,
            files: self.files@,
        }
    }
}

fn push_drove<C>(acts: &mut Vec<DriverAct<C>>, a: DriverAct<C>)
    ensures
        droves(final(acts)@) == droves(old(acts)@).push(a@),
{
    acts.push(a);
    assert(droves(acts@) =~= droves(old(acts)@).push(a@));
}

fn nothing<C>() -> (acts: Vec<DriverAct<C>>)
    ensures
        droves(acts@) == Seq::<Drove<C>>::empty(),
{
    let acts: Vec<DriverAct<C>> = Vec::new();
    assert(droves(acts@) =~= Seq::<Drove<C>>::empty());
    acts
}

fn just<C>(a: DriverAct<C>) -> (acts: Vec<DriverAct<C>>)
    ensures
        droves(acts@) == seq![a@],
{
    let mut acts: Vec<DriverAct<C>> = Vec::new();
    acts.push(a);
    assert(droves(acts@) =~= seq![a@]);
    acts
}

fn push_injected<C: Copy>(acts: &mut Vec<DriverAct<C>>, injected: &Vec<Act<C>>)
    ensures
        droves(final(acts)@) == droves(old(acts)@) + injecting(injected@),
{
    let n: usize = injected.len();
    let ghost all = injecting(injected@);
    let mut i: usize = 0;
    assert(droves(acts@) + all.take(0) =~= droves(acts@));
    while i < n
        invariant
            i <= n == injected@.len(),
            all == injecting(injected@),
            droves(acts@) == droves(old(acts)@) + all.take(i as int),
        decreases n - i,
    {
        push_drove(acts, DriverAct::Inject(injected[i]));
        i += 1;
        assert(all.take(i as int) =~= all.take(i - 1).push(all[i - 1]));
        assert(droves(acts@) =~= droves(old(acts)@) + all.take(i as int));
    }
    assert(all.take(n as int) =~= all);
}

fn filed<C>(files: Vec<FileAct<C>>) -> (acts: Vec<DriverAct<C>>)
    ensures
        droves(acts@) == filing(file_deeds(files@)),
{
    let mut files: Vec<FileAct<C>> = files;
    let ghost given = files@;
    let ghost all = filing(file_deeds(given));
    let mut acts: Vec<DriverAct<C>> = nothing();
    assert(droves(acts@) =~= all.take(0));
    let ghost mut k: int = 0;
    while files.len() > 0
        invariant
            0 <= k <= given.len(),
            files@ == given.skip(k),
            all == filing(file_deeds(given)),
            droves(acts@) == all.take(k),
        decreases files@.len(),
    {
        let a: FileAct<C> = files.remove(0);
        push_drove(&mut acts, DriverAct::File(a));
        proof {
            assert(a == given[k]);
            assert(all.take(k + 1) =~= all.take(k).push(all[k]));
            assert(given.skip(k).remove(0) =~= given.skip(k + 1));
            k = k + 1;
        }
    }
    assert(all.take(k) =~= all);
    acts
}

fn lived<C>(live: Vec<LiveAct>) -> (acts: Vec<DriverAct<C>>)
    ensures
        droves(acts@) == live@.map_values(|a: LiveAct| Drove::<C>::Live(a)),
{
    let ghost all = live@.map_values(|a: LiveAct| Drove::<C>::Live(a));
    let mut acts: Vec<DriverAct<C>> = nothing();
    assert(droves(acts@) =~= all.take(0));
    let n: usize = live.len();
    let mut i: usize = 0;
    while i < n
        invariant
            i <= n == live@.len(),
            all == live@.map_values(|a: LiveAct| Drove::<C>::Live(a)),
            droves(acts@) == all.take(i as int),
        decreases n - i,
    {
        push_drove(&mut acts, DriverAct::Live(live[i]));
        i += 1;
        assert(all.take(i as int) =~= all.take(i - 1).push(all[i - 1]));
    }
    assert(all.take(n as int) =~= all);
    acts
}

impl<C: Copy> Driver<C> {
    pub closed spec fn wf(&self) -> bool {
        self.injector.wf() && self.rates.wf() && self.files.wf()
    }

    /// The side of a session that begins: a host's, with what its viewer may
    /// do, or a viewer's.
    pub fn new(gate: Option<bool>, now: u64) -> (d: Self)
        ensures
            d.wf(),
            d@.gate == gate,
            d@.hand == (Hand { keys: seq![], buttons: seq![], target: None }),
            d@.live == (Liveness {
                connected: false,
                ctl_open: false,
                last_rx: now,
                last_ping: now,
                last_pong: now,
                seq: 0,
                trouble: false,
                last_told: now,
            }),
            d@.rates == (Rates { bitrate: TARGET_BITRATE, link: TARGET_BITRATE }),
            d@.rates == (Rates { bitrate: 8_000_000, link: 8_000_000 }),
            !d@.cursor_open && !d@.bulk_open,
            d@.backlog == Seq::<Seq<u8>>::empty(),
            d@.keygate == (KeyGate { broken: false, last_request: None }),
            d@.files == (Receipt { opening: None, incoming: None, drop_at: None::<(C, C)> }),
    {
        let d = Driver {
            gate,
            injector: Injector::new(),
            live: Liveness::new(now),
            cursor_open: false,
            bulk_open: false,
            ctl_backlog: Vec::new(),
            keygate: KeyGate::new(),
            rates: Rates::new(),
            files: FileReceiver::new(),
        };
        assert(d@.backlog =~= Seq::<Seq<u8>>::empty());
        d
    }

    /// Whether the bulk channel is open.
    pub fn bulk_open(&self) -> (yes: bool)
        ensures
            yes == self@.bulk_open,
    {
        self.bulk_open
    }

    /// Aims the injected input at a display.
    pub fn set_target_rect(&mut self, rect: Option<crate::injector::TargetRect>)
        requires
            old(self).wf(),
        ensures
            final(self).wf(),
            final(self)@ == (Drive {
                hand: Hand {
                    target: if rect is Some && rect->0.w > 0 && rect->0.h > 0 {
                        rect
                    } else {
                        None
                    },
                    ..old(self)@.hand
                },
                ..old(self)@
            }),
    {
        self.injector.set_target_rect(rect);
    }

    /// The display to move the pointer on.
    pub fn move_target(&self, virtual_w: i32, virtual_h: i32) -> (r: Option<
        crate::injector::TargetRect,
    >)
        ensures
            r == (if virtual_w <= 1 || virtual_h <= 1 {
                None
            } else {
                self@.hand.target
            }),
    {
        self.injector.move_target(virtual_w, virtual_h)
    }

    fn on_gate(&mut self, allow: bool) -> (acts: Vec<DriverAct<C>>)
        requires
            old(self).wf(),
        ensures
            final(self).wf(),
            (final(self)@, droves(acts@)) == gated(old(self)@, allow),
    {
        let mut acts: Vec<DriverAct<C>> = nothing();
        if let Some(before) = self.gate {
            self.gate = Some(allow);
            if before && !allow {
                let released: Vec<Act<C>> = self.injector.release_all();
                push_injected(&mut acts, &released);
                assert(droves(acts@) =~= injecting(released@));
            }
        }
        acts
    }

    fn on_channel_open(&mut self, label: &str, now: u64) -> (acts: Vec<DriverAct<C>>)
        requires
            old(self).wf(),
        ensures
            final(self).wf(),
            (final(self)@, droves(acts@)) == channel_opened(old(self)@, label@, now),
    {
        let mut acts: Vec<DriverAct<C>> = nothing();
        if same_text(label, "ctl") {
            self.live.on_ctl_open(now);
            let ghost all = self@.backlog.map_values(|b: Seq<u8>| Drove::<C>::CtlBytes(b));
            let ghost given = self.ctl_backlog@;
            let ghost start = *self;
            let ghost mut k: int = 0;
            assert(droves(acts@) =~= all.take(0));
            while self.ctl_backlog.len() > 0
                invariant
                    0 <= k <= given.len(),
                    self.ctl_backlog@ == given.skip(k),
                    all == crate::fec::shards(given).map_values(
                        |b: Seq<u8>| Drove::<C>::CtlBytes(b),
                    ),
                    droves(acts@) == all.take(k),
                    *self == (Driver { ctl_backlog: self.ctl_backlog, ..start }),
                decreases self.ctl_backlog@.len(),
            {
                let b: Vec<u8> = self.ctl_backlog.remove(0);
                push_drove(&mut acts, DriverAct::CtlBytes(b));
                proof {
                    assert(b == given[k]);
                    assert(all.take(k + 1) =~= all.take(k).push(all[k]));
                    assert(given.skip(k).remove(0) =~= given.skip(k + 1));
                    k = k + 1;
                }
            }
            assert(all.take(k) =~= all);
            assert(self@.backlog =~= seq![]);
        } else if same_text(label, "cursor") {
            self.cursor_open = true;
        } else if same_text(label, "bulk") {
            self.bulk_open = true;
        }
        acts
    }

    fn on_video(&mut self, data: Vec<u8>, keyframe: bool, contiguous: bool, now: u64) -> (acts: Vec<
        DriverAct<C>,
    >)
        requires
            old(self).wf(),
        ensures
            final(self).wf(),
            (final(self)@, droves(acts@)) == frame_came(
                old(self)@,
                data@,
                keyframe,
                contiguous,
                now,
            ),
    {
        let (good, ask) = self.keygate.on_frame(keyframe, contiguous, now);
        let mut acts: Vec<DriverAct<C>> = nothing();
        if ask {
            push_drove(&mut acts, DriverAct::RequestKeyframe);
            push_drove(&mut acts, DriverAct::Ctl(ControlMsg::KeyframeRequest));
        } else if good && self.gate.is_none() {
            push_drove(&mut acts, DriverAct::Decode(data, keyframe));
        }
        assert(droves(acts@) =~= frame_came(
            old(self)@,
            data@,
            keyframe,
            contiguous,
            now,
        ).1);
        acts
    }

    fn on_input(&mut self, input: Option<InputMsg<C>>) -> (acts: Vec<DriverAct<C>>)
        requires
            old(self).wf(),
        ensures
            final(self).wf(),
            (final(self)@, droves(acts@)) == input_came(
                old(self)@,
                match input {
                    Some(i) => Some(i@),
                    None => None,
                },
            ),
    {
        let allowed: bool = match self.gate {
            Some(allow) => allow,
            None => false,
        };
        if !allowed {
            return nothing();
        }
        let mut acts: Vec<DriverAct<C>> = just(DriverAct::FollowDesktop);
        if let Some(msg) = input {
            let injected: Vec<Act<C>> = self.injector.dispatch(&msg);
            push_injected(&mut acts, &injected);
        }
        acts
    }

    fn on_ctl(&mut self, msg: Option<ControlMsg<C>>, input: Option<InputMsg<C>>, now: u64) -> (acts:
        Vec<DriverAct<C>>)
        requires
            old(self).wf(),
        ensures
            final(self).wf(),
            (final(self)@, droves(acts@)) == ctl_came(
                old(self)@,
                match msg {
                    Some(m) => Some(m@),
                    None => None,
                },
                match input {
                    Some(i) => Some(i@),
                    None => None,
                },
                now,
            ),
    {
        let host: bool = self.gate.is_some();
        match msg {
            Some(ControlMsg::Ping { seq }) => {
                self.live.on_alive(now);
                just(DriverAct::Ctl(ControlMsg::Pong { seq }))
            },
            Some(ControlMsg::Pong { .. }) => {
                self.live.on_alive(now);
                nothing()
            },
            Some(ControlMsg::KeyframeRequest) => if host {
                just(DriverAct::ForceKeyframe)
            } else {
                self.on_input(input)
            },
            Some(ControlMsg::ViewSize { width, height }) => if host {
                just(DriverAct::SetViewSize(pack(width, height)))
            } else {
                self.on_input(input)
            },
            Some(ControlMsg::Clipboard { text }) => {
                let allowed: bool = match self.gate {
                    Some(allow) => allow,
                    None => true,
                };
                if allowed && text.as_str().as_bytes().len() <= MAX_TEXT_BYTES {
                    just(DriverAct::ApplyClipboard(text))
                } else {
                    nothing()
                }
            },
            Some(ControlMsg::Perm { value }) => if host {
                self.on_input(input)
            } else {
                just(DriverAct::SetPermission(value))
            },
            Some(ControlMsg::Bye) => just(DriverAct::Dead(Death::PeerLeft)),
            _ => self.on_input(input),
        }
    }

    /// Deals with something that happens.
    pub fn on_event(&mut self, ev: DriverEvent<C>, now: u64) -> (acts: Vec<DriverAct<C>>)
        requires
            old(self).wf(),
        ensures
            final(self).wf(),
            (final(self)@, droves(acts@)) == driven(old(self)@, ev@, now),
    {
        let host: bool = self.gate.is_some();
        match ev {
            DriverEvent::Tick => {
                let live: Vec<LiveAct> = self.live.tick(host, now);
                lived(live)
            },
            DriverEvent::Gate(allow) => self.on_gate(allow),
            DriverEvent::Datagram => {
                self.live.on_datagram(now);
                nothing()
            },
            DriverEvent::Outgoing(b) => if self.live.ctl_open {
                just(DriverAct::CtlBytes(b))
            } else {
                self.ctl_backlog.push(b);
                assert(self@.backlog =~= old(self)@.backlog.push(b@));
                nothing()
            },
            DriverEvent::OutgoingCursor(b) => if self.cursor_open {
                just(DriverAct::CursorBytes(b))
            } else {
                nothing()
            },
            DriverEvent::Connected => {
                self.live.on_connected(now);
                if host {
                    just(DriverAct::ForceKeyframe)
                } else {
                    nothing()
                }
            },
            DriverEvent::ChannelOpen(label) => self.on_channel_open(label.as_str(), now),
            DriverEvent::Video { data, keyframe, contiguous } => self.on_video(
                data,
                keyframe,
                contiguous,
                now,
            ),
            DriverEvent::KeyframeRequest => if host {
                just(DriverAct::ForceKeyframe)
            } else {
                nothing()
            },
            DriverEvent::Estimate(bps) => if host {
                self.rates.on_estimate(bps);
                just(DriverAct::SetRates(self.rates))
            } else {
                nothing()
            },
            DriverEvent::Ctl(msg, input) => self.on_ctl(msg, input, now),
            DriverEvent::Bulk(frame) => {
                let allowed: bool = match self.gate {
                    Some(allow) => allow,
                    None => false,
                };
                let files: Vec<FileAct<C>> = self.files.on_frame(allowed, frame);
                filed(files)
            },
            DriverEvent::Cursor(msg) => match msg {
                Some(ControlMsg::Cursor { x, y, visible, .. }) => just(
                    DriverAct::SetCursor { x, y, visible },
                ),
                _ => nothing(),
            },
            DriverEvent::Disconnected => just(DriverAct::Dead(Death::Dropped)),
            DriverEvent::Failed => just(DriverAct::Dead(Death::TransportError)),
        }
    }

    /// The session is over; `stopped` if this side ended it. Then the peer is
    /// told, if it can be. Whatever ended it, nothing stays held down. A file
    /// that is still arriving is left as it is.
    pub fn finish(&mut self, stopped: bool) -> (acts: Vec<DriverAct<C>>)
        requires
            old(self).wf(),
        ensures
            final(self).wf(),
            final(self)@ == (Drive { hand: empty_hand(old(self)@.hand), ..old(self)@ }),
            droves(acts@) == (if stopped && old(self)@.live.ctl_open && old(self)@.live.connected {
                seq![Drove::<C>::Ctl(Ctl::Bye)]
            } else {
                seq![]
            }) + injecting(release_acts::<C>(old(self)@.hand)),
    {
        let mut acts: Vec<DriverAct<C>> = nothing();
        if stopped && self.live.ctl_open && self.live.connected {
            push_drove(&mut acts, DriverAct::Ctl(ControlMsg::Bye));
            assert(droves(acts@) =~= seq![Drove::<C>::Ctl(Ctl::Bye)]);
        }
        let released: Vec<Act<C>> = self.injector.release_all();
        push_injected(&mut acts, &released);
        acts
    }

    /// The name that was tried for a file is taken.
    pub fn file_name_taken(&mut self) -> (acts: Vec<FileAct<C>>)
        requires
            old(self).wf(),
        ensures
            final(self).wf(),
            final(self)@ == (Drive {
                files: name_was_taken(old(self)@.files).0,
                ..old(self)@
            }),
            file_deeds(acts@) == name_was_taken(old(self)@.files).1,
    {
        self.files.name_taken()
    }

    /// The file has been created.
    pub fn file_opened(&mut self) -> (acts: Vec<FileAct<C>>)
        requires
            old(self).wf(),
        ensures
            final(self).wf(),
            final(self)@ == (Drive { files: was_opened(old(self)@.files).0, ..old(self)@ }),
            file_deeds(acts@) == was_opened(old(self)@.files).1,
    {
        self.files.opened()
    }

    /// The file could not be created.
    pub fn file_open_failed(&mut self, why: &str) -> (acts: Vec<FileAct<C>>)
        requires
            old(self).wf(),
        ensures
            final(self).wf(),
            final(self)@ == (Drive {
                files: was_not_opened(old(self)@.files, why@).0,
                ..old(self)@
            }),
            file_deeds(acts@) == was_not_opened(old(self)@.files, why@).1,
    {
        self.files.open_failed(why)
    }

    /// The file could not be written to.
    pub fn file_write_failed(&mut self, why: &str) -> (acts: Vec<FileAct<C>>)
        requires
            old(self).wf(),
        ensures
            final(self).wf(),
            final(self)@ == (Drive {
                files: failed(old(self)@.files, why@).0,
                ..old(self)@
            }),
            file_deeds(acts@) == failed(old(self)@.files, why@).1,
    {
        self.files.write_failed(why)
    }

    /// Types what pastes a received file. Only a host types.
    pub fn paste(&mut self) -> (acts: Vec<Act<C>>)
        requires
            old(self).wf(),
        ensures
            final(self).wf(),
            is_host(old(self)@) ==> final(self)@ == (Drive {
                hand: after_paste(old(self)@.hand),
                ..old(self)@
            }) && acts@ == crate::injector::key_acts::<C>("ControlLeft"@, true)
                + crate::injector::key_acts("KeyV"@, true) + crate::injector::key_acts(
                "KeyV"@,
                false,
            ) + crate::injector::key_acts("ControlLeft"@, false),
            !is_host(old(self)@) ==> final(self)@ == old(self)@ && acts@.len() == 0,
    {
        if self.gate.is_some() {
            paste_keys(&mut self.injector)
        } else {
            Vec::new()
        }
    }
}

/// What goes to the network for a datagram that the media connection sends:
/// from the relayed address it goes through the relay, otherwise directly.
pub open spec fn goes_by_relay(turn: Option<TurnAllocation>, source: Address) -> bool {
    turn is Some && turn->0@.relayed == source
}

/// Routes a datagram that the media connection sends, with given transaction
/// ids. Gives the datagrams to send and where to.
pub fn route_out(
    turn: &mut Option<TurnAllocation>,
    source: Endpoint,
    dest: Endpoint,
    contents: &[u8],
    now: u64,
    permission_tid: &[u8; 12],
    tid: &[u8; 12],
) -> (out: (Endpoint, Vec<Vec<u8>>))
    requires
        *old(turn) is Some ==> (*old(turn))->0.wf(),
    ensures
        *final(turn) is Some <==> *old(turn) is Some,
        *final(turn) is Some ==> (*final(turn))->0.wf(),
        goes_by_relay(*old(turn), source@) ==> {
            &&& out.0@ == (*old(turn))->0@.server
            &&& crate::fec::shards(out.1@) == send_datagrams(
                (*old(turn))->0@,
                dest@,
                contents@,
                now,
                permission_tid@,
                tid@,
            )
            &&& (*final(turn))->0@ == after_send((*old(turn))->0@, dest@.octets, now)
        },
        !goes_by_relay(*old(turn), source@) ==> {
            &&& out.0 == dest
            &&& crate::fec::shards(out.1@) == seq![contents@]
            &&& *final(turn) == *old(turn)
        },
{
    if let Some(alloc) = turn.take() {
        let mut alloc: TurnAllocation = alloc;
        if alloc.relayed().same(&source) {
            let server: Endpoint = alloc.server();
            let out: Vec<Vec<u8>> = alloc.send_via_relay_with(
                dest,
                contents,
                now,
                permission_tid,
                tid,
            );
            *turn = Some(alloc);
            return (server, out);
        }
        *turn = Some(alloc);
    }
    let mut out: Vec<Vec<u8>> = Vec::new();
    out.push(crate::bytes::copy_range(contents, 0, contents.len()));
    assert(out@[0]@ =~= contents@);
    assert(crate::fec::shards(out@) =~= seq![contents@]);
    (dest, out)
}

/// Whether a datagram comes from the relay.
pub open spec fn comes_from_relay(turn: Option<TurnAllocation>, from: Address) -> bool {
    turn is Some && turn->0@.server == from
}

/// Routes a datagram that has come. What the relay hands on counts as having
/// come from the peer to the relayed address; its answers are dealt with here,
/// and `None` is left.
pub fn route_in(
    turn: &mut Option<TurnAllocation>,
    from: Endpoint,
    local: Endpoint,
    contents: &[u8],
) -> (r: Option<(Endpoint, Endpoint, Vec<u8>)>)
    requires
        *old(turn) is Some ==> (*old(turn))->0.wf(),
    ensures
        *final(turn) is Some <==> *old(turn) is Some,
        *final(turn) is Some ==> (*final(turn))->0.wf(),
        comes_from_relay(*old(turn), from@) ==> {
            &&& (*final(turn))->0@ == after_packet((*old(turn))->0@, contents@)
            &&& r is Some <==> relayed_data(contents@) is Some
            &&& r is Some ==> (r->Some_0.0@, r->Some_0.2@) == relayed_data(contents@)->0
            &&& r is Some ==> r->Some_0.1@ == (*old(turn))->0@.relayed
        },
        !comes_from_relay(*old(turn), from@) ==> {
            &&& *final(turn) == *old(turn)
            &&& r is Some
            &&& r->Some_0.0 == from
            &&& r->Some_0.1 == local
            &&& r->Some_0.2@ == contents@
        },
{
    if let Some(alloc) = turn.take() {
        let mut alloc: TurnAllocation = alloc;
        if alloc.server().same(&from) {
            let relayed: Endpoint = alloc.relayed();
            let got: Option<(Endpoint, Vec<u8>)> = alloc.handle_server_packet(contents);
            *turn = Some(alloc);
            return match got {
                Some((peer, data)) => Some((peer, relayed, data)),
                None => None,
            };
        }
        *turn = Some(alloc);
    }
    let copy: Vec<u8> = crate::bytes::copy_range(contents, 0, contents.len());
    assert(copy@ =~= contents@);
    Some((from, local, copy))
}

/// A viewer that may only watch changes nothing on the host: none of its
/// messages injects input, reaches the clipboard or touches a file.
pub proof fn law_view_only_changes_nothing<C>(
    d: Drive<C>,
    msg: Option<Ctl<C>>,
    input: Option<Input<C>>,
    now: u64,
)
    requires
        d.gate == Some(false),
    ensures
        ({
            let (after, out) = ctl_came(d, msg, input, now);
            &&& after.hand == d.hand
            &&& forall|i: int|
                0 <= i < out.len() ==> !((#[trigger] out[i]) is Inject) && !(
                out[i] is ApplyClipboard) && !(out[i] is File) && !(out[i] is FollowDesktop)
        }),
{
}

/// As soon as control is taken away, everything that the viewer held down is
/// let go of.
pub proof fn law_revoking_lets_go<C>(d: Drive<C>)
    requires
        controlled(d),
    ensures
        gated(d, false).1 == injecting(release_acts::<C>(d.hand)),
        gated(d, false).0.hand.keys.len() == 0,
        gated(d, false).0.hand.buttons.len() == 0,
        !controlled(gated(d, false).0),
{
}

/// Control messages are neither lost nor reordered: what is asked to be sent
/// before the channel is open goes out in that order when it opens, and what
/// comes later goes out at once.
pub proof fn law_control_messages_keep_their_order<C>(d: Drive<C>, b: Seq<u8>, now: u64)
    ensures
        !d.live.ctl_open ==> ({
            let waiting = driven(d, Happening::Outgoing(b), now).0;
            let all = d.backlog.push(b);
            &&& waiting.backlog == all
            &&& driven(waiting, Happening::ChannelOpen("ctl"@), now).1 == all.map_values(
                |x: Seq<u8>| Drove::<C>::CtlBytes(x),
            )
            &&& driven(waiting, Happening::ChannelOpen("ctl"@), now).0.backlog.len() == 0
            &&& driven(waiting, Happening::ChannelOpen("ctl"@), now).0.live.ctl_open
        }),
        d.live.ctl_open ==> driven(d, Happening::Outgoing(b), now).1 == seq![
            Drove::<C>::CtlBytes(b),
        ],
{
}

/// Every ping is answered with its own number, and shows that the peer is
/// there.
pub proof fn law_pings_are_answered<C>(d: Drive<C>, seq: u32, input: Option<Input<C>>, now: u64)
    ensures
        ctl_came(d, Some(Ctl::Ping(seq)), input, now).1 == seq![Drove::<C>::Ctl(Ctl::Pong(seq))],
        ctl_came(d, Some(Ctl::Ping(seq)), input, now).0.live.last_pong == now,
{
}

/// Whatever happens, the rates stay within their bounds.
pub proof fn law_rates_stay_in_bounds<C>(d: Drive<C>, ev: Happening<C>, now: u64)
    requires
        d.rates.wf(),
    ensures
        driven(d, ev, now).0.rates.wf(),
{
}

/// What happens is seen with everything in it, each in its place.
pub proof fn law_events_are_seen_as_they_are<C>(
    yes: bool,
    also: bool,
    b: Vec<u8>,
    label: String,
    bps: u32,
    m: ControlMsg<C>,
    i: InputMsg<C>,
    f: BulkFrame<C>,
)
    ensures
        DriverEvent::<C>::Tick@ == Happening::<C>::Tick,
        DriverEvent::<C>::Gate(yes)@ == Happening::<C>::Gate(yes),
        DriverEvent::<C>::Datagram@ == Happening::<C>::Datagram,
        DriverEvent::<C>::Outgoing(b)@ == Happening::<C>::Outgoing(b@),
        DriverEvent::<C>::OutgoingCursor(b)@ == Happening::<C>::OutgoingCursor(b@),
        DriverEvent::<C>::Connected@ == Happening::<C>::Connected,
        DriverEvent::<C>::ChannelOpen(label)@ == Happening::<C>::ChannelOpen(label@),
        (DriverEvent::<C>::Video { data: b, keyframe: yes, contiguous: also })@ == Happening::<
            C,
        >::Video(b@, yes, also),
        DriverEvent::<C>::KeyframeRequest@ == Happening::<C>::KeyframeRequest,
        DriverEvent::<C>::Estimate(bps)@ == Happening::<C>::Estimate(bps),
        DriverEvent::Ctl(Some(m), Some(i))@ == Happening::Ctl(Some(m@), Some(i@)),
        DriverEvent::Ctl(Some(m), None)@ == Happening::Ctl(Some(m@), None),
        DriverEvent::Ctl(None, Some(i))@ == Happening::Ctl(None, Some(i@)),
        DriverEvent::<C>::Ctl(None, None)@ == Happening::<C>::Ctl(None, None),
        DriverEvent::Bulk(Some(f))@ == Happening::Bulk(Some(f@)),
        DriverEvent::<C>::Bulk(None)@ == Happening::<C>::Bulk(None),
        DriverEvent::Cursor(Some(m))@ == Happening::Cursor(Some(m@)),
        DriverEvent::<C>::Cursor(None)@ == Happening::<C>::Cursor(None),
        DriverEvent::<C>::Disconnected@ == Happening::<C>::Disconnected,
        DriverEvent::<C>::Failed@ == Happening::<C>::Failed,
{
}

/// What is to be done is seen with everything in it, each in its place, and in
/// its order.
pub proof fn law_acts_are_seen_as_they_are<C>(a: DriverAct<C>, v: Seq<DriverAct<C>>)
    ensures
        match a {
            DriverAct::Live(l) => a@ == Drove::<C>::Live(l),
            DriverAct::Ctl(m) => a@ == Drove::Ctl(m@),
            DriverAct::CtlBytes(b) => a@ == Drove::<C>::CtlBytes(b@),
            DriverAct::CursorBytes(b) => a@ == Drove::<C>::CursorBytes(b@),
            DriverAct::Decode(b, k) => a@ == Drove::<C>::Decode(b@, k),
            DriverAct::RequestKeyframe => a@ is RequestKeyframe,
            DriverAct::ForceKeyframe => a@ is ForceKeyframe,
            DriverAct::SetRates(r) => a@ == Drove::<C>::SetRates(r),
            DriverAct::SetViewSize(n) => a@ == Drove::<C>::SetViewSize(n),
            DriverAct::SetPermission(p) => a@ == Drove::<C>::SetPermission(p),
            DriverAct::ApplyClipboard(s) => a@ == Drove::<C>::ApplyClipboard(s@),
            DriverAct::SetCursor { x, y, visible } => a@ == Drove::SetCursor(x, y, visible),
            DriverAct::FollowDesktop => a@ is FollowDesktop,
            DriverAct::Inject(i) => a@ == Drove::Inject(i),
            DriverAct::File(f) => a@ == Drove::File(f@),
            DriverAct::Dead(d) => a@ == Drove::<C>::Dead(d),
        },
        droves(v.push(a)) == droves(v).push(a@),
        droves(Seq::<DriverAct<C>>::empty()).len() == 0,
{
    assert(droves(v.push(a)) =~= droves(v).push(a@));
}

/// Control is given and taken on the host only. Taking it from a viewer that
/// has it lets go of all that is held down; giving it does nothing else.
pub proof fn law_control_is_given_and_taken<C>(d: Drive<C>, allow: bool, now: u64)
    ensures
        ({
            let (after, out) = driven(d, Happening::Gate(allow), now);
            &&& d.gate is None ==> after == d && out.len() == 0
            &&& d.gate is Some ==> after.gate == Some(allow)
            &&& d.gate == Some(true) && !allow ==> out == release_acts::<C>(d.hand).map_values(
                |a: Act<C>| Drove::Inject(a),
            ) && after.hand.keys.len() == 0 && after.hand.buttons.len() == 0
                && after.hand.target == d.hand.target
            &&& d.gate is Some && (d.gate == Some(false) || allow) ==> out.len() == 0
                && after.hand == d.hand
            &&& after.live == d.live && after.backlog == d.backlog && after.files == d.files
                && after.rates == d.rates && after.keygate == d.keygate && after.cursor_open
                == d.cursor_open && after.bulk_open == d.bulk_open
        }),
{
}

/// Every datagram shows that something comes, and that is all that it shows.
pub proof fn law_datagrams_show_traffic<C>(d: Drive<C>, now: u64)
    ensures
        ({
            let (after, out) = driven(d, Happening::Datagram, now);
            &&& out.len() == 0
            &&& after == (Drive { live: Liveness { last_rx: now, ..d.live }, ..d })
        }),
{
}

/// Once the connection is up the clocks start; a host begins with a keyframe.
pub proof fn law_connecting_starts_the_clocks<C>(d: Drive<C>, now: u64)
    ensures
        ({
            let (after, out) = driven(d, Happening::Connected, now);
            &&& after.live.connected && after.live.last_rx == now && after.live.last_pong == now
            &&& after.live.ctl_open == d.live.ctl_open && after.live.last_ping == d.live.last_ping
                && after.live.seq == d.live.seq
            &&& d.gate is Some ==> out == seq![Drove::<C>::ForceKeyframe]
            &&& d.gate is None ==> out.len() == 0
        }),
{
}

/// Three labels name channels: "ctl", whose opening lets out what waited for
/// it and starts its clock, "cursor" and "bulk". Any other changes nothing.
pub proof fn law_channels_open_by_their_labels<C>(d: Drive<C>, label: Seq<char>, now: u64)
    ensures
        ({
            let (after, out) = driven(d, Happening::ChannelOpen(label), now);
            let ctl = label == seq!['c', 't', 'l'];
            let cursor = label == seq!['c', 'u', 'r', 's', 'o', 'r'];
            let bulk = label == seq!['b', 'u', 'l', 'k'];
            &&& ctl ==> after.live.ctl_open && after.live.last_pong == now && after.backlog.len()
                == 0 && out.len() == d.backlog.len() && forall|i: int|
                0 <= i < out.len() ==> #[trigger] out[i] == Drove::<C>::CtlBytes(d.backlog[i])
            &&& !ctl ==> after.live == d.live && after.backlog == d.backlog && out.len() == 0
            &&& after.cursor_open == (d.cursor_open || cursor)
            &&& after.bulk_open == (d.bulk_open || bulk)
            &&& !ctl && !cursor && !bulk ==> after == d
        }),
{
    reveal_strlit("ctl");
    reveal_strlit("cursor");
    reveal_strlit("bulk");
    assert("ctl"@ =~= seq!['c', 't', 'l']);
    assert("cursor"@ =~= seq!['c', 'u', 'r', 's', 'o', 'r']);
    assert("bulk"@ =~= seq!['b', 'u', 'l', 'k']);
    assert(seq!['c', 't', 'l'].len() == 3);
    assert(seq!['c', 'u', 'r', 's', 'o', 'r'].len() == 6);
    assert(seq!['b', 'u', 'l', 'k'].len() == 4);
}

/// A pointer position goes out at once or, without an open channel, never; a
/// position that comes in is shown where it says.
pub proof fn law_pointer_positions_are_not_kept<C>(
    d: Drive<C>,
    b: Seq<u8>,
    x: C,
    y: C,
    shape: Option<u32>,
    visible: bool,
    now: u64,
)
    ensures
        driven(d, Happening::OutgoingCursor(b), now).0 == d,
        d.cursor_open ==> driven(d, Happening::OutgoingCursor(b), now).1 == seq![
            Drove::<C>::CursorBytes(b),
        ],
        !d.cursor_open ==> driven(d, Happening::OutgoingCursor(b), now).1.len() == 0,
        driven(d, Happening::Cursor(Some(Ctl::Cursor(x, y, shape, visible))), now) == (
            d,
            seq![Drove::SetCursor(x, y, visible)],
        ),
        driven(d, Happening::Cursor(None), now).1.len() == 0,
{
}

/// A viewer decodes a keyframe, and every frame that follows on without a gap;
/// what follows a gap is not decoded until a keyframe comes. Meanwhile a
/// keyframe is asked for, both ways, at most every half second.
pub proof fn law_only_what_can_be_decoded_is_decoded<C>(
    d: Drive<C>,
    data: Seq<u8>,
    keyframe: bool,
    contiguous: bool,
    now: u64,
)
    requires
        d.keygate.last_request is Some ==> d.keygate.last_request->0 <= now,
    ensures
        ({
            let (after, out) = driven(d, Happening::Video(data, keyframe, contiguous), now);
            let whole = keyframe || contiguous && !d.keygate.broken;
            let ask = !whole && (d.keygate.last_request is None || now
                - d.keygate.last_request->0 >= 500);
            &&& after.keygate.broken == !whole
            &&& whole && d.gate is None ==> out == seq![Drove::<C>::Decode(data, keyframe)]
            &&& whole && d.gate is Some ==> out.len() == 0
            &&& ask ==> out == seq![
                Drove::<C>::RequestKeyframe,
                Drove::<C>::Ctl(Ctl::KeyframeRequest),
            ] && after.keygate.last_request == Some(now)
            &&& !whole && !ask ==> out.len() == 0
            &&& !ask ==> after.keygate.last_request == d.keygate.last_request
            &&& after.live == d.live && after.hand == d.hand && after.gate == d.gate
                && after.backlog == d.backlog && after.rates == d.rates && after.files == d.files
        }),
{
}

/// A host that is asked for a keyframe, one way or the other, makes one; a
/// viewer has none to make.
pub proof fn law_keyframes_are_made_by_hosts<C>(d: Drive<C>, now: u64)
    ensures
        d.gate is Some ==> driven(d, Happening::KeyframeRequest, now) == (
            d,
            seq![Drove::<C>::ForceKeyframe],
        ),
        d.gate is Some ==> driven(d, Happening::Ctl(Some(Ctl::KeyframeRequest), None), now) == (
            d,
            seq![Drove::<C>::ForceKeyframe],
        ),
        d.gate is None ==> driven(d, Happening::KeyframeRequest, now) == (
            d,
            Seq::<Drove<C>>::empty(),
        ),
{
}

/// A host follows the estimate of the link and tells the encoder both rates; a
/// viewer ignores it.
pub proof fn law_hosts_follow_the_estimate<C>(d: Drive<C>, bps: u32, now: u64)
    ensures
        ({
            let (after, out) = driven(d, Happening::Estimate(bps), now);
            &&& d.gate is None ==> after == d && out.len() == 0
            &&& d.gate is Some ==> {
                &&& after.rates.bitrate == next_bitrate(d.rates.bitrate, bps)
                &&& after.rates.link == link_for(bps)
                &&& out == seq![Drove::<C>::SetRates(after.rates)]
                &&& after.live == d.live && after.hand == d.hand && after.gate == d.gate
                    && after.keygate == d.keygate && after.backlog == d.backlog && after.files
                    == d.files
            }
        }),
{
}

/// A host hears at which size it is watched: the width in the high half, the
/// height in the low one.
pub proof fn law_hosts_hear_the_size<C>(
    d: Drive<C>,
    w: u32,
    h: u32,
    input: Option<Input<C>>,
    now: u64,
)
    requires
        d.gate is Some,
    ensures
        ({
            let (after, out) = driven(d, Happening::Ctl(Some(Ctl::ViewSize(w, h)), input), now);
            &&& after == d
            &&& out.len() == 1 && out[0] is SetViewSize
            &&& out[0]->SetViewSize_0 == 0x1_0000_0000 * w + h
        }),
{
}

/// Clipboard text of up to 262144 bytes is taken by a viewer, and by a host
/// that is controlled; longer text, or without control, it is not.
pub proof fn law_clipboards_are_taken_over<C>(
    d: Drive<C>,
    text: Seq<char>,
    input: Option<Input<C>>,
    now: u64,
)
    ensures
        ({
            let (after, out) = driven(d, Happening::Ctl(Some(Ctl::Clipboard(text)), input), now);
            &&& after == d
            &&& d.gate != Some(false) && byte_len(text) <= 262_144 ==> out == seq![
                Drove::<C>::ApplyClipboard(text),
            ]
            &&& d.gate == Some(false) || byte_len(text) > 262_144 ==> out.len() == 0
        }),
{
}

/// What a viewer may do is told to the viewer, and a goodbye ends the session
/// for either.
pub proof fn law_permissions_and_goodbyes_are_heard<C>(
    d: Drive<C>,
    p: Permission,
    input: Option<Input<C>>,
    now: u64,
)
    ensures
        d.gate is None ==> driven(d, Happening::Ctl(Some(Ctl::Perm(p)), input), now) == (
            d,
            seq![Drove::<C>::SetPermission(p)],
        ),
        driven(d, Happening::Ctl(Some(Ctl::Bye), input), now) == (
            d,
            seq![Drove::<C>::Dead(Death::PeerLeft)],
        ),
        driven(d, Happening::<C>::Disconnected, now) == (
            d,
            seq![Drove::<C>::Dead(Death::Dropped)],
        ),
        driven(d, Happening::<C>::Failed, now) == (
            d,
            seq![Drove::<C>::Dead(Death::TransportError)],
        ),
{
}

/// Pings are answered and answers are heard, on either side; both show that
/// the peer is there.
pub proof fn law_signs_of_the_peer_are_heard<C>(
    d: Drive<C>,
    n: u32,
    input: Option<Input<C>>,
    now: u64,
)
    ensures
        driven(d, Happening::Ctl(Some(Ctl::Ping(n)), input), now) == (
            Drive { live: Liveness { last_pong: now, ..d.live }, ..d },
            seq![Drove::<C>::Ctl(Ctl::Pong(n))],
        ),
        driven(d, Happening::Ctl(Some(Ctl::Pong(n)), input), now) == (
            Drive { live: Liveness { last_pong: now, ..d.live }, ..d },
            Seq::<Drove<C>>::empty(),
        ),
{
}

/// Input is injected by a host that is controlled and by nobody else, and only
/// after it has turned to the desktop that has the input.
pub proof fn law_input_reaches_a_controlled_host<C>(d: Drive<C>, msg: Input<C>, now: u64)
    ensures
        ({
            let (after, out) = driven(d, Happening::Ctl(None, Some(msg)), now);
            &&& d.gate == Some(true) ==> {
                &&& out.len() == 1 + input_acts(msg).len()
                &&& out[0] == Drove::<C>::FollowDesktop
                &&& forall|i: int|
                    0 <= i < input_acts(msg).len() ==> out[i + 1] == Drove::Inject(
                        #[trigger] input_acts(msg)[i],
                    )
                &&& after == (Drive { hand: after_input(d.hand, msg), ..d })
            }
            &&& d.gate != Some(true) ==> after == d && out.len() == 0
        }),
{
}

/// What comes on the bulk channel goes to the receiver of files, which knows
/// whether this viewer may act here; nothing else changes.
pub proof fn law_files_go_to_their_receiver<C>(d: Drive<C>, frame: Option<Bulk<C>>, now: u64)
    ensures
        ({
            let (after, out) = driven(d, Happening::Bulk(frame), now);
            let (files, deeds) = bulk_came(d.files, d.gate == Some(true), frame);
            &&& after == (Drive { files, ..d })
            &&& out.len() == deeds.len()
            &&& forall|i: int|
                0 <= i < deeds.len() ==> out[i] == Drove::<C>::File(#[trigger] deeds[i])
        }),
{
}

/// As time passes each side looks after the peer, as host or as viewer, and
/// does nothing else.
pub proof fn law_time_looks_after_the_peer<C>(d: Drive<C>, now: u64)
    ensures
        ({
            let (after, out) = driven(d, Happening::<C>::Tick, now);
            let acts = live_acts(d.live, d.gate is Some, now);
            &&& after == (Drive { live: live_after(d.live, now), ..d })
            &&& out.len() == acts.len()
            &&& forall|i: int|
                0 <= i < acts.len() ==> out[i] == Drove::<C>::Live(#[trigger] acts[i])
        }),
{
}

/// Datagrams leave by the relay exactly if they are sent from its address, and
/// come from it exactly if the server sent them.
pub proof fn law_relay_is_told_by_its_addresses(turn: Option<TurnAllocation>, a: Address)
    ensures
        goes_by_relay(turn, a) <==> turn is Some && turn->0@.relayed == a,
        comes_from_relay(turn, a) <==> turn is Some && turn->0@.server == a,
{
}

} // verus!
