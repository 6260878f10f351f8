//! Whether the peer of a session is still there.
//!
//! Both sides ask each other on the reliable channel every two seconds. A peer
//! that stays silent for three is reported to the user, with a countdown; after
//! fifteen the session is given up. That no datagram at all arrives for twenty
//! seconds is the last resort: it must not come before the user has seen the
//! countdown.

use vstd::prelude::*;

use crate::turn::elapsed;

verus! {

pub const DEAD_AFTER_MS: u64 = 20_000;
pub const PING_EVERY_MS: u64 = 2_000;
pub const PONG_GRACE_MS: u64 = 15_000;
pub const TROUBLE_AFTER_MS: u64 = 3_000;
pub const TROUBLE_EVERY_MS: u64 = 900;

/// Why a session ended on its own.
#[derive(Debug, Clone, Copy, PartialEq, Eq, Structural)]
pub enum Death {
    NoTraffic,
    NoAnswer,
    PeerLeft,
    Dropped,
    TransportError,
}

/// The reason in words.
pub open spec fn death_text(d: Death) -> Seq<char> {
    match d {
        Death::NoTraffic => "no response from the peer"@,
        Death::NoAnswer => "the peer stopped responding"@,
        Death::PeerLeft => "the other side ended the session"@,
        Death::Dropped => "the connection dropped"@,
        Death::TransportError => "transport error"@,
    }
}

impl Death {
    /// The reason in words.
    pub fn text(self) -> (s: &'static str)
        ensures
            s@ == death_text(self),
            self == Death::NoTraffic ==> s@ == "no response from the peer"@,
            self == Death::NoAnswer ==> s@ == "the peer stopped responding"@,
            self == Death::PeerLeft ==> s@ == "the other side ended the session"@,
            self == Death::Dropped ==> s@ == "the connection dropped"@,
            self == Death::TransportError ==> s@ == "transport error"@,
    {
        match self {
            Death::NoTraffic => "no response from the peer",
            Death::NoAnswer => "the peer stopped responding",
            Death::PeerLeft => "the other side ended the session",
            Death::Dropped => "the connection dropped",
            Death::TransportError => "transport error",
        }
    }
}

/// Something to be done about the peer.
#[derive(Debug, Clone, Copy, PartialEq, Eq, Structural)]
pub enum LiveAct {
    /// Ask the peer, with this number.
    Ping(u32),
    /// Tell the peer that this is the end.
    Bye,
    /// Take the picture down: it is stale.
    HidePicture,
    /// Tell the user that the session ends in so many seconds.
    Trouble(u32),
    /// Put the picture back up.
    ShowPicture,
    /// Ask for a picture that decoding can start from.
    AskKeyframe,
    /// Tell the user that the peer is back.
    Restored,
    /// The session is over.
    Dead(Death),
}

/// What is known of the peer. Times are milliseconds.
#[derive(Debug, Clone, Copy, PartialEq, Eq, Structural)]
pub struct Liveness {
    pub connected: bool,
    /// Whether the reliable channel is open.
    pub ctl_open: bool,
    /// When any datagram last came.
    pub last_rx: u64,
    /// When the peer was last asked.
    pub last_ping: u64,
    /// When the peer last showed that it is there.
    pub last_pong: u64,
    /// The number of the last question.
    pub seq: u32,
    /// Whether the user knows that the peer is quiet.
    pub trouble: bool,
    /// When the user was last told.
    pub last_told: u64,
}

/// The next number on the circle of 32-bit numbers.
pub open spec fn next_seq(seq: u32) -> u32 {
    if seq == u32::MAX {
        0
    } else {
        (seq + 1) as u32
    }
}

/// Whether the peer is to be asked.
pub open spec fn ping_due(l: Liveness, now: u64) -> bool {
    elapsed(now, l.last_ping) >= PING_EVERY_MS
}

/// How long the peer has been silent.
pub open spec fn silence(l: Liveness, now: u64) -> int {
    elapsed(now, l.last_pong)
}

/// What the silence of the peer calls for.
pub open spec fn silence_acts(l: Liveness, host_side: bool, now: u64) -> Seq<LiveAct> {
    let silent = silence(l, now);
    if silent > PONG_GRACE_MS {
        seq![LiveAct::Bye, LiveAct::Dead(Death::NoAnswer)]
    } else if silent >= TROUBLE_AFTER_MS {
        let cover = if !l.trouble && !host_side {
            seq![LiveAct::HidePicture]
        } else {
            seq![]
        };
        let tell = if elapsed(now, l.last_told) >= TROUBLE_EVERY_MS {
            seq![LiveAct::Trouble(((PONG_GRACE_MS - silent) / 1000) as u32)]
        } else {
            seq![]
        };
        cover + tell
    } else if l.trouble {
        if host_side {
            seq![LiveAct::Restored]
        } else {
            seq![LiveAct::ShowPicture, LiveAct::AskKeyframe, LiveAct::Restored]
        }
    } else {
        seq![]
    }
}

/// What is known of the peer once the silence has been dealt with.
pub open spec fn after_silence(l: Liveness, now: u64) -> Liveness {
    let silent = silence(l, now);
    if silent > PONG_GRACE_MS {
        l
    } else if silent >= TROUBLE_AFTER_MS {
        Liveness {
            trouble: true,
            last_told: if elapsed(now, l.last_told) >= TROUBLE_EVERY_MS {
                now
            } else {
                l.last_told
            },
            ..l
        }
    } else {
        Liveness { trouble: false, ..l }
    }
}

/// What is known once the peer has been asked, if that was due.
pub open spec fn after_asking(l: Liveness, now: u64) -> Liveness {
    if ping_due(l, now) {
        Liveness { last_ping: now, seq: next_seq(l.seq), ..l }
    } else {
        l
    }
}

/// Whether the last resort has come: nothing at all has arrived.
pub open spec fn no_traffic(l: Liveness, now: u64) -> bool {
    l.connected && elapsed(now, l.last_rx) > DEAD_AFTER_MS
}

/// What the passing of time makes of it.
pub open spec fn live_after(l: Liveness, now: u64) -> Liveness {
    if no_traffic(l, now) || !l.connected || !l.ctl_open {
        l
    } else {
        after_silence(after_asking(l, now), now)
    }
}

/// What the passing of time calls for.
pub open spec fn live_acts(l: Liveness, host_side: bool, now: u64) -> Seq<LiveAct> {
    if no_traffic(l, now) {
        seq![LiveAct::Dead(Death::NoTraffic)]
    } else if !l.connected || !l.ctl_open {
        seq![]
    } else {
        let ask = if ping_due(l, now) {
            seq![LiveAct::Ping(next_seq(l.seq))]
        } else {
            seq![]
        };
        ask + silence_acts(after_asking(l, now), host_side, now)
    }
}

impl Liveness {
    /// A session that begins.
    pub fn new(now: u64) -> (l: Self)
        ensures
            l == (Liveness {
                connected: false,
                ctl_open: false,
                last_rx: now,
                last_ping: now,
                last_pong: now,
                seq: 0,
                trouble: false,
                last_told: now,
            }),
    {
        Liveness {
            connected: false,
            ctl_open: false,
            last_rx: now,
            last_ping: now,
            last_pong: now,
            seq: 0,
            trouble: false,
            last_told: now,
        }
    }

    /// A datagram has come.
    pub fn on_datagram(&mut self, now: u64)
        ensures
            *final(self) == (Liveness { last_rx: now, ..*old(self) }),
    {
        self.last_rx = now;
    }

    /// The connection is up: the grace period starts here.
    pub fn on_connected(&mut self, now: u64)
        ensures
            *final(self) == (Liveness {
                connected: true,
                last_rx: now,
                last_pong: now,
                ..*old(self)
            }),
    {
        self.connected = true;
        self.last_rx = now;
        self.last_pong = now;
    }

    /// The reliable channel is open: the time that took does not count.
    pub fn on_ctl_open(&mut self, now: u64)
        ensures
            *final(self) == (Liveness { ctl_open: true, last_pong: now, ..*old(self) }),
    {
        self.ctl_open = true;
        self.last_pong = now;
    }

    /// The peer has shown that it is there.
    pub fn on_alive(&mut self, now: u64)
        ensures
            *final(self) == (Liveness { last_pong: now, ..*old(self) }),
    {
        self.last_pong = now;
    }

    /// Time has passed.
    pub fn tick(&mut self, host_side: bool, now: u64) -> (acts: Vec<LiveAct>)
        ensures
            *final(self) == live_after(*old(self), now),
            acts@ == live_acts(*old(self), host_side, now),
    {
        let mut acts: Vec<LiveAct> = Vec::new();
        if self.connected && now.saturating_sub(self.last_rx) > DEAD_AFTER_MS {
            acts.push(LiveAct::Dead(Death::NoTraffic));
            assert(acts@ =~= live_acts(*old(self), host_side, now));
            return acts;
        }
        if !self.connected || !self.ctl_open {
            assert(acts@ =~= live_acts(*old(self), host_side, now));
            return acts;
        }
        if now.saturating_sub(self.last_ping) >= PING_EVERY_MS {
            self.last_ping = now;
            self.seq = self.seq.wrapping_add(1);
            acts.push(LiveAct::Ping(self.seq));
        }
        let silent: u64 = now.saturating_sub(self.last_pong);
        if silent > PONG_GRACE_MS {
            acts.push(LiveAct::Bye);
            acts.push(LiveAct::Dead(Death::NoAnswer));
        } else if silent >= TROUBLE_AFTER_MS {
            if !self.trouble {
                self.trouble = true;
                if !host_side {
                    acts.push(LiveAct::HidePicture);
                }
            }
            if now.saturating_sub(self.last_told) >= TROUBLE_EVERY_MS {
                self.last_told = now;
                acts.push(LiveAct::Trouble(((PONG_GRACE_MS - silent) / 1000) as u32));
            }
        } else if self.trouble {
            self.trouble = false;
            if !host_side {
                acts.push(LiveAct::ShowPicture);
                acts.push(LiveAct::AskKeyframe);
            }
            acts.push(LiveAct::Restored);
        }
        assert(acts@ =~= live_acts(*old(self), host_side, now));
        acts
    }
}

/// A peer that has shown itself within the grace period is never given up for
/// not answering.
pub proof fn law_grace_is_granted(l: Liveness, host_side: bool, now: u64)
    requires
        silence(l, now) <= PONG_GRACE_MS,
    ensures
        !live_acts(l, host_side, now).contains(LiveAct::Dead(Death::NoAnswer)),
        !live_acts(l, host_side, now).contains(LiveAct::Bye),
{
}

/// A peer that stays silent for longer than the grace period is given up at
/// the next look, and told so first, while the link carries anything at all.
pub proof fn law_silence_ends_the_session(l: Liveness, host_side: bool, now: u64)
    requires
        l.connected,
        l.ctl_open,
        silence(l, now) > PONG_GRACE_MS,
    ensures
        ({
            let acts = live_acts(l, host_side, now);
            &&& acts.last() is Dead
            &&& !no_traffic(l, now) ==> acts.len() >= 2 && acts[acts.len() - 2] == LiveAct::Bye
        }),
{
}

/// The user is told within 900 ms that the peer is quiet, and how long is
/// left: at least no time, and at most twelve seconds.
pub proof fn law_trouble_is_reported(l: Liveness, host_side: bool, now: u64)
    requires
        l.connected,
        l.ctl_open,
        !no_traffic(l, now),
        TROUBLE_AFTER_MS <= silence(l, now) <= PONG_GRACE_MS,
        elapsed(now, l.last_told) >= TROUBLE_EVERY_MS,
    ensures
        live_acts(l, host_side, now).last() == LiveAct::Trouble(
            ((PONG_GRACE_MS - silence(l, now)) / 1000) as u32,
        ),
        (PONG_GRACE_MS - silence(l, now)) / 1000 <= 12,
        live_after(l, now).trouble,
{
}

/// The picture is hidden and shown in turn: it is hidden only when it was up,
/// and comes back only after it was hidden.
pub proof fn law_picture_follows_trouble(l: Liveness, now: u64)
    requires
        l.connected,
        l.ctl_open,
        !no_traffic(l, now),
    ensures
        live_acts(l, false, now).contains(LiveAct::HidePicture) <==> !l.trouble && live_after(
            l,
            now,
        ).trouble,
        live_acts(l, false, now).contains(LiveAct::ShowPicture) <==> l.trouble && !live_after(
            l,
            now,
        ).trouble,
{
    let acts = live_acts(l, false, now);
    let ask = if ping_due(l, now) {
        seq![LiveAct::Ping(next_seq(l.seq))]
    } else {
        seq![]
    };
    let rest = silence_acts(after_asking(l, now), false, now);
    assert(acts == ask + rest);
    let k = ask.len() as int;
    if !l.trouble && live_after(l, now).trouble {
        assert(acts[k] == rest[0]);
        assert(rest[0] == LiveAct::HidePicture);
    }
    if l.trouble && !live_after(l, now).trouble {
        assert(acts[k] == rest[0]);
        assert(rest[0] == LiveAct::ShowPicture);
    }
}

/// The last resort never comes before the countdown has run out, if the last
/// datagram is no older than the last sign of the peer.
pub proof fn law_last_resort_comes_last(l: Liveness, host_side: bool, now: u64)
    requires
        l.last_pong <= l.last_rx,
        no_traffic(l, now),
    ensures
        silence(l, now) > PONG_GRACE_MS,
{
}

/// The peer is asked every two seconds, each time with the next number; after
/// 4294967295 comes 0.
pub proof fn law_peers_are_asked_every_two_seconds(l: Liveness, host_side: bool, now: u64)
    requires
        l.connected,
        l.ctl_open,
        l.last_ping <= now,
        l.last_rx <= now <= l.last_rx + 20_000,
    ensures
        ({
            let acts = live_acts(l, host_side, now);
            let next = (l.seq + 1) % 0x1_0000_0000;
            &&& now - l.last_ping >= 2000 ==> acts.len() > 0 && acts[0] == LiveAct::Ping(
                next as u32,
            ) && live_after(l, now).last_ping == now && live_after(l, now).seq == next
            &&& now - l.last_ping < 2000 ==> live_after(l, now).last_ping == l.last_ping
                && live_after(l, now).seq == l.seq && forall|i: int|
                0 <= i < acts.len() ==> !((#[trigger] acts[i]) is Ping)
        }),
{
}

/// The session is given up once the peer has been silent for more than fifteen
/// seconds, or once nothing at all has come for more than twenty, and in no
/// other case.
pub proof fn law_sessions_are_given_up_in_time(l: Liveness, host_side: bool, now: u64)
    requires
        l.last_pong <= now,
        l.last_rx <= now,
    ensures
        ({
            let acts = live_acts(l, host_side, now);
            let nothing = l.connected && now - l.last_rx > 20_000;
            let silent = l.connected && l.ctl_open && now - l.last_pong > 15_000;
            &&& nothing ==> acts == seq![LiveAct::Dead(Death::NoTraffic)]
            &&& !nothing && silent ==> acts.last() == LiveAct::Dead(Death::NoAnswer)
                && acts.contains(LiveAct::Bye)
            &&& !nothing && !silent ==> forall|i: int|
                0 <= i < acts.len() ==> !((#[trigger] acts[i]) is Dead) && !(acts[i] is Bye)
        }),
{
    let acts = live_acts(l, host_side, now);
    if !no_traffic(l, now) && l.connected && l.ctl_open && now - l.last_pong > 15_000 {
        assert(acts[acts.len() - 2] == LiveAct::Bye);
        assert(acts[acts.len() - 1] == LiveAct::Dead(Death::NoAnswer));
    }
}

/// From three seconds of silence on, the user is told at most every 900 ms how
/// many whole seconds are left of the fifteen; before that nobody is told
/// anything but that the peer is back.
pub proof fn law_countdown_is_shown(l: Liveness, host_side: bool, now: u64)
    requires
        l.connected,
        l.ctl_open,
        l.last_pong <= now <= l.last_pong + 15_000,
        l.last_rx <= now <= l.last_rx + 20_000,
        l.last_told <= now,
    ensures
        ({
            let acts = live_acts(l, host_side, now);
            let silent = now - l.last_pong;
            &&& silent >= 3000 && now - l.last_told >= 900 ==> acts.last() == LiveAct::Trouble(
                ((15_000 - silent) / 1000) as u32,
            ) && live_after(l, now).last_told == now
            &&& silent >= 3000 && now - l.last_told < 900 ==> live_after(l, now).last_told
                == l.last_told && forall|i: int|
                0 <= i < acts.len() ==> !((#[trigger] acts[i]) is Trouble)
            &&& silent < 3000 ==> forall|i: int|
                0 <= i < acts.len() ==> !((#[trigger] acts[i]) is Trouble)
            &&& live_after(l, now).trouble == (silent >= 3000)
            &&& acts.contains(LiveAct::Restored) <==> silent < 3000 && l.trouble
            &&& acts.contains(LiveAct::AskKeyframe) <==> silent < 3000 && l.trouble && !host_side
            &&& acts.contains(LiveAct::ShowPicture) <==> silent < 3000 && l.trouble && !host_side
            &&& acts.contains(LiveAct::HidePicture) <==> silent >= 3000 && !l.trouble
                && !host_side
        }),
{
    let acts = live_acts(l, host_side, now);
    let silent = now - l.last_pong;
    let n = if ping_due(l, now) {
        1int
    } else {
        0
    };
    if silent < 3000 && l.trouble {
        if host_side {
            assert(acts[n] == LiveAct::Restored);
        } else {
            assert(acts[n] == LiveAct::ShowPicture);
            assert(acts[n + 1] == LiveAct::AskKeyframe);
            assert(acts[n + 2] == LiveAct::Restored);
        }
    }
    if silent >= 3000 && !l.trouble && !host_side {
        assert(acts[n] == LiveAct::HidePicture);
    }
}

/// Before the connection is up and its reliable channel open, the passing of
/// time changes nothing.
pub proof fn law_time_counts_from_the_opening(l: Liveness, host_side: bool, now: u64)
    requires
        !l.connected || !l.ctl_open && now <= l.last_rx + 20_000,
    ensures
        live_acts(l, host_side, now).len() == 0,
        live_after(l, now) == l,
{
}

/// Time changes only what is known of questions and of what the user has been
/// told.
pub proof fn law_time_is_no_sign_of_the_peer(l: Liveness, now: u64)
    ensures
        live_after(l, now).connected == l.connected,
        live_after(l, now).ctl_open == l.ctl_open,
        live_after(l, now).last_rx == l.last_rx,
        live_after(l, now).last_pong == l.last_pong,
{
}

} // verus!
