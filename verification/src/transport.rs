//! What the media connection's events mean for a session, and which channel
//! carries what.
//!
//! | carrier          | reliability               | carries                  |
//! |------------------|---------------------------|--------------------------|
//! | video media      | repaired, never stalling  | encoded frames           |
//! | `ctl` channel    | reliable, ordered         | input, control messages  |
//! | `cursor` channel | unreliable, latest counts | pointer positions        |
//! | `bulk` channel   | reliable, ordered         | files                    |

use vstd::prelude::*;
use vstd::string::StringExecFns;

use crate::text::{owned, same_text};

verus! {

/// How a channel is set up.
#[derive(Debug)]
pub struct ChannelSpec {
    pub label: &'static str,
    pub ordered: bool,
    /// How often a message is sent again; `None` for as often as it takes.
    pub retransmits: Option<u16>,
}

/// The channels that the host creates.
pub fn channel_configs() -> (c: (ChannelSpec, ChannelSpec, ChannelSpec))
    ensures
        c.0.label@ == "ctl"@ && c.0.ordered && c.0.retransmits is None,
        c.1.label@ == "cursor"@ && !c.1.ordered && c.1.retransmits == Some(0u16),
        c.2.label@ == "bulk"@ && c.2.ordered && c.2.retransmits is None,
{
    (
        ChannelSpec { label: "ctl", ordered: true, retransmits: None },
        ChannelSpec { label: "cursor", ordered: false, retransmits: Some(0) },
        ChannelSpec { label: "bulk", ordered: true, retransmits: None },
    )
}

/// An event of the media connection. Channels and tracks go by numbers.
#[derive(Debug)]
pub enum RtcEvent {
    Connected,
    /// The state of the path has changed.
    PathState { disconnected: bool },
    MediaAdded { video: bool, mid: u64 },
    MediaData { data: Vec<u8>, keyframe: bool, contiguous: bool },
    KeyframeRequest,
    /// A new estimate of the link, in bits per second.
    Estimate(u64),
    ChannelOpen(u64, String),
    ChannelData(u64, Vec<u8>),
    Other,
}

/// What an event means for the session.
#[derive(Debug)]
pub enum Inbound {
    Connected,
    Disconnected,
    Video { data: Vec<u8>, keyframe: bool, contiguous: bool },
    KeyframeRequest,
    BweEstimate(u32),
    Ctl(Vec<u8>),
    Cursor(Vec<u8>),
    Bulk(Vec<u8>),
    ChannelOpen(String),
}

/// Why something could not be sent: the channel of this name is not open.
#[derive(Debug)]
pub struct ChannelClosed(pub &'static str);

impl ChannelClosed {
    /// The error in words.
    pub fn message(&self) -> (text: String)
        ensures
            text@ == "channel "@ + self.0@ + " not open"@,
    {
        owned("channel ").concat(self.0).concat(" not open")
    }
}

/// Which channel is which.
#[derive(Debug, Clone, Copy, PartialEq, Eq, Structural)]
pub struct Routes {
    pub ctl: Option<u64>,
    pub cursor: Option<u64>,
    pub bulk: Option<u64>,
    /// The video track.
    pub video: Option<u64>,
}

/// What an event teaches about the channels.
pub open spec fn routes_after(r: Routes, ev: RtcEvent) -> Routes {
    match ev {
        RtcEvent::MediaAdded { video, mid } => if video {
            Routes { video: Some(mid), ..r }
        } else {
            r
        },
        RtcEvent::ChannelOpen(id, label) => if label@ == "ctl"@ {
            Routes { ctl: Some(id), ..r }
        } else if label@ == "cursor"@ {
            Routes { cursor: Some(id), ..r }
        } else if label@ == "bulk"@ {
            Routes { bulk: Some(id), ..r }
        } else {
            r
        },
        _ => r,
    }
}

/// What an event means for the session; `None` if nothing. Empty media counts
/// for nothing, and neither does data on an unknown channel.
pub open spec fn meaning(r: Routes, ev: RtcEvent) -> Option<Inbound> {
    match ev {
        RtcEvent::Connected => Some(Inbound::Connected),
        RtcEvent::PathState { disconnected } => if disconnected {
            Some(Inbound::Disconnected)
        } else {
            None
        },
        RtcEvent::MediaData { data, keyframe, contiguous } => if data@.len() > 0 {
            Some(Inbound::Video { data, keyframe, contiguous })
        } else {
            None
        },
        RtcEvent::KeyframeRequest => Some(Inbound::KeyframeRequest),
        RtcEvent::Estimate(bps) => Some(
            Inbound::BweEstimate(
                if bps > u32::MAX {
                    u32::MAX
                } else {
                    bps as u32
                },
            ),
        ),
        RtcEvent::ChannelOpen(_, label) => Some(Inbound::ChannelOpen(label)),
        RtcEvent::ChannelData(id, data) => if r.ctl == Some(id) {
            Some(Inbound::Ctl(data))
        } else if r.cursor == Some(id) {
            Some(Inbound::Cursor(data))
        } else if r.bulk == Some(id) {
            Some(Inbound::Bulk(data))
        } else {
            None
        },
        _ => None,
    }
}

fn is_id(known: Option<u64>, id: u64) -> (yes: bool)
    ensures
        yes == (known == Some(id)),
{
    match known {
        Some(k) => k == id,
        None => false,
    }
}

impl Routes {
    /// No channel is known.
    pub fn new() -> (r: Self)
        ensures
            r == (Routes { ctl: None, cursor: None, bulk: None, video: None }),
    {
        Routes { ctl: None, cursor: None, bulk: None, video: None }
    }

    /// The host has created the channels and the video track.
    pub fn created(ctl: u64, cursor: u64, bulk: u64, video: u64) -> (r: Self)
        ensures
            r == (Routes {
                ctl: Some(ctl),
                cursor: Some(cursor),
                bulk: Some(bulk),
                video: Some(video),
            }),
    {
        Routes { ctl: Some(ctl), cursor: Some(cursor), bulk: Some(bulk), video: Some(video) }
    }

    /// Tells what an event means for the session.
    pub fn on_event(&mut self, ev: RtcEvent) -> (r: Option<Inbound>)
        ensures
            *final(self) == routes_after(*old(self), ev),
            r == meaning(*old(self), ev),
    {
        match ev {
            RtcEvent::Connected => Some(Inbound::Connected),
            RtcEvent::PathState { disconnected } => if disconnected {
                Some(Inbound::Disconnected)
            } else {
                None
            },
            RtcEvent::MediaAdded { video, mid } => {
                if video {
                    self.video = Some(mid);
                }
                None
            },
            RtcEvent::MediaData { data, keyframe, contiguous } => if data.len() == 0 {
                None
            } else {
                Some(Inbound::Video { data, keyframe, contiguous })
            },
            RtcEvent::KeyframeRequest => Some(Inbound::KeyframeRequest),
            RtcEvent::Estimate(bps) => Some(
                Inbound::BweEstimate(
                    if bps > u32::MAX as u64 {
                        u32::MAX
                    } else {
                        bps as u32
                    },
                ),
            ),
            RtcEvent::ChannelOpen(id, label) => {
                if same_text(label.as_str(), "ctl") {
                    self.ctl = Some(id);
                } else if same_text(label.as_str(), "cursor") {
                    self.cursor = Some(id);
                } else if same_text(label.as_str(), "bulk") {
                    self.bulk = Some(id);
                }
                Some(Inbound::ChannelOpen(label))
            },
            RtcEvent::ChannelData(id, data) => if is_id(self.ctl, id) {
                Some(Inbound::Ctl(data))
            } else if is_id(self.cursor, id) {
                Some(Inbound::Cursor(data))
            } else if is_id(self.bulk, id) {
                Some(Inbound::Bulk(data))
            } else {
                None
            },
            RtcEvent::Other => None,
        }
    }

    /// The channel for control messages.
    pub fn ctl_channel(&self) -> (r: Result<u64, ChannelClosed>)
        ensures
            r is Ok <==> self.ctl is Some,
            r is Ok ==> self.ctl == Some(r->Ok_0),
            r is Err ==> r->Err_0.0@ == "ctl"@,
    {
        match self.ctl {
            Some(id) => Ok(id),
            None => Err(ChannelClosed("ctl")),
        }
    }

    /// The channel for pointer positions.
    pub fn cursor_channel(&self) -> (r: Result<u64, ChannelClosed>)
        ensures
            r is Ok <==> self.cursor is Some,
            r is Ok ==> self.cursor == Some(r->Ok_0),
            r is Err ==> r->Err_0.0@ == "cursor"@,
    {
        match self.cursor {
            Some(id) => Ok(id),
            None => Err(ChannelClosed("cursor")),
        }
    }

    /// The channel for files.
    pub fn bulk_channel(&self) -> (r: Result<u64, ChannelClosed>)
        ensures
            r is Ok <==> self.bulk is Some,
            r is Ok ==> self.bulk == Some(r->Ok_0),
            r is Err ==> r->Err_0.0@ == "bulk"@,
    {
        match self.bulk {
            Some(id) => Ok(id),
            None => Err(ChannelClosed("bulk")),
        }
    }
}

/// How far a media clock has come in some microseconds.
pub fn media_ticks(elapsed_us: u64, clock_hz: u32) -> (ticks: u64)
    requires
        elapsed_us * clock_hz <= u64::MAX,
    ensures
        ticks == elapsed_us * clock_hz / 1_000_000,
        ticks == ticks_in(elapsed_us as int, clock_hz as int),
{
    elapsed_us * clock_hz as u64 / 1_000_000
}

/// How much may wait in the bulk channel.
pub const BULK_QUEUE_LIMIT: usize = 262144;

/// Whether another piece of a file may go out: only while little is waiting,
/// or the picture would starve for the whole transfer.
pub fn may_send_bulk(open: bool, buffered: usize) -> (yes: bool)
    ensures
        yes == (open && buffered < BULK_QUEUE_LIMIT),
        yes == (open && buffered < 262_144),
{
    open && buffered < BULK_QUEUE_LIMIT
}

/// What comes in on a channel goes to the part of the session that the
/// channel's label names.
pub proof fn law_channels_go_by_label(r: Routes, id: u64, label: String, data: Vec<u8>)
    requires
        r.ctl != Some(id),
        r.cursor != Some(id),
    ensures
        ({
            let known = routes_after(r, RtcEvent::ChannelOpen(id, label));
            let got = meaning(known, RtcEvent::ChannelData(id, data));
            &&& label@ == "ctl"@ ==> got == Some(Inbound::Ctl(data))
            &&& label@ == "cursor"@ ==> got == Some(Inbound::Cursor(data))
            &&& label@ == "bulk"@ ==> got == Some(Inbound::Bulk(data))
        }),
{
    reveal_strlit("ctl");
    reveal_strlit("cursor");
    reveal_strlit("bulk");
    assert("ctl"@.len() == 3);
    assert("cursor"@.len() == 6);
    assert("bulk"@.len() == 4);
}

/// Three labels name channels, "ctl", "cursor" and "bulk", and a video track
/// is remembered as such; nothing else is learnt from an event.
pub proof fn law_channels_are_learnt(r: Routes, id: u64, label: String, ev: RtcEvent)
    ensures
        ({
            let after = routes_after(r, RtcEvent::ChannelOpen(id, label));
            let ctl = label@ == seq!['c', 't', 'l'];
            let cursor = label@ == seq!['c', 'u', 'r', 's', 'o', 'r'];
            let bulk = label@ == seq!['b', 'u', 'l', 'k'];
            &&& after.ctl == (if ctl {
                Some(id)
            } else {
                r.ctl
            })
            &&& after.cursor == (if cursor {
                Some(id)
            } else {
                r.cursor
            })
            &&& after.bulk == (if bulk {
                Some(id)
            } else {
                r.bulk
            })
            &&& after.video == r.video
        }),
        routes_after(r, RtcEvent::MediaAdded { video: true, mid: id }) == (Routes {
            video: Some(id),
            ..r
        }),
        routes_after(r, RtcEvent::MediaAdded { video: false, mid: id }) == r,
        !(ev is ChannelOpen) && !(ev is MediaAdded) ==> routes_after(r, ev) == r,
{
    reveal_strlit("ctl");
    reveal_strlit("cursor");
    reveal_strlit("bulk");
    assert("ctl"@ =~= seq!['c', 't', 'l']);
    assert("cursor"@ =~= seq!['c', 'u', 'r', 's', 'o', 'r']);
    assert("bulk"@ =~= seq!['b', 'u', 'l', 'k']);
    assert(seq!['c', 't', 'l'].len() == 3);
    assert(seq!['c', 'u', 'r', 's', 'o', 'r'].len() == 6);
    assert(seq!['b', 'u', 'l', 'k'].len() == 4);
}

/// What comes in is handed on as it came: frames that are not empty, data by
/// the channel that it came on, the estimate as far as 32 bits hold it.
pub proof fn law_what_comes_in_is_handed_on(
    r: Routes,
    data: Vec<u8>,
    keyframe: bool,
    contiguous: bool,
    bps: u64,
    id: u64,
    label: String,
)
    ensures
        meaning(r, RtcEvent::Connected) == Some(Inbound::Connected),
        meaning(r, RtcEvent::PathState { disconnected: true }) == Some(Inbound::Disconnected),
        meaning(r, RtcEvent::PathState { disconnected: false }) is None,
        data@.len() > 0 ==> meaning(r, RtcEvent::MediaData { data, keyframe, contiguous }) == Some(
            Inbound::Video { data, keyframe, contiguous },
        ),
        data@.len() == 0 ==> meaning(r, RtcEvent::MediaData { data, keyframe, contiguous }) is None,
        meaning(r, RtcEvent::KeyframeRequest) == Some(Inbound::KeyframeRequest),
        bps < 0x1_0000_0000 ==> meaning(r, RtcEvent::Estimate(bps)) == Some(
            Inbound::BweEstimate(bps as u32),
        ),
        bps >= 0x1_0000_0000 ==> meaning(r, RtcEvent::Estimate(bps)) == Some(
            Inbound::BweEstimate(0xFFFF_FFFF),
        ),
        meaning(r, RtcEvent::ChannelOpen(id, label)) == Some(Inbound::ChannelOpen(label)),
        r.ctl == Some(id) ==> meaning(r, RtcEvent::ChannelData(id, data)) == Some(
            Inbound::Ctl(data),
        ),
        r.cursor == Some(id) && r.ctl != Some(id) ==> meaning(
            r,
            RtcEvent::ChannelData(id, data),
        ) == Some(Inbound::Cursor(data)),
        r.bulk == Some(id) && r.ctl != Some(id) && r.cursor != Some(id) ==> meaning(
            r,
            RtcEvent::ChannelData(id, data),
        ) == Some(Inbound::Bulk(data)),
        r.ctl != Some(id) && r.cursor != Some(id) && r.bulk != Some(id) ==> meaning(
            r,
            RtcEvent::ChannelData(id, data),
        ) is None,
        meaning(r, RtcEvent::MediaAdded { video: keyframe, mid: id }) is None,
        meaning(r, RtcEvent::Other) is None,
{
}

/// How many ticks a clock makes in some microseconds.
pub open spec fn ticks_in(us: int, hz: int) -> int {
    us * hz / 1_000_000
}

/// A clock makes as many ticks in a second as its rate says, and never a part
/// of one.
pub proof fn law_clocks_tick_at_their_rate(secs: nat, hz: nat, us: nat)
    ensures
        ticks_in(1_000_000 * secs as int, hz as int) == secs * hz,
        1_000_000 * ticks_in(us as int, hz as int) <= us * hz < 1_000_000 * (ticks_in(
            us as int,
            hz as int,
        ) + 1),
{
    assert((1_000_000 * secs) * hz == 1_000_000 * (secs * hz)) by (nonlinear_arith);
}

} // verus!
