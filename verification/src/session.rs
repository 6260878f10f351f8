//! Around a running session: what its two gates let through, where
//! negotiation messages go, and when the picture is shown.

use vstd::prelude::*;

use crate::config::Permission;
use crate::signaling::SignalData;

verus! {

/// What a session lets through.
#[derive(Debug, Clone, Copy, PartialEq, Eq, Structural)]
pub struct Gates {
    /// The viewer's input.
    pub control: bool,
    /// Clipboard text.
    pub clipboard: bool,
}

impl Gates {
    /// The gates of a host. The clipboard can hold what was never on screen,
    /// so it goes with control.
    pub fn host(permission: Permission, clipboard_sync: bool) -> (g: Self)
        ensures
            g.control == (permission == Permission::Control),
            g.clipboard == (clipboard_sync && permission == Permission::Control),
            g.clipboard ==> g.control,
            g == host_gates(permission, clipboard_sync),
    {
        let control: bool = permission == Permission::Control;
        Gates { control, clipboard: clipboard_sync && control }
    }

    /// The gates of a viewer: nothing is injected here, and the clipboard goes
    /// by the user's setting.
    pub fn viewer(clipboard_sync: bool) -> (g: Self)
        ensures
            g == (Gates { control: false, clipboard: clipboard_sync }),
            g == viewer_gates(clipboard_sync),
    {
        Gates { control: false, clipboard: clipboard_sync }
    }
}

/// Host: lets the viewer's input through, or stops it, and the clipboard with
/// it. Without a session nothing happens.
pub fn set_control(session: &mut Option<Gates>, allow: bool, clipboard_setting: bool)
    ensures
        *final(session) == (if *old(session) is Some {
            Some(Gates { control: allow, clipboard: allow && clipboard_setting })
        } else {
            None
        }),
        *final(session) == gates_after(*old(session), allow, clipboard_setting),
{
    if session.is_some() {
        *session = Some(Gates { control: allow, clipboard: allow && clipboard_setting });
    }
}

/// What to do with the window of the picture.
#[derive(Debug, Clone, Copy, PartialEq, Eq, Structural)]
pub enum WindowAct {
    Show(isize),
    Hide(isize),
    Nothing,
}

/// Shows or hides the picture, if there is a window for it.
pub fn set_video_visible(window: isize, visible: bool) -> (a: WindowAct)
    ensures
        a == (if window == 0 {
            WindowAct::Nothing
        } else if visible {
            WindowAct::Show(window)
        } else {
            WindowAct::Hide(window)
        }),
        a == window_act(window, visible),
{
    if window == 0 {
        WindowAct::Nothing
    } else if visible {
        WindowAct::Show(window)
    } else {
        WindowAct::Hide(window)
    }
}

/// Where a negotiation message goes.
#[derive(Debug)]
pub enum SignalRoute {
    /// To the session that is running.
    Forward(SignalData),
    /// There is none, and a host offers one: this machine answers it.
    Answer(String),
    Ignore,
}

/// Finds where a negotiation message goes.
pub fn on_signal(running: bool, data: SignalData) -> (r: SignalRoute)
    ensures
        r == (if running {
            SignalRoute::Forward(data)
        } else {
            match data {
                SignalData::Offer { sdp } => SignalRoute::Answer(sdp),
                _ => SignalRoute::Ignore,
            }
        }),
        r == route_of(running, data),
{
    if running {
        return SignalRoute::Forward(data);
    }
    match data {
        SignalData::Offer { sdp } => SignalRoute::Answer(sdp),
        _ => SignalRoute::Ignore,
    }
}

/// What a running session does with a negotiation message.
#[derive(Debug)]
pub enum Negotiation {
    /// The answer to our offer.
    AcceptAnswer(String),
    /// Another path to the peer.
    AddCandidate(String),
    Ignore,
}

/// Deals with a negotiation message in a running session; `pending` if our
/// offer has not been answered yet. It is answered once.
pub fn negotiate(pending: &mut bool, data: SignalData) -> (r: Negotiation)
    ensures
        *final(pending) == (*old(pending) && !(data is Answer)),
        r == (match data {
            SignalData::Answer { sdp } => if *old(pending) {
                Negotiation::AcceptAnswer(sdp)
            } else {
                Negotiation::Ignore
            },
            SignalData::Ice { candidate } => Negotiation::AddCandidate(candidate.candidate),
            SignalData::Offer { .. } => Negotiation::Ignore,
        }),
        (*final(pending), r) == negotiated(*old(pending), data),
{
    match data {
        SignalData::Answer { sdp } => if *pending {
            *pending = false;
            Negotiation::AcceptAnswer(sdp)
        } else {
            Negotiation::Ignore
        },
        SignalData::Ice { candidate } => Negotiation::AddCandidate(candidate.candidate),
        SignalData::Offer { .. } => Negotiation::Ignore,
    }
}

/// The gates of a host.
pub open spec fn host_gates(permission: Permission, clipboard_sync: bool) -> Gates {
    Gates {
        control: permission == Permission::Control,
        clipboard: permission == Permission::Control && clipboard_sync,
    }
}

/// The gates of a viewer.
pub open spec fn viewer_gates(clipboard_sync: bool) -> Gates {
    Gates { control: false, clipboard: clipboard_sync }
}

/// The gates once the user has given control or taken it.
pub open spec fn gates_after(
    session: Option<Gates>,
    allow: bool,
    clipboard_setting: bool,
) -> Option<Gates> {
    match session {
        Some(_) => Some(Gates { control: allow, clipboard: allow && clipboard_setting }),
        None => None,
    }
}

/// What happens to the window of the picture.
pub open spec fn window_act(window: isize, visible: bool) -> WindowAct {
    if window == 0 {
        WindowAct::Nothing
    } else if visible {
        WindowAct::Show(window)
    } else {
        WindowAct::Hide(window)
    }
}

/// Where a negotiation message goes.
pub open spec fn route_of(running: bool, data: SignalData) -> SignalRoute {
    match data {
        _ if running => SignalRoute::Forward(data),
        SignalData::Offer { sdp } => SignalRoute::Answer(sdp),
        _ => SignalRoute::Ignore,
    }
}

/// Whether the offer is still unanswered, and what is done with the message.
pub open spec fn negotiated(pending: bool, data: SignalData) -> (bool, Negotiation) {
    match data {
        SignalData::Answer { sdp } => (
            false,
            if pending {
                Negotiation::AcceptAnswer(sdp)
            } else {
                Negotiation::Ignore
            },
        ),
        SignalData::Ice { candidate } => (
            pending,
            Negotiation::AddCandidate(candidate.candidate),
        ),
        SignalData::Offer { .. } => (pending, Negotiation::Ignore),
    }
}

/// A viewer's input gets through exactly while it has control; its clipboard
/// does exactly if the user mirrors it too. Taking control away shuts both, and
/// giving it leaves a host as if it had begun with it. A viewer's own machine
/// is never controlled.
pub proof fn law_gates_follow_the_permission(
    before: Gates,
    permission: Permission,
    sync: bool,
)
    ensures
        host_gates(permission, sync).control <==> permission == Permission::Control,
        host_gates(permission, sync).clipboard <==> permission == Permission::Control && sync,
        gates_after(Some(before), permission == Permission::Control, sync) == Some(
            host_gates(permission, sync),
        ),
        gates_after(None, permission == Permission::Control, sync) is None,
        !viewer_gates(sync).control,
        viewer_gates(sync).clipboard <==> sync,
{
}

/// A session that runs gets every negotiation message. Without one an offer is
/// answered, and nothing else is.
pub proof fn law_negotiation_finds_its_session(data: SignalData)
    ensures
        route_of(true, data) == SignalRoute::Forward(data),
        data is Offer ==> route_of(false, data) == SignalRoute::Answer(data->Offer_sdp),
        !(data is Offer) ==> route_of(false, data) == SignalRoute::Ignore,
{
}

/// Of all answers to an offer the first counts and no other; every candidate
/// counts, before and after it.
pub proof fn law_first_answer_counts(pending: bool, first: SignalData, second: SignalData)
    requires
        first is Answer,
    ensures
        negotiated(true, first).1 == Negotiation::AcceptAnswer(first->Answer_sdp),
        second is Answer ==> negotiated(negotiated(pending, first).0, second).1
            == Negotiation::Ignore,
        second is Ice ==> negotiated(pending, second) == (
            pending,
            Negotiation::AddCandidate((second->candidate).candidate),
        ),
        second is Offer ==> negotiated(pending, second) == (pending, Negotiation::Ignore),
{
}

/// A window that there is gets shown and hidden; without one nothing happens.
pub proof fn law_windows_are_shown_and_hidden(window: isize)
    ensures
        window != 0 ==> window_act(window, true) == WindowAct::Show(window),
        window != 0 ==> window_act(window, false) == WindowAct::Hide(window),
        window_act(0, true) == WindowAct::Nothing,
        window_act(0, false) == WindowAct::Nothing,
{
}

} // verus!
