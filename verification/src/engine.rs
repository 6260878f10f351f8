//! The control plane: what signaling messages and the user's actions make of
//! this machine's role, and what is to be done about them.
//!
//! A machine takes part in one session at a time.

use vstd::prelude::*;
use vstd::string::StringExecFns;

use crate::assoc::TextMap;
use crate::codec::{
    best_codec, codec_name, codec_number, codec_or_default, decodable, encodable, host_encodable,
    named_codecs, set_codec_from_str, set_negotiated_codec_from_caps, viewer_decode_caps, Codec,
    Probes,
};
use crate::config::{
    hashed, law_only_these_words_grant, law_password_lets_in, patched, permission_name,
    permission_of, proof_bytes, proves, stored_hash, texts, with_recent, Config, Mode, Permission,
    SettingsPatch,
};
use crate::control::Ctl;
use crate::driver::{ctl_came, Drive, Drove};
use crate::handshake::{compute_proof, random_nonce, ApprovalDecision};
use crate::input::Input;
use crate::secret::hex_text;
use crate::signaling::{text_of, Caps, Event, Sig, SignalData, SignalMsg};
use crate::text::{owned, same_text};

verus! {

/// What this machine is doing.
#[derive(Debug)]
pub enum Role {
    Idle,
    /// It is being watched.
    Host { peer: String, permission: Permission },
    /// It is watching.
    Viewer { peer: String, permission: Permission },
}

/// What a machine is doing, with the peer's name as a sequence.
pub ghost enum Doing {
    Idle,
    Host(Seq<char>, Permission),
    Viewer(Seq<char>, Permission),
}

impl View for Role {
    type V = Doing;

    open spec fn view(&self) -> Doing {
        match self {
            Role::Idle => Doing::Idle,
            Role::Host { peer, permission } => Doing::Host(peer@, *permission),
            Role::Viewer { peer, permission } => Doing::Viewer(peer@, *permission),
        }
    }
}

impl Clone for Role {
    fn clone(&self) -> (r: Role)
        ensures
            r@ == self@,
    {
        match self {
            Role::Idle => Role::Idle,
            Role::Host { peer, permission } => Role::Host {
                peer: peer.clone(),
                permission: *permission,
            },
            Role::Viewer { peer, permission } => Role::Viewer {
                peer: peer.clone(),
                permission: *permission,
            },
        }
    }
}

/// The name of what a machine is doing.
pub open spec fn role_name(d: Doing) -> Seq<char> {
    match d {
        Doing::Idle => "idle"@,
        Doing::Host(_, _) => "host"@,
        Doing::Viewer(_, _) => "viewer"@,
    }
}

impl Role {
    /// The name of the role.
    pub fn name(&self) -> (s: &'static str)
        ensures
            s@ == role_name(self@),
    {
        match self {
            Role::Idle => "idle",
            Role::Host { .. } => "host",
            Role::Viewer { .. } => "viewer",
        }
    }

    /// Whether the machine is in no session.
    pub fn is_idle(&self) -> (yes: bool)
        ensures
            yes == (self@ == Doing::Idle),
    {
        match self {
            Role::Idle => true,
            _ => false,
        }
    }

    /// Whether the machine is in a session with this peer.
    pub fn is_with(&self, name: &str) -> (yes: bool)
        ensures
            yes == is_peer(self@, name@),
    {
        match self {
            Role::Idle => false,
            Role::Host { peer, .. } => same_text(peer.as_str(), name),
            Role::Viewer { peer, .. } => same_text(peer.as_str(), name),
        }
    }

    /// Whether the machine may become this host's viewer.
    pub fn may_watch(&self, host: &str) -> (yes: bool)
        ensures
            yes == may_watch(self@, host@),
    {
        match self {
            Role::Idle => true,
            Role::Host { .. } => false,
            Role::Viewer { peer, .. } => same_text(peer.as_str(), host),
        }
    }
}

/// What the user is told.
#[derive(Debug)]
pub enum UiEvent {
    ServerStatus(&'static str),
    /// A viewer wants in.
    ApprovalRequest { from: String },
    /// The host wants a password.
    PasswordRequired { from: String },
    RoleChanged(Role),
    /// A passing message.
    Toast(String),
    /// The peer is quiet; the session ends in so many seconds.
    LinkTrouble { secs_left: u32 },
    /// The peer has answered again.
    LinkRestored,
}

/// What the user is told, with text as sequences.
pub ghost enum Shown {
    ServerStatus(Seq<char>),
    ApprovalRequest(Seq<char>),
    PasswordRequired(Seq<char>),
    RoleChanged(Doing),
    Toast(Seq<char>),
    LinkTrouble(u32),
    LinkRestored,
}

impl View for UiEvent {
    type V = Shown;

    open spec fn view(&self) -> Shown {
        match self {
            UiEvent::ServerStatus(s) => Shown::ServerStatus(s@),
            UiEvent::ApprovalRequest { from } => Shown::ApprovalRequest(from@),
            UiEvent::PasswordRequired { from } => Shown::PasswordRequired(from@),
            UiEvent::RoleChanged(r) => Shown::RoleChanged(r@),
            UiEvent::Toast(s) => Shown::Toast(s@),
            UiEvent::LinkTrouble { secs_left } => Shown::LinkTrouble(*secs_left),
            UiEvent::LinkRestored => Shown::LinkRestored,
        }
    }
}

/// How long a wrong proof is left without an answer.
pub const BAD_PASSWORD_DELAY_MS: u64 = 2_000;

/// How long a host that was asked may take to answer.
pub const ANSWER_TIMEOUT_MS: u64 = 30_000;

/// Something to be done.
#[derive(Debug)]
pub enum Action {
    /// Send a signaling message.
    Send(SignalMsg),
    /// Wait this long, then send a signaling message.
    SendLater(u64, SignalMsg),
    /// Tell the user.
    Tell(UiEvent),
    /// Ask the user whether to let this viewer in.
    Ask { from: String },
    /// Write the settings down.
    Persist,
    BeginHost { peer: String, permission: Permission },
    BeginViewer { peer: String, permission: Permission },
    /// Hand a negotiation message to the media session.
    Negotiate { from: String, data: SignalData },
    /// End the media session.
    Teardown,
    /// Let the viewer's input through, or stop it.
    SetControl(bool),
    /// Tell the viewer what it may do.
    SendPermission(Permission),
    /// Capture the input that goes to the host, or stop.
    CaptureInput(bool),
    /// Take the picture down and stop capturing input.
    HideVideo,
    /// Wait this long, then report that the request with this number is
    /// overdue.
    Await(u64, u64),
    /// Leave the signaling server and go to this one.
    Reconnect(String),
}

/// Something to be done, with text as sequences.
pub ghost enum Deed {
    Send(Sig),
    SendLater(u64, Sig),
    Tell(Shown),
    Ask(Seq<char>),
    Persist,
    BeginHost(Seq<char>, Permission),
    BeginViewer(Seq<char>, Permission),
    Negotiate(Seq<char>, SignalData),
    Teardown,
    SetControl(bool),
    SendPermission(Permission),
    CaptureInput(bool),
    HideVideo,
    Await(u64, u64),
    Reconnect(Seq<char>),
}

impl View for Action {
    type V = Deed;

    open spec fn view(&self) -> Deed {
        match self {
            Action::Send(m) => Deed::Send(m@),
            Action::SendLater(ms, m) => Deed::SendLater(*ms, m@),
            Action::Tell(e) => Deed::Tell(e@),
            Action::Ask { from } => Deed::Ask(from@),
            Action::Persist => Deed::Persist,
            Action::BeginHost { peer, permission } => Deed::BeginHost(peer@, *permission),
            Action::BeginViewer { peer, permission } => Deed::BeginViewer(peer@, *permission),
            Action::Negotiate { from, data } => Deed::Negotiate(from@, *data),
            Action::Teardown => Deed::Teardown,
            Action::SetControl(b) => Deed::SetControl(*b),
            Action::SendPermission(p) => Deed::SendPermission(*p),
            Action::CaptureInput(b) => Deed::CaptureInput(*b),
            Action::HideVideo => Deed::HideVideo,
            Action::Await(ms, ticket) => Deed::Await(*ms, *ticket),
            Action::Reconnect(url) => Deed::Reconnect(url@),
        }
    }
}

/// The deeds in a list of actions.
pub open spec fn deeds(v: Seq<Action>) -> Seq<Deed> {
    v.map_values(|a: Action| a@)
}

/// What the engine knows.
#[verifier::ext_equal]
pub ghost struct Core {
    pub role: Doing,
    /// Whether this machine is registered with the signaling server.
    pub connected: bool,
    /// The nonce that a peer was given, or has given.
    pub nonces: Map<Seq<char>, Seq<char>>,
    /// What a peer that has asked to watch can decode.
    pub caps: Map<Seq<char>, Seq<Seq<char>>>,
    /// The number of the codec of the session.
    pub codec: u8,
    pub recents: Seq<Seq<char>>,
    /// The host that was asked last and has not answered, and the number of
    /// that request.
    pub asked: Option<(Seq<char>, u64)>,
    /// The number of the next request.
    pub tickets: u64,
}

/// What the engine goes by and does not change here.
pub ghost struct Rules {
    pub mode: Mode,
    pub hash: Option<Seq<char>>,
    pub password_permission: Permission,
    pub encodes: Seq<Codec>,
    pub decodes: Seq<Seq<char>>,
}

/// A refusal of a connection request.
pub open spec fn refuse(to: Seq<char>, reason: Seq<char>) -> Sig {
    Sig::ConnectResponse {
        to: Some(to),
        from: None,
        accepted: false,
        permission: None,
        reason: Some(reason),
        codec: None,
    }
}

/// What a viewer who has asked to watch can decode.
pub open spec fn caps_of(c: Core, peer: Seq<char>) -> Seq<Seq<char>> {
    if c.caps.contains_key(peer) {
        c.caps[peer]
    } else {
        seq![]
    }
}

/// The nonce that stands open with a peer; empty if there is none.
pub open spec fn nonce_of(c: Core, peer: Seq<char>) -> Seq<char> {
    if c.nonces.contains_key(peer) {
        c.nonces[peer]
    } else {
        seq![]
    }
}

/// A host is asked to let this machine watch.
pub open spec fn asking(c: Core, host: Seq<char>) -> Core {
    Core {
        asked: Some((host, c.tickets)),
        tickets: if c.tickets == u64::MAX {
            0
        } else {
            (c.tickets + 1) as u64
        },
        ..c
    }
}

/// A host has answered: if it is the one that was asked, nobody waits for it
/// any more.
pub open spec fn heard(c: Core, from: Seq<char>) -> Core {
    if c.asked is Some && c.asked->Some_0.0 == from {
        Core { asked: None, ..c }
    } else {
        c
    }
}

/// The time for an answer is over. That matters only if this very request is
/// still open.
pub open spec fn overdue(c: Core, ticket: u64) -> (Core, Seq<Deed>) {
    if c.asked is Some && c.asked->Some_0.1 == ticket {
        (
            Core { asked: None, ..c },
            seq![Deed::Tell(Shown::Toast("no answer / timed out"@))],
        )
    } else {
        (c, seq![])
    }
}

/// Letting a viewer in.
pub open spec fn accepted(c: Core, r: Rules, peer: Seq<char>, p: Permission) -> (
    Core,
    Seq<Deed>,
) {
    let codec = best_codec(r.encodes, named_codecs(caps_of(c, peer)));
    (
        Core {
            role: Doing::Host(peer, p),
            caps: c.caps.remove(peer),
            codec: codec_number(codec),
            recents: with_recent(c.recents, peer),
            ..c
        },
        seq![
            Deed::Send(
                Sig::ConnectResponse {
                    to: Some(peer),
                    from: None,
                    accepted: true,
                    permission: Some(permission_name(p)),
                    reason: None,
                    codec: Some(codec_name(codec)),
                },
            ),
            Deed::Tell(Shown::RoleChanged(Doing::Host(peer, p))),
            Deed::Persist,
            Deed::BeginHost(peer, p),
        ],
    )
}

/// What the user's decision makes of a viewer's request.
pub open spec fn decided(c: Core, r: Rules, from: Seq<char>, d: ApprovalDecision) -> (
    Core,
    Seq<Deed>,
) {
    match d {
        ApprovalDecision::Deny => (c, seq![Deed::Send(refuse(from, "denied"@))]),
        ApprovalDecision::TimedOut => (c, seq![Deed::Send(refuse(from, "timeout"@))]),
        ApprovalDecision::Allow(p) => if c.role == Doing::Idle {
            accepted(c, r, from, p)
        } else {
            (c, seq![Deed::Send(refuse(from, "busy"@))])
        },
    }
}

/// What becomes of a viewer's request. `nonce` is a fresh one, should it be
/// needed.
pub open spec fn requested(
    c: Core,
    r: Rules,
    from: Seq<char>,
    password: Option<Seq<char>>,
    decode: Seq<Seq<char>>,
    nonce: Seq<char>,
) -> (Core, Seq<Deed>) {
    let noted = if decode.len() > 0 {
        Core { caps: c.caps.insert(from, decode), ..c }
    } else {
        c
    };
    if c.role != Doing::Idle {
        (c, seq![Deed::Send(refuse(from, "busy"@))])
    } else if r.mode == Mode::Approve || r.hash is None {
        (noted, seq![Deed::Tell(Shown::ApprovalRequest(from)), Deed::Ask(from)])
    } else {
        match password {
            None => (
                Core { nonces: noted.nonces.insert(from, nonce), ..noted },
                seq![Deed::Send(Sig::PasswordRequired { to: Some(from), from: None, nonce })],
            ),
            Some(given) => {
                let used = Core { nonces: noted.nonces.remove(from), ..noted };
                if proves(r.hash, nonce_of(noted, from), given) {
                    accepted(used, r, from, r.password_permission)
                } else {
                    (
                        used,
                        seq![
                            Deed::SendLater(
                                BAD_PASSWORD_DELAY_MS,
                                refuse(from, "bad-password"@),
                            ),
                        ],
                    )
                }
            },
        }
    }
}

/// Whether a machine in this role may become a host's viewer: not while it is
/// in a session with somebody else, or is that machine's host.
pub open spec fn may_watch(role: Doing, host: Seq<char>) -> bool {
    match role {
        Doing::Idle => true,
        Doing::Host(_, _) => false,
        Doing::Viewer(peer, _) => peer == host,
    }
}

/// What becomes of a host's answer. A machine that is in a session already
/// stays in it, and lets the host go.
pub open spec fn answered(
    before: Core,
    from: Seq<char>,
    ok: bool,
    permission: Option<Seq<char>>,
    reason: Option<Seq<char>>,
    codec: Option<Seq<char>>,
) -> (Core, Seq<Deed>) {
    let c = heard(before, from);
    let p = match permission {
        Some(name) => permission_of(name),
        None => Permission::View,
    };
    let name = match codec {
        Some(name) => name,
        None => "H264"@,
    };
    let why = match reason {
        Some(why) => why,
        None => "denied"@,
    };
    if ok && !may_watch(c.role, from) {
        (
            c,
            if is_peer(c.role, from) {
                seq![]
            } else {
                seq![Deed::Send(Sig::EndSession { to: Some(from), from: None })]
            },
        )
    } else if ok {
        (
            Core {
                role: Doing::Viewer(from, p),
                codec: codec_number(codec_or_default(name)),
                ..c
            },
            seq![
                Deed::Tell(Shown::RoleChanged(Doing::Viewer(from, p))),
                Deed::BeginViewer(from, p),
            ],
        )
    } else {
        (c, seq![Deed::Tell(Shown::Toast("connection "@ + why))])
    }
}

/// Ending the session on this machine.
pub open spec fn ended(c: Core) -> (Core, Seq<Deed>) {
    (
        Core { role: Doing::Idle, ..c },
        seq![Deed::Teardown, Deed::Tell(Shown::RoleChanged(Doing::Idle))],
    )
}

/// The media connection dies. If there was a session, the picture goes at
/// once, for it covers everything else, and nothing is left running.
pub open spec fn died(c: Core, reason: Seq<char>) -> (Core, Seq<Deed>) {
    if c.role == Doing::Idle {
        (c, seq![])
    } else {
        (
            Core { role: Doing::Idle, ..c },
            seq![
                Deed::HideVideo,
                Deed::Tell(Shown::Toast("Disconnected: "@ + reason)),
                Deed::Tell(Shown::RoleChanged(Doing::Idle)),
                Deed::Teardown,
            ],
        )
    }
}

/// Whether a machine sends its user's input to the host that it watches: only
/// while that host lets it.
pub open spec fn captures(role: Doing) -> bool {
    role is Viewer && role->Viewer_1 == Permission::Control
}

/// The user of a host changes what the viewer may do.
pub open spec fn switched(c: Core, p: Permission) -> (Core, Seq<Deed>) {
    match c.role {
        Doing::Host(peer, _) => (
            Core { role: Doing::Host(peer, p), ..c },
            seq![Deed::SetControl(p == Permission::Control), Deed::SendPermission(p)],
        ),
        _ => (c, seq![]),
    }
}

/// The host that a viewer watches says what the viewer may do. The user is
/// told, and input is captured or no longer.
pub open spec fn told(c: Core, p: Permission) -> (Core, Seq<Deed>) {
    match c.role {
        Doing::Viewer(peer, _) => (
            Core { role: Doing::Viewer(peer, p), ..c },
            seq![
                Deed::Tell(Shown::RoleChanged(Doing::Viewer(peer, p))),
                Deed::CaptureInput(p == Permission::Control),
            ],
        ),
        _ => (c, seq![]),
    }
}

/// Whether a machine is in a session with this peer.
pub open spec fn is_peer(role: Doing, name: Seq<char>) -> bool {
    match role {
        Doing::Idle => false,
        Doing::Host(peer, _) => peer == name,
        Doing::Viewer(peer, _) => peer == name,
    }
}

/// What a relayed message makes of the engine. A message that names no sender
/// or that is not known is ignored.
pub open spec fn routed(c: Core, r: Rules, msg: Sig, nonce: Seq<char>) -> (Core, Seq<Deed>) {
    match msg {
        Sig::ConnectRequest { from: Some(from), password, caps, .. } => requested(
            c,
            r,
            from,
            password,
            match caps {
                Some(decode) => decode,
                None => seq![],
            },
            nonce,
        ),
        Sig::ConnectResponse { from: Some(from), accepted, permission, reason, codec, .. } =>
            answered(c, from, accepted, permission, reason, codec),
        Sig::PasswordRequired { from: Some(from), nonce, .. } => (
            Core { nonces: c.nonces.insert(from, nonce), ..heard(c, from) },
            seq![Deed::Tell(Shown::PasswordRequired(from))],
        ),
        Sig::Signal { from: Some(from), data, .. } => (c, seq![Deed::Negotiate(from, data)]),
        Sig::EndSession { from: Some(from), .. } => if is_peer(c.role, from) {
            ended(c)
        } else {
            (c, seq![])
        },
        Sig::RelayError { reason, .. } => if reason == "peer-offline"@ {
            (
                Core { asked: None, ..ended(c).0 },
                seq![Deed::Tell(Shown::Toast("Peer offline"@))] + ended(c).1,
            )
        } else {
            (c, seq![])
        },
        _ => (c, seq![]),
    }
}

/// What an event of the signaling connection makes of the engine.
pub open spec fn handled(c: Core, r: Rules, ev: Event, nonce: Seq<char>) -> (Core, Seq<Deed>) {
    match ev {
        Event::Registered => (
            Core { connected: true, ..c },
            seq![Deed::Tell(Shown::ServerStatus("connected"@))],
        ),
        Event::RegisterError(reason) => (
            c,
            seq![Deed::Tell(Shown::Toast("server rejected: "@ + reason@))],
        ),
        Event::Disconnected => (
            Core { connected: false, ..c },
            seq![Deed::Tell(Shown::ServerStatus("reconnecting"@))],
        ),
        Event::Message(msg) => routed(c, r, msg@, nonce),
    }
}

/// The engine: the settings, the role, and what stands open with peers.
#[derive(Debug)]
pub struct Engine {
    config: Config,
    role: Role,
    connected: bool,
    pending_nonce: TextMap<String>,
    pending_caps: TextMap<Vec<String>>,
    negotiated: u8,
    can_encode: Probes,
    can_decode: Probes,
    asked: Option<(String, u64)>,
    tickets: u64,
}

impl View for Engine {
    type V = Core;

    closed spec fn view(&self) -> Core {
        Core {
            role: self.role@,
            connected: self.connected,
            nonces: self.pending_nonce@.map_values(|s: String| s@),
            caps: self.pending_caps@.map_values(|v: Vec<String>| texts(v@)),
            codec: self.negotiated,
            recents: texts(self.config.recent_ids@),
            asked: match self.asked {
                Some((host, ticket)) => Some((host@, ticket)),
                None => None,
            },
            tickets: self.tickets,
        }
    }
}

fn push_act(acts: &mut Vec<Action>, a: Action)
    ensures
        deeds(final(acts)@) == deeds(old(acts)@).push(a@),
{
    acts.push(a);
    assert(deeds(acts@) =~= deeds(old(acts)@).push(a@));
}

fn one_act(a: Action) -> (acts: Vec<Action>)
    ensures
        deeds(acts@) == seq![a@],
{
    let mut acts: Vec<Action> = Vec::new();
    acts.push(a);
    assert(deeds(acts@) =~= seq![a@]);
    acts
}

fn no_acts() -> (acts: Vec<Action>)
    ensures
        deeds(acts@) == Seq::<Deed>::empty(),
{
    let acts: Vec<Action> = Vec::new();
    assert(deeds(acts@) =~= Seq::<Deed>::empty());
    acts
}

fn refusal(to: String, reason: &str) -> (m: SignalMsg)
    ensures
        m@ == refuse(to@, reason@),
{
    SignalMsg::ConnectResponse {
        to: Some(to),
        from: None,
        accepted: false,
        permission: None,
        reason: Some(owned(reason)),
        codec: None,
    }
}

impl Engine {
    pub closed spec fn wf(&self) -> bool {
        self.pending_nonce.wf() && self.pending_caps.wf()
    }

    /// The settings.
    pub closed spec fn settings(&self) -> Config {
        self.config
    }

    /// What the engine goes by.
    pub closed spec fn rules(&self) -> Rules {
        Rules {
            mode: self.config.mode,
            hash: stored_hash(self.config),
            password_permission: self.config.password_permission,
            encodes: encodable(self.can_encode),
            decodes: decodable(self.can_decode).map_values(|c: Codec| codec_name(c)),
        }
    }

    /// Nothing but the list of recent machines has changed in the settings,
    /// and the rules are the same.
    pub open spec fn keeps(&self, before: &Engine) -> bool {
        &&& self.settings() == (Config {
            recent_ids: self.settings().recent_ids,
            ..before.settings()
        })
        &&& self.rules() == before.rules()
    }

    /// An engine that has just started.
    pub fn start(config: Config, can_encode: Probes, can_decode: Probes) -> (e: Self)
        ensures
            e.wf(),
            e.settings() == config,
            e@ == (Core {
                role: Doing::Idle,
                connected: false,
                nonces: Map::empty(),
                caps: Map::empty(),
                codec: 0,
                recents: texts(config.recent_ids@),
                asked: None,
                tickets: 0,
            }),
            e.rules() == (Rules {
                mode: config.mode,
                hash: stored_hash(config),
                password_permission: config.password_permission,
                encodes: encodable(can_encode),
                decodes: decodable(can_decode).map_values(|c: Codec| codec_name(c)),
            }),
    {
        let e = Engine {
            config,
            role: Role::Idle,
            connected: false,
            pending_nonce: TextMap::new(),
            pending_caps: TextMap::new(),
            negotiated: 0,
            can_encode,
            can_decode,
            asked: None,
            tickets: 0,
        };
        assert(e@.nonces =~= Map::empty());
        assert(e@.caps =~= Map::empty());
        e
    }

    /// The settings.
    pub fn config(&self) -> (c: &Config)
        ensures
            *c == self.settings(),
    {
        &self.config
    }

    /// What this machine is doing.
    pub fn role(&self) -> (r: Role)
        ensures
            r@ == self@.role,
    {
        self.role.clone()
    }

    /// Whether this machine is registered with the signaling server.
    pub fn server_connected(&self) -> (yes: bool)
        ensures
            yes == self@.connected,
    {
        self.connected
    }

    /// The number of the session's codec.
    pub fn negotiated(&self) -> (v: u8)
        ensures
            v == self@.codec,
    {
        self.negotiated
    }

    /// Notes that a host has been asked; gives the wait for its answer.
    fn ask(&mut self, host: String) -> (wait: Action)
        requires
            old(self).wf(),
        ensures
            final(self).wf(),
            final(self).keeps(old(self)),
            final(self)@ == asking(old(self)@, host@),
            wait@ == Deed::Await(ANSWER_TIMEOUT_MS, old(self)@.tickets),
    {
        let ticket: u64 = self.tickets;
        self.tickets = if ticket == u64::MAX {
            0
        } else {
            ticket + 1
        };
        self.asked = Some((host, ticket));
        Action::Await(ANSWER_TIMEOUT_MS, ticket)
    }

    /// Notes that a host has answered.
    fn hear(&mut self, from: &str)
        requires
            old(self).wf(),
        ensures
            final(self).wf(),
            final(self).keeps(old(self)),
            final(self)@ == heard(old(self)@, from@),
    {
        let theirs: bool = match &self.asked {
            Some((host, _)) => same_text(host.as_str(), from),
            None => false,
        };
        if theirs {
            self.asked = None;
        }
    }

    /// The time for an answer to the request of this number is over.
    pub fn answer_overdue(&mut self, ticket: u64) -> (acts: Vec<Action>)
        requires
            old(self).wf(),
        ensures
            final(self).wf(),
            final(self).keeps(old(self)),
            (final(self)@, deeds(acts@)) == overdue(old(self)@, ticket),
    {
        let open: bool = match &self.asked {
            Some((_, t)) => *t == ticket,
            None => false,
        };
        if open {
            self.asked = None;
            one_act(Action::Tell(UiEvent::Toast(owned("no answer / timed out"))))
        } else {
            no_acts()
        }
    }

    fn take_nonce(&mut self, peer: &str) -> (nonce: String)
        requires
            old(self).wf(),
        ensures
            final(self).wf(),
            final(self).keeps(old(self)),
            nonce@ == nonce_of(old(self)@, peer@),
            final(self)@ == (Core { nonces: old(self)@.nonces.remove(peer@), ..old(self)@ }),
    {
        let taken: Option<String> = self.pending_nonce.remove(peer);
        assert(self@.nonces =~= old(self)@.nonces.remove(peer@));
        match taken {
            Some(nonce) => nonce,
            None => {
                let empty: String = String::new();
                assert(empty@ =~= seq![]);
                empty
            },
        }
    }

    fn put_nonce(&mut self, peer: String, nonce: String)
        requires
            old(self).wf(),
        ensures
            final(self).wf(),
            final(self).keeps(old(self)),
            final(self)@ == (Core {
                nonces: old(self)@.nonces.insert(peer@, nonce@),
                ..old(self)@
            }),
    {
        self.pending_nonce.insert(peer, nonce);
        assert(self@.nonces =~= old(self)@.nonces.insert(peer@, nonce@));
    }

    /// Picks the codec for a viewer, by what it has said that it can decode.
    fn pick_codec(&mut self, peer: &str) -> (name: String)
        requires
            old(self).wf(),
        ensures
            final(self).wf(),
            final(self).keeps(old(self)),
            final(self).settings() == old(self).settings(),
            ({
                let codec = best_codec(
                    old(self).rules().encodes,
                    named_codecs(caps_of(old(self)@, peer@)),
                );
                &&& name@ == codec_name(codec)
                &&& final(self)@ == (Core {
                    caps: old(self)@.caps.remove(peer@),
                    codec: codec_number(codec),
                    ..old(self)@
                })
            }),
    {
        let ghost c = self@;
        let decode: Vec<String> = match self.pending_caps.remove(peer) {
            Some(decode) => decode,
            None => {
                let none: Vec<String> = Vec::new();
                assert(texts(none@) =~= seq![]);
                none
            },
        };
        assert(texts(decode@) == caps_of(c, peer@));
        assert(self@.caps =~= c.caps.remove(peer@));
        let encodes: Vec<Codec> = host_encodable(self.can_encode);
        set_negotiated_codec_from_caps(
            &mut self.negotiated,
            decode.as_slice(),
            encodes.as_slice(),
        )
    }

    /// Notes that this machine is the host of a viewer.
    fn become_host(&mut self, peer: String, permission: Permission)
        requires
            old(self).wf(),
        ensures
            final(self).wf(),
            final(self).keeps(old(self)),
            final(self)@ == (Core {
                role: Doing::Host(peer@, permission),
                recents: with_recent(old(self)@.recents, peer@),
                ..old(self)@
            }),
    {
        self.config.add_recent(peer.as_str());
        self.role = Role::Host { peer, permission };
    }

    /// Lets a viewer in: this machine becomes its host.
    fn accept(&mut self, peer: String, permission: Permission) -> (acts: Vec<Action>)
        requires
            old(self).wf(),
        ensures
            final(self).wf(),
            final(self).keeps(old(self)),
            (final(self)@, deeds(acts@)) == accepted(
                old(self)@,
                old(self).rules(),
                peer@,
                permission,
            ),
    {
        let codec: String = self.pick_codec(peer.as_str());
        self.become_host(peer.clone(), permission);
        let mut acts: Vec<Action> = one_act(
            Action::Send(
                SignalMsg::ConnectResponse {
                    to: Some(peer.clone()),
                    from: None,
                    accepted: true,
                    permission: Some(owned(permission.as_str())),
                    reason: None,
                    codec: Some(codec),
                },
            ),
        );
        push_act(&mut acts, Action::Tell(UiEvent::RoleChanged(self.role.clone())));
        push_act(&mut acts, Action::Persist);
        push_act(&mut acts, Action::BeginHost { peer, permission });
        assert(deeds(acts@) =~= accepted(old(self)@, old(self).rules(), peer@, permission).1);
        acts
    }

    /// The user has decided about a viewer's request.
    pub fn on_decision(&mut self, from: String, d: ApprovalDecision) -> (acts: Vec<Action>)
        requires
            old(self).wf(),
        ensures
            final(self).wf(),
            final(self).keeps(old(self)),
            (final(self)@, deeds(acts@)) == decided(old(self)@, old(self).rules(), from@, d),
    {
        match d {
            ApprovalDecision::Deny => one_act(Action::Send(refusal(from, "denied"))),
            ApprovalDecision::TimedOut => one_act(Action::Send(refusal(from, "timeout"))),
            ApprovalDecision::Allow(p) => if self.role.is_idle() {
                self.accept(from, p)
            } else {
                one_act(Action::Send(refusal(from, "busy")))
            },
        }
    }

    /// A viewer asks to be let in.
    fn on_connect_request(
        &mut self,
        from: String,
        password: Option<String>,
        decode: Vec<String>,
        nonce: String,
    ) -> (acts: Vec<Action>)
        requires
            old(self).wf(),
        ensures
            final(self).wf(),
            final(self).keeps(old(self)),
            (final(self)@, deeds(acts@)) == requested(
                old(self)@,
                old(self).rules(),
                from@,
                text_of(password),
                texts(decode@),
                nonce@,
            ),
    {
        if !self.role.is_idle() {
            return one_act(Action::Send(refusal(from, "busy")));
        }
        let ghost c = self@;
        if decode.len() > 0 {
            self.pending_caps.insert(from.clone(), decode);
            assert(self@.caps =~= c.caps.insert(from@, texts(decode@)));
        }
        match self.config.effective_mode() {
            Mode::Approve => {
                let mut acts: Vec<Action> = one_act(
                    Action::Tell(UiEvent::ApprovalRequest { from: from.clone() }),
                );
                push_act(&mut acts, Action::Ask { from });
                assert(deeds(acts@) =~= seq![
                    Deed::Tell(Shown::ApprovalRequest(from@)),
                    Deed::Ask(from@),
                ]);
                acts
            },
            Mode::Password => self.handle_password_request(from, password, nonce),
        }
    }

    /// A viewer asks to be let in by password.
    fn handle_password_request(
        &mut self,
        from: String,
        password: Option<String>,
        nonce: String,
    ) -> (acts: Vec<Action>)
        requires
            old(self).wf(),
            old(self)@.role == Doing::Idle,
            old(self).rules().mode == Mode::Password,
            old(self).rules().hash is Some,
        ensures
            final(self).wf(),
            final(self).keeps(old(self)),
            (final(self)@, deeds(acts@)) == requested(
                old(self)@,
                old(self).rules(),
                from@,
                text_of(password),
                seq![],
                nonce@,
            ),
    {
        match password {
            None => {
                self.put_nonce(from.clone(), nonce.clone());
                one_act(
                    Action::Send(
                        SignalMsg::PasswordRequired { to: Some(from), from: None, nonce },
                    ),
                )
            },
            Some(given) => {
                let stored: String = self.take_nonce(from.as_str());
                if self.config.verify_proof(stored.as_str(), given.as_str()) {
                    let p: Permission = self.config.password_permission;
                    self.accept(from, p)
                } else {
                    one_act(
                        Action::SendLater(BAD_PASSWORD_DELAY_MS, refusal(from, "bad-password")),
                    )
                }
            },
        }
    }

    /// A host answers.
    fn on_connect_response(
        &mut self,
        from: String,
        ok: bool,
        permission: Option<String>,
        reason: Option<String>,
        codec: Option<String>,
    ) -> (acts: Vec<Action>)
        requires
            old(self).wf(),
        ensures
            final(self).wf(),
            final(self).keeps(old(self)),
            (final(self)@, deeds(acts@)) == answered(
                old(self)@,
                from@,
                ok,
                text_of(permission),
                text_of(reason),
                text_of(codec),
            ),
    {
        self.hear(from.as_str());
        if !ok {
            let why: String = match reason {
                Some(why) => why,
                None => owned("denied"),
            };
            return one_act(
                Action::Tell(UiEvent::Toast(owned("connection ").concat(why.as_str()))),
            );
        }
        if !self.role.may_watch(from.as_str()) {
            if self.role.is_with(from.as_str()) {
                return no_acts();
            }
            return one_act(
                Action::Send(SignalMsg::EndSession { to: Some(from), from: None }),
            );
        }
        let name: String = match codec {
            Some(name) => name,
            None => owned("H264"),
        };
        set_codec_from_str(&mut self.negotiated, name.as_str());
        let p: Permission = match permission {
            Some(name) => Permission::parse(name.as_str()),
            None => Permission::View,
        };
        self.role = Role::Viewer { peer: from.clone(), permission: p };
        let mut acts: Vec<Action> = one_act(
            Action::Tell(UiEvent::RoleChanged(self.role.clone())),
        );
        push_act(&mut acts, Action::BeginViewer { peer: from, permission: p });
        assert(deeds(acts@) =~= seq![
            Deed::Tell(Shown::RoleChanged(Doing::Viewer(from@, p))),
            Deed::BeginViewer(from@, p),
        ]);
        acts
    }

    /// Ends the session on this machine.
    fn end_session_local(&mut self, acts: &mut Vec<Action>)
        requires
            old(self).wf(),
        ensures
            final(self).wf(),
            final(self).keeps(old(self)),
            final(self)@ == ended(old(self)@).0,
            deeds(final(acts)@) == deeds(old(acts)@) + ended(old(self)@).1,
    {
        self.role = Role::Idle;
        push_act(acts, Action::Teardown);
        push_act(acts, Action::Tell(UiEvent::RoleChanged(Role::Idle)));
        assert(deeds(acts@) =~= deeds(old(acts)@) + ended(old(self)@).1);
    }

    /// The peer has ended the session.
    fn on_remote_end(&mut self, from: String) -> (acts: Vec<Action>)
        requires
            old(self).wf(),
        ensures
            final(self).wf(),
            final(self).keeps(old(self)),
            (final(self)@, deeds(acts@)) == (if is_peer(old(self)@.role, from@) {
                ended(old(self)@)
            } else {
                (old(self)@, Seq::<Deed>::empty())
            }),
    {
        let mut acts: Vec<Action> = no_acts();
        if self.role.is_with(from.as_str()) {
            self.end_session_local(&mut acts);
            assert(deeds(acts@) =~= ended(old(self)@).1);
        }
        acts
    }

    /// A relayed message has come.
    fn route(&mut self, msg: SignalMsg, nonce: String) -> (acts: Vec<Action>)
        requires
            old(self).wf(),
        ensures
            final(self).wf(),
            final(self).keeps(old(self)),
            (final(self)@, deeds(acts@)) == routed(old(self)@, old(self).rules(), msg@, nonce@),
    {
        match msg {
            SignalMsg::ConnectRequest { from: Some(from), password, caps, .. } => {
                let decode: Vec<String> = match caps {
                    Some(caps) => caps.decode,
                    None => {
                        let none: Vec<String> = Vec::new();
                        assert(texts(none@) =~= seq![]);
                        none
                    },
                };
                self.on_connect_request(from, password, decode, nonce)
            },
            SignalMsg::ConnectResponse {
                from: Some(from),
                accepted,
                permission,
                reason,
                codec,
                ..
            } => self.on_connect_response(from, accepted, permission, reason, codec),
            SignalMsg::PasswordRequired { from: Some(from), nonce, .. } => {
                self.hear(from.as_str());
                self.put_nonce(from.clone(), nonce);
                one_act(Action::Tell(UiEvent::PasswordRequired { from }))
            },
            SignalMsg::Signal { from: Some(from), data, .. } => one_act(
                Action::Negotiate { from, data },
            ),
            SignalMsg::EndSession { from: Some(from), .. } => self.on_remote_end(from),
            SignalMsg::RelayError { reason, .. } => {
                if same_text(reason.as_str(), "peer-offline") {
                    let mut acts: Vec<Action> = one_act(
                        Action::Tell(UiEvent::Toast(owned("Peer offline"))),
                    );
                    self.end_session_local(&mut acts);
                    self.asked = None;
                    acts
                } else {
                    no_acts()
                }
            },
            _ => no_acts(),
        }
    }

    /// Deals with an event of the signaling connection, with a given nonce
    /// should one be needed.
    pub fn handle_signaling_with(&mut self, ev: Event, nonce: String) -> (acts: Vec<Action>)
        requires
            old(self).wf(),
        ensures
            final(self).wf(),
            final(self).keeps(old(self)),
            (final(self)@, deeds(acts@)) == handled(old(self)@, old(self).rules(), ev, nonce@),
    {
        match ev {
            Event::Registered => {
                self.connected = true;
                one_act(Action::Tell(UiEvent::ServerStatus("connected")))
            },
            Event::RegisterError(reason) => one_act(
                Action::Tell(
                    UiEvent::Toast(owned("server rejected: ").concat(reason.as_str())),
                ),
            ),
            Event::Disconnected => {
                self.connected = false;
                one_act(Action::Tell(UiEvent::ServerStatus("reconnecting")))
            },
            Event::Message(msg) => self.route(msg, nonce),
        }
    }

    /// Deals with an event of the signaling connection.
    pub fn handle_signaling(&mut self, ev: Event) -> (acts: Vec<Action>)
        requires
            old(self).wf(),
        ensures
            final(self).wf(),
            final(self).keeps(old(self)),
            exists|nonce: Seq<char>|
                nonce.len() == 32 && (final(self)@, deeds(acts@)) == #[trigger] handled(
                    old(self)@,
                    old(self).rules(),
                    ev,
                    nonce,
                ),
    {
        let nonce: String = random_nonce();
        let ghost n = nonce@;
        let acts = self.handle_signaling_with(ev, nonce);
        assert((self@, deeds(acts@)) == handled(old(self)@, old(self).rules(), ev, n));
        acts
    }

    /// The user wants to watch another machine. The request says what this
    /// machine can decode.
    pub fn connect_to(&mut self, host_uuid: String) -> (acts: Vec<Action>)
        requires
            old(self).wf(),
        ensures
            final(self).wf(),
            final(self).keeps(old(self)),
            final(self)@ == (Core {
                recents: with_recent(old(self)@.recents, host_uuid@),
                ..asking(old(self)@, host_uuid@)
            }),
            deeds(acts@) == seq![
                Deed::Send(
                    Sig::ConnectRequest {
                        to: Some(host_uuid@),
                        from: None,
                        password: None,
                        caps: Some(old(self).rules().decodes),
                    },
                ),
                Deed::Persist,
                Deed::Await(ANSWER_TIMEOUT_MS, old(self)@.tickets),
            ],
            (final(self)@, deeds(acts@)) == connecting(
                old(self)@,
                old(self).rules().decodes,
                host_uuid@,
            ),
    {
        self.config.add_recent(host_uuid.as_str());
        let wait: Action = self.ask(host_uuid.clone());
        let decode: Vec<String> = viewer_decode_caps(self.can_decode);
        let mut acts: Vec<Action> = one_act(
            Action::Send(
                SignalMsg::ConnectRequest {
                    to: Some(host_uuid),
                    from: None,
                    password: None,
                    caps: Some(Caps { decode }),
                },
            ),
        );
        push_act(&mut acts, Action::Persist);
        push_act(&mut acts, wait);
        assert(deeds(acts@) =~= seq![deeds(acts@)[0], Deed::Persist, deeds(acts@)[2]]);
        acts
    }

    /// The user empties the list of recent machines.
    pub fn clear_recents(&mut self) -> (acts: Vec<Action>)
        requires
            old(self).wf(),
        ensures
            final(self).wf(),
            final(self).keeps(old(self)),
            final(self)@ == (Core { recents: seq![], ..old(self)@ }),
            deeds(acts@) == seq![Deed::Persist],
    {
        self.config.clear_recents();
        assert(self@.recents =~= seq![]);
        one_act(Action::Persist)
    }

    /// The user changes settings. Another signaling server is gone to at once.
    pub fn save_settings(&mut self, patch: SettingsPatch) -> (acts: Vec<Action>)
        requires
            old(self).wf(),
        ensures
            final(self).wf(),
            patched(old(self).settings(), patch, final(self).settings()),
            final(self)@ == old(self)@,
            deeds(acts@) == (if patch.server_url is Some && patch.server_url->0@ != old(
                self,
            ).settings().server_url@ {
                seq![Deed::Persist, Deed::Reconnect(patch.server_url->0@)]
            } else {
                seq![Deed::Persist]
            }),
            deeds(acts@) == saving(
                crate::signaling::text_of(patch.server_url),
                old(self).settings().server_url@,
            ),
    {
        let mut acts: Vec<Action> = one_act(Action::Persist);
        if let Some(url) = &patch.server_url {
            if !same_text(url.as_str(), self.config.server_url.as_str()) {
                push_act(&mut acts, Action::Reconnect(url.clone()));
                assert(deeds(acts@) =~= seq![Deed::Persist, Deed::Reconnect(url@)]);
            }
        }
        self.config.apply(patch);
        acts
    }

    /// The user answers a host's question for the password.
    pub fn submit_password(&mut self, host: String, plaintext: String) -> (acts: Vec<Action>)
        requires
            old(self).wf(),
        ensures
            final(self).wf(),
            final(self).keeps(old(self)),
            final(self)@ == (Core {
                nonces: old(self)@.nonces.remove(host@),
                ..asking(old(self)@, host@)
            }),
            deeds(acts@) == seq![
                Deed::Send(
                    Sig::ConnectRequest {
                        to: Some(host@),
                        from: None,
                        password: Some(
                            hex_text(
                                proof_bytes(hashed(plaintext@), nonce_of(old(self)@, host@)),
                            ),
                        ),
                        caps: None,
                    },
                ),
                Deed::Await(ANSWER_TIMEOUT_MS, old(self)@.tickets),
            ],
            (final(self)@, deeds(acts@)) == submitting(old(self)@, host@, plaintext@),
    {
        let nonce: String = self.take_nonce(host.as_str());
        let given: String = compute_proof(plaintext.as_str(), nonce.as_str());
        let wait: Action = self.ask(host.clone());
        let mut acts: Vec<Action> = one_act(
            Action::Send(
                SignalMsg::ConnectRequest {
                    to: Some(host),
                    from: None,
                    password: Some(given),
                    caps: None,
                },
            ),
        );
        push_act(&mut acts, wait);
        assert(deeds(acts@) =~= seq![deeds(acts@)[0], deeds(acts@)[1]]);
        acts
    }

    /// The user of the host changes what the viewer may do.
    pub fn set_permission(&mut self, permission: Permission) -> (acts: Vec<Action>)
        requires
            old(self).wf(),
        ensures
            final(self).wf(),
            final(self).keeps(old(self)),
            (final(self)@, deeds(acts@)) == switched(old(self)@, permission),
    {
        let mut acts: Vec<Action> = no_acts();
        let host: Option<String> = match &self.role {
            Role::Host { peer, .. } => Some(peer.clone()),
            _ => None,
        };
        if let Some(peer) = host {
            self.role = Role::Host { peer, permission };
            push_act(&mut acts, Action::SetControl(permission == Permission::Control));
            push_act(&mut acts, Action::SendPermission(permission));
            assert(deeds(acts@) =~= seq![
                Deed::SetControl(permission == Permission::Control),
                Deed::SendPermission(permission),
            ]);
        }
        acts
    }

    /// The host that this machine watches says what it may do.
    pub fn permission_changed(&mut self, permission: Permission) -> (acts: Vec<Action>)
        requires
            old(self).wf(),
        ensures
            final(self).wf(),
            final(self).keeps(old(self)),
            (final(self)@, deeds(acts@)) == told(old(self)@, permission),
    {
        let mut acts: Vec<Action> = no_acts();
        let host: Option<String> = match &self.role {
            Role::Viewer { peer, .. } => Some(peer.clone()),
            _ => None,
        };
        if let Some(peer) = host {
            self.role = Role::Viewer { peer, permission };
            push_act(&mut acts, Action::Tell(UiEvent::RoleChanged(self.role.clone())));
            push_act(&mut acts, Action::CaptureInput(permission == Permission::Control));
            assert(deeds(acts@) =~= told(old(self)@, permission).1);
        }
        acts
    }

    /// Whether the user's input goes to the host that this machine watches.
    pub fn captures_input(&self) -> (yes: bool)
        ensures
            yes == captures(self@.role),
    {
        match &self.role {
            Role::Viewer { permission, .. } => *permission == Permission::Control,
            _ => false,
        }
    }

    /// Whether the shortcuts that the system reserves go there too: only if the
    /// settings say so.
    pub fn captures_shortcuts(&self) -> (yes: bool)
        ensures
            yes == (captures(self@.role) && self.settings().capture_shortcuts),
    {
        self.captures_input() && self.config.capture_shortcuts
    }

    /// The user ends the session; the peer is told.
    pub fn end_session(&mut self) -> (acts: Vec<Action>)
        requires
            old(self).wf(),
        ensures
            final(self).wf(),
            final(self).keeps(old(self)),
            final(self)@ == ended(old(self)@).0,
            deeds(acts@) == (match old(self)@.role {
                Doing::Idle => ended(old(self)@).1,
                Doing::Host(peer, _) => seq![
                    Deed::Send(Sig::EndSession { to: Some(peer), from: None }),
                ] + ended(old(self)@).1,
                Doing::Viewer(peer, _) => seq![
                    Deed::Send(Sig::EndSession { to: Some(peer), from: None }),
                ] + ended(old(self)@).1,
            }),
    {
        let peer: Option<String> = match &self.role {
            Role::Host { peer, .. } => Some(peer.clone()),
            Role::Viewer { peer, .. } => Some(peer.clone()),
            Role::Idle => None,
        };
        let mut acts: Vec<Action> = match peer {
            Some(peer) => one_act(
                Action::Send(SignalMsg::EndSession { to: Some(peer), from: None }),
            ),
            None => no_acts(),
        };
        self.end_session_local(&mut acts);
        assert(Seq::<Deed>::empty() + ended(old(self)@).1 =~= ended(old(self)@).1);
        acts
    }

    /// The media connection has died.
    pub fn transport_dead(&mut self, reason: &str) -> (acts: Vec<Action>)
        requires
            old(self).wf(),
        ensures
            final(self).wf(),
            final(self).keeps(old(self)),
            (final(self)@, deeds(acts@)) == died(old(self)@, reason@),
    {
        let mut acts: Vec<Action> = no_acts();
        if !self.role.is_idle() {
            self.role = Role::Idle;
            push_act(&mut acts, Action::HideVideo);
            push_act(
                &mut acts,
                Action::Tell(UiEvent::Toast(owned("Disconnected: ").concat(reason))),
            );
            push_act(&mut acts, Action::Tell(UiEvent::RoleChanged(Role::Idle)));
            push_act(&mut acts, Action::Teardown);
            assert(deeds(acts@) =~= died(old(self)@, reason@).1);
        }
        acts
    }
}

/// One session at a time: whoever asks meanwhile is told that this machine is
/// busy, and nothing changes.
pub proof fn law_busy_host_refuses(
    c: Core,
    r: Rules,
    from: Seq<char>,
    password: Option<Seq<char>>,
    decode: Seq<Seq<char>>,
    nonce: Seq<char>,
)
    requires
        c.role != Doing::Idle,
    ensures
        requested(c, r, from, password, decode, nonce) == (
            c,
            seq![Deed::Send(refuse(from, "busy"@))],
        ),
{
}

/// Whether a machine that was in the session `before` is in no other one: it is
/// still in it, or in none.
pub open spec fn same_session(before: Doing, after: Doing) -> bool {
    match after {
        Doing::Idle => true,
        Doing::Host(peer, _) => before is Host && before->Host_0 == peer,
        Doing::Viewer(peer, _) => before is Viewer && before->Viewer_0 == peer,
    }
}

/// Whether nothing in a list begins a session, except anew with the host that
/// is being watched.
pub open spec fn begins_no_other(before: Doing, acts: Seq<Deed>) -> bool {
    forall|i: int|
        0 <= i < acts.len() ==> match #[trigger] acts[i] {
            Deed::BeginHost(_, _) => false,
            Deed::BeginViewer(peer, _) => before is Viewer && before->Viewer_0 == peer,
            _ => true,
        }
}

/// One session at a time: nothing that comes from outside, nothing that the
/// user decides about a viewer, no change of permission and no timeout takes a
/// machine from one session into another.
pub proof fn law_one_session_at_a_time(
    c: Core,
    r: Rules,
    ev: Event,
    nonce: Seq<char>,
    from: Seq<char>,
    d: ApprovalDecision,
    p: Permission,
    ticket: u64,
    reason: Seq<char>,
)
    requires
        c.role != Doing::Idle,
    ensures
        same_session(c.role, handled(c, r, ev, nonce).0.role),
        begins_no_other(c.role, handled(c, r, ev, nonce).1),
        same_session(c.role, decided(c, r, from, d).0.role),
        begins_no_other(c.role, decided(c, r, from, d).1),
        same_session(c.role, switched(c, p).0.role),
        begins_no_other(c.role, switched(c, p).1),
        same_session(c.role, told(c, p).0.role),
        begins_no_other(c.role, told(c, p).1),
        same_session(c.role, overdue(c, ticket).0.role),
        same_session(c.role, died(c, reason).0.role),
        begins_no_other(c.role, died(c, reason).1),
{
}

/// Two viewers ask a free machine, and its user lets in one and then the other:
/// the first one gets in and stays, and the second one is told that the machine
/// is busy.
pub proof fn law_second_viewer_is_refused(
    c: Core,
    r: Rules,
    first: Seq<char>,
    p: Permission,
    second: Seq<char>,
    q: Permission,
)
    requires
        c.role == Doing::Idle,
    ensures
        ({
            let (hosting, _) = decided(c, r, first, ApprovalDecision::Allow(p));
            &&& hosting.role == Doing::Host(first, p)
            &&& decided(hosting, r, second, ApprovalDecision::Allow(q)) == (
                hosting,
                seq![Deed::Send(refuse(second, "busy"@))],
            )
        }),
{
}

/// Nobody is let in by asking alone: a request makes this machine a host only
/// with a valid proof, in password mode with a password set, and then with the
/// permission that the settings give.
pub proof fn law_request_alone_lets_nobody_in(
    c: Core,
    r: Rules,
    from: Seq<char>,
    password: Option<Seq<char>>,
    decode: Seq<Seq<char>>,
    nonce: Seq<char>,
)
    requires
        c.role == Doing::Idle,
    ensures
        ({
            let after = requested(c, r, from, password, decode, nonce).0.role;
            let proven = r.mode == Mode::Password && password is Some && proves(
                r.hash,
                nonce_of(c, from),
                password->0,
            );
            &&& proven ==> after == Doing::Host(from, r.password_permission)
            &&& !proven ==> after == Doing::Idle
        }),
{
}

/// Password mode without a password asks the user, like approval mode.
pub proof fn law_no_password_means_approval(
    c: Core,
    r: Rules,
    from: Seq<char>,
    password: Option<Seq<char>>,
    decode: Seq<Seq<char>>,
    nonce: Seq<char>,
)
    requires
        c.role == Doing::Idle,
        r.hash is None,
    ensures
        requested(c, r, from, password, decode, nonce).1 == seq![
            Deed::Tell(Shown::ApprovalRequest(from)),
            Deed::Ask(from),
        ],
{
}

/// A viewer that the user lets in gets exactly the permission that the user
/// chose, if this machine is free; one that is not let in gets nothing.
pub proof fn law_decision_is_carried_out(c: Core, r: Rules, from: Seq<char>, d: ApprovalDecision)
    requires
        d is Allow ==> c.role == Doing::Idle,
    ensures
        match d {
            ApprovalDecision::Allow(p) => decided(c, r, from, d).0.role == Doing::Host(from, p),
            _ => decided(c, r, from, d).0 == c,
        },
{
}

/// A wrong proof is refused, late, and uses the nonce up: the same nonce does
/// not get a second try.
pub proof fn law_wrong_proof_uses_the_nonce_up(
    c: Core,
    r: Rules,
    from: Seq<char>,
    given: Seq<char>,
    decode: Seq<Seq<char>>,
    nonce: Seq<char>,
)
    requires
        c.role == Doing::Idle,
        r.mode == Mode::Password,
        r.hash is Some,
        !proves(r.hash, nonce_of(c, from), given),
    ensures
        ({
            let (after, out) = requested(c, r, from, Some(given), decode, nonce);
            &&& after.role == Doing::Idle
            &&& !after.nonces.contains_key(from)
            &&& out == seq![
                Deed::SendLater(BAD_PASSWORD_DELAY_MS, refuse(from, "bad-password"@)),
            ]
        }),
{
}

/// The whole exchange: a viewer that asks an idle host in password mode is
/// given a nonce, and if its user then types the host's password, it is let
/// in with the permission of the settings, whatever the nonce.
pub proof fn law_password_exchange_succeeds(
    host: Core,
    r: Rules,
    viewer: Core,
    rv: Rules,
    host_name: Seq<char>,
    viewer_name: Seq<char>,
    plain: Seq<char>,
    decode: Seq<Seq<char>>,
    nonce: Seq<char>,
    other: Seq<char>,
)
    requires
        host.role == Doing::Idle,
        r.mode == Mode::Password,
        r.hash == Some(hashed(plain)),
    ensures
        ({
            let (asked, question) = requested(host, r, viewer_name, None, decode, nonce);
            let told = Sig::PasswordRequired { to: None, from: Some(host_name), nonce };
            let (noted, _) = routed(viewer, rv, told, other);
            let given = hex_text(proof_bytes(hashed(plain), nonce_of(noted, host_name)));
            let (done, _) = requested(asked, r, viewer_name, Some(given), seq![], other);
            &&& question == seq![
                Deed::Send(
                    Sig::PasswordRequired { to: Some(viewer_name), from: None, nonce },
                ),
            ]
            &&& done.role == Doing::Host(viewer_name, r.password_permission)
        }),
{
    law_password_lets_in(plain, nonce);
}

/// Only the peer can end a session from outside.
pub proof fn law_only_the_peer_ends_a_session(
    c: Core,
    r: Rules,
    from: Seq<char>,
    to: Option<Seq<char>>,
    nonce: Seq<char>,
)
    ensures
        is_peer(c.role, from) ==> routed(
            c,
            r,
            Sig::EndSession { to, from: Some(from) },
            nonce,
        ).0.role == Doing::Idle,
        !is_peer(c.role, from) ==> routed(c, r, Sig::EndSession { to, from: Some(from) }, nonce)
            == (c, Seq::<Deed>::empty()),
{
}

/// A request that the host leaves open is reported when its time is over, and
/// only once; a later request has a time of its own.
pub proof fn law_unanswered_request_is_reported(
    c: Core,
    host: Seq<char>,
    other: Seq<char>,
)
    ensures
        overdue(asking(c, host), c.tickets).1 == seq![
            Deed::Tell(Shown::Toast("no answer / timed out"@)),
        ],
        overdue(overdue(asking(c, host), c.tickets).0, c.tickets).1 == Seq::<Deed>::empty(),
        overdue(asking(asking(c, host), other), c.tickets) == (
            asking(asking(c, host), other),
            Seq::<Deed>::empty(),
        ),
{
}

/// A request that the host has answered, by letting in, by refusing or by
/// asking for the password, is never reported as overdue, nor is one to a host
/// that is offline.
pub proof fn law_answered_request_is_settled(
    c: Core,
    r: Rules,
    host: Seq<char>,
    answer: Sig,
    nonce: Seq<char>,
)
    requires
        match answer {
            Sig::ConnectResponse { from, .. } => from == Some(host),
            Sig::PasswordRequired { from, .. } => from == Some(host),
            Sig::RelayError { reason, .. } => reason == "peer-offline"@,
            _ => false,
        },
    ensures
        routed(asking(c, host), r, answer, nonce).0.asked is None,
        overdue(routed(asking(c, host), r, answer, nonce).0, c.tickets).1 == Seq::<Deed>::empty(),
{
}

/// However a session ends, on this machine, by its peer or because the
/// connection dies, nothing of it is left running and the machine is free for
/// the next one.
pub proof fn law_ended_session_leaves_nothing(
    c: Core,
    r: Rules,
    from: Seq<char>,
    to: Option<Seq<char>>,
    nonce: Seq<char>,
    reason: Seq<char>,
)
    requires
        is_peer(c.role, from),
    ensures
        ended(c).0.role == Doing::Idle && ended(c).1.contains(Deed::Teardown),
        routed(c, r, Sig::EndSession { to, from: Some(from) }, nonce) == ended(c),
        died(c, reason).0.role == Doing::Idle && died(c, reason).1.contains(Deed::Teardown),
{
    assert(ended(c).1[0] == Deed::Teardown);
    assert(died(c, reason).1[3] == Deed::Teardown);
}

/// A permission that the host's user changes reaches the viewer: the host sends
/// it, the viewer's side of the session hands it on, and then both agree on it.
/// Input is let through and captured exactly while it is the permission to
/// control.
pub proof fn law_permission_switch_reaches_the_viewer<C>(
    host: Core,
    viewer: Core,
    d: Drive<C>,
    input: Option<Input<C>>,
    p: Permission,
    now: u64,
)
    requires
        host.role is Host,
        viewer.role is Viewer,
        d.gate is None,
    ensures
        switched(host, p).1 == seq![
            Deed::SetControl(p == Permission::Control),
            Deed::SendPermission(p),
        ],
        ctl_came(d, Some(Ctl::Perm(p)), input, now) == (d, seq![Drove::<C>::SetPermission(p)]),
        switched(host, p).0.role == Doing::Host(host.role->Host_0, p),
        told(viewer, p).0.role == Doing::Viewer(viewer.role->Viewer_0, p),
        told(viewer, p).1.contains(
            Deed::Tell(Shown::RoleChanged(Doing::Viewer(viewer.role->Viewer_0, p))),
        ),
        told(viewer, p).1.contains(Deed::CaptureInput(p == Permission::Control)),
        captures(told(viewer, p).0.role) <==> p == Permission::Control,
{
    let out = told(viewer, p).1;
    assert(out.contains(out[0]));
    assert(out.contains(out[1]));
}

/// A host that lets a viewer in and the viewer that hears of it agree on the
/// permission and on the codec.
pub proof fn law_both_ends_agree(
    host: Core,
    r: Rules,
    viewer: Core,
    peer: Seq<char>,
    host_name: Seq<char>,
    p: Permission,
)
    requires
        may_watch(viewer.role, host_name),
    ensures
        ({
            let (h, out) = accepted(host, r, peer, p);
            let codec = best_codec(r.encodes, named_codecs(caps_of(host, peer)));
            let (v, _) = answered(
                viewer,
                host_name,
                true,
                Some(permission_name(p)),
                None,
                Some(codec_name(codec)),
            );
            &&& h.codec == v.codec
            &&& h.role == Doing::Host(peer, p)
            &&& v.role == Doing::Viewer(host_name, p)
            &&& out[0] == Deed::Send(
                Sig::ConnectResponse {
                    to: Some(peer),
                    from: None,
                    accepted: true,
                    permission: Some(permission_name(p)),
                    reason: None,
                    codec: Some(codec_name(codec)),
                },
            )
        }),
{
    crate::config::law_permission_names(p);
    crate::codec::law_codec_names(best_codec(r.encodes, named_codecs(caps_of(host, peer))));
}

/// Everything that is done is seen as it is: the peer, the permission, the
/// message and the time are those of the action.
pub proof fn law_actions_are_seen_as_they_are(
    peer: String,
    permission: Permission,
    msg: SignalMsg,
    data: SignalData,
    text: String,
    role: Role,
    b: bool,
    n: u64,
    m: u64,
    secs_left: u32,
)
    ensures
        Action::Send(msg)@ == Deed::Send(msg@),
        Action::SendLater(n, msg)@ == Deed::SendLater(n, msg@),
        (Action::Ask { from: peer })@ == Deed::Ask(peer@),
        Action::Persist@ == Deed::Persist,
        (Action::BeginHost { peer, permission })@ == Deed::BeginHost(peer@, permission),
        (Action::BeginViewer { peer, permission })@ == Deed::BeginViewer(peer@, permission),
        (Action::Negotiate { from: peer, data })@ == Deed::Negotiate(peer@, data),
        Action::Teardown@ == Deed::Teardown,
        Action::SetControl(b)@ == Deed::SetControl(b),
        Action::SendPermission(permission)@ == Deed::SendPermission(permission),
        Action::CaptureInput(b)@ == Deed::CaptureInput(b),
        Action::HideVideo@ == Deed::HideVideo,
        Action::Await(n, m)@ == Deed::Await(n, m),
        Action::Reconnect(text)@ == Deed::Reconnect(text@),
        Action::Tell(UiEvent::RoleChanged(role))@ == Deed::Tell(Shown::RoleChanged(role@)),
        Action::Tell(UiEvent::Toast(text))@ == Deed::Tell(Shown::Toast(text@)),
        Action::Tell(UiEvent::ApprovalRequest { from: peer })@ == Deed::Tell(
            Shown::ApprovalRequest(peer@),
        ),
        Action::Tell(UiEvent::PasswordRequired { from: peer })@ == Deed::Tell(
            Shown::PasswordRequired(peer@),
        ),
        Action::Tell(UiEvent::LinkTrouble { secs_left })@ == Deed::Tell(
            Shown::LinkTrouble(secs_left),
        ),
        Action::Tell(UiEvent::LinkRestored)@ == Deed::Tell(Shown::LinkRestored),
        Role::Idle@ == Doing::Idle,
        (Role::Host { peer, permission })@ == Doing::Host(peer@, permission),
        (Role::Viewer { peer, permission })@ == Doing::Viewer(peer@, permission),
{
}

/// The rules are those of the settings, whatever these have become.
pub proof fn law_rules_are_the_settings(e: &Engine)
    ensures
        e.rules().mode == e.settings().mode,
        e.rules().password_permission == e.settings().password_permission,
        e.rules().hash is Some <==> e.settings().password_hash is Some,
        e.rules().hash is Some ==> e.rules().hash->0 == e.settings().password_hash->0@,
        e@.recents == texts(e.settings().recent_ids@),
{
}

/// Whoever is refused is told so, and why: `busy` while there is a session,
/// `denied` or `timeout` as the user decides or does not, and nothing else comes
/// of it. A refusal grants nothing.
pub proof fn law_refusals_are_told(
    c: Core,
    r: Rules,
    from: Seq<char>,
    p: Permission,
    password: Option<Seq<char>>,
    decode: Seq<Seq<char>>,
    nonce: Seq<char>,
    why: Seq<char>,
)
    ensures
        refuse(from, why) == (Sig::ConnectResponse {
            to: Some(from),
            from: None,
            accepted: false,
            permission: None,
            reason: Some(why),
            codec: None,
        }),
        decided(c, r, from, ApprovalDecision::Deny) == (
            c,
            seq![Deed::Send(refuse(from, seq!['d', 'e', 'n', 'i', 'e', 'd']))],
        ),
        decided(c, r, from, ApprovalDecision::TimedOut) == (
            c,
            seq![Deed::Send(refuse(from, seq!['t', 'i', 'm', 'e', 'o', 'u', 't']))],
        ),
        c.role != Doing::Idle ==> decided(c, r, from, ApprovalDecision::Allow(p)) == (
            c,
            seq![Deed::Send(refuse(from, seq!['b', 'u', 's', 'y']))],
        ),
        c.role != Doing::Idle ==> requested(c, r, from, password, decode, nonce) == (
            c,
            seq![Deed::Send(refuse(from, seq!['b', 'u', 's', 'y']))],
        ),
{
    reveal_strlit("denied");
    reveal_strlit("timeout");
    reveal_strlit("busy");
    assert("denied"@ =~= seq!['d', 'e', 'n', 'i', 'e', 'd']);
    assert("timeout"@ =~= seq!['t', 'i', 'm', 'e', 'o', 'u', 't']);
    assert("busy"@ =~= seq!['b', 'u', 's', 'y']);
}

/// Whoever is let in is told so, with the permission and the codec, before
/// anything begins; then this machine is that viewer's host, remembers it, and
/// begins to share with that permission.
pub proof fn law_letting_in_is_told_first(c: Core, r: Rules, peer: Seq<char>, p: Permission)
    ensures
        ({
            let (after, out) = accepted(c, r, peer, p);
            &&& after.role == Doing::Host(peer, p)
            &&& after.recents == with_recent(c.recents, peer)
            &&& after.connected == c.connected && after.nonces == c.nonces && after.asked == c.asked
            &&& !after.caps.contains_key(peer)
            &&& out.len() == 4
            &&& out[0] matches Deed::Send(
                Sig::ConnectResponse { to, from, accepted, permission, reason, codec },
            ) && to == Some(peer) && from is None && accepted && reason is None && codec is Some
                && permission == Some(
                if p == Permission::Control {
                    seq!['c', 'o', 'n', 't', 'r', 'o', 'l']
                } else {
                    seq!['v', 'i', 'e', 'w']
                },
            ) && codec_number(codec_or_default(codec->0)) == after.codec
            &&& out[1] == Deed::Tell(Shown::RoleChanged(Doing::Host(peer, p)))
            &&& out[2] == Deed::Persist
            &&& out[3] == Deed::BeginHost(peer, p)
        }),
{
    law_only_these_words_grant(seq![]);
    crate::codec::law_codec_names(best_codec(r.encodes, named_codecs(caps_of(c, peer))));
}

/// A free machine that goes by passwords, and has one, asks for a proof with a
/// fresh nonce for that viewer alone, and judges the proof by the nonce that
/// this viewer was given. A wrong one is refused after two seconds, and either
/// way the nonce is gone. What others were given stays.
pub proof fn law_password_requests(
    c: Core,
    r: Rules,
    from: Seq<char>,
    given: Seq<char>,
    decode: Seq<Seq<char>>,
    nonce: Seq<char>,
    other: Seq<char>,
)
    requires
        c.role == Doing::Idle,
        r.mode == Mode::Password,
        r.hash is Some,
        other != from,
    ensures
        ({
            let (asked, question) = requested(c, r, from, None, decode, nonce);
            let (tried, out) = requested(c, r, from, Some(given), decode, nonce);
            let known = if c.nonces.contains_key(from) {
                c.nonces[from]
            } else {
                seq![]
            };
            &&& asked.role == Doing::Idle && asked.nonces == c.nonces.insert(from, nonce)
            &&& question == seq![
                Deed::Send(Sig::PasswordRequired { to: Some(from), from: None, nonce }),
            ]
            &&& tried.nonces == c.nonces.remove(from)
            &&& nonce_of(tried, other) == nonce_of(c, other)
            &&& proves(r.hash, known, given) ==> tried.role == Doing::Host(
                from,
                r.password_permission,
            ) && out.len() == 4 && out[3] == Deed::BeginHost(from, r.password_permission)
            &&& !proves(r.hash, known, given) ==> tried.role == Doing::Idle && out == seq![
                Deed::SendLater(
                    2_000,
                    refuse(
                        from,
                        seq!['b', 'a', 'd', '-', 'p', 'a', 's', 's', 'w', 'o', 'r', 'd'],
                    ),
                ),
            ]
        }),
{
    reveal_strlit("bad-password");
    assert("bad-password"@ =~= seq!['b', 'a', 'd', '-', 'p', 'a', 's', 's', 'w', 'o', 'r', 'd']);
}

/// A free machine that asks its user, or has no password, shows the request and
/// asks about that very viewer; it lets nobody in by itself.
pub proof fn law_users_are_asked(
    c: Core,
    r: Rules,
    from: Seq<char>,
    password: Option<Seq<char>>,
    decode: Seq<Seq<char>>,
    nonce: Seq<char>,
)
    requires
        c.role == Doing::Idle,
        r.mode == Mode::Approve || r.hash is None,
    ensures
        requested(c, r, from, password, decode, nonce).1 == seq![
            Deed::Tell(Shown::ApprovalRequest(from)),
            Deed::Ask(from),
        ],
        requested(c, r, from, password, decode, nonce).0.role == Doing::Idle,
        decode.len() > 0 ==> caps_of(
            requested(c, r, from, password, decode, nonce).0,
            from,
        ) == decode,
        decode.len() == 0 ==> requested(c, r, from, password, decode, nonce).0 == c,
{
}

/// A host's yes makes a free machine its viewer, with the permission to control
/// only if the host said exactly that, and with the codec that the host named or
/// H.264; a no is shown with its reason and changes nothing else.
pub proof fn law_answers_are_taken(
    c: Core,
    from: Seq<char>,
    permission: Option<Seq<char>>,
    reason: Option<Seq<char>>,
    codec: Option<Seq<char>>,
)
    ensures
        c.role == Doing::Idle ==> ({
            let (after, out) = answered(c, from, true, permission, reason, codec);
            let p = if permission == Some(seq!['c', 'o', 'n', 't', 'r', 'o', 'l']) {
                Permission::Control
            } else {
                Permission::View
            };
            &&& after.role == Doing::Viewer(from, p)
            &&& after.codec == codec_number(
                codec_or_default(
                    match codec {
                        Some(name) => name,
                        None => seq!['H', '2', '6', '4'],
                    },
                ),
            )
            &&& out == seq![
                Deed::Tell(Shown::RoleChanged(Doing::Viewer(from, p))),
                Deed::BeginViewer(from, p),
            ]
        }),
        ({
            let (after, out) = answered(c, from, false, permission, reason, codec);
            &&& after.role == c.role && after.codec == c.codec && after.nonces == c.nonces
            &&& out == seq![
                Deed::Tell(
                    Shown::Toast(
                        "connection "@ + match reason {
                            Some(why) => why,
                            None => "denied"@,
                        },
                    ),
                ),
            ]
        }),
{
    reveal_strlit("H264");
    assert("H264"@ =~= seq!['H', '2', '6', '4']);
    if permission is Some {
        law_only_these_words_grant(permission->0);
    }
}

/// A machine in a session is not drawn into another by a host's yes: it lets
/// that host go and stays, unless it is its own peer that speaks.
pub proof fn law_late_answers_change_no_session(
    c: Core,
    from: Seq<char>,
    permission: Option<Seq<char>>,
    codec: Option<Seq<char>>,
)
    requires
        match c.role {
            Doing::Idle => false,
            Doing::Host(_, _) => true,
            Doing::Viewer(peer, _) => peer != from,
        },
    ensures
        ({
            let (after, out) = answered(c, from, true, permission, None, codec);
            &&& after.role == c.role && after.codec == c.codec
            &&& out == (match c.role {
                Doing::Host(peer, _) if peer == from => seq![],
                _ => seq![Deed::Send(Sig::EndSession { to: Some(from), from: None })],
            })
        }),
{
}

/// Messages are taken as what they are and as being from whom they are; one
/// that names no sender is ignored, and so is an error of the server other than
/// that the peer is offline.
pub proof fn law_messages_are_taken_as_they_are(
    c: Core,
    r: Rules,
    from: Seq<char>,
    to: Option<Seq<char>>,
    password: Option<Seq<char>>,
    caps: Option<Seq<Seq<char>>>,
    data: SignalData,
    theirs: Seq<char>,
    reason: Seq<char>,
    nonce: Seq<char>,
)
    ensures
        routed(c, r, Sig::ConnectRequest { to, from: Some(from), password, caps }, nonce)
            == requested(
            c,
            r,
            from,
            password,
            match caps {
                Some(list) => list,
                None => seq![],
            },
            nonce,
        ),
        routed(c, r, Sig::Signal { to, from: Some(from), data }, nonce) == (
            c,
            seq![Deed::Negotiate(from, data)],
        ),
        routed(c, r, Sig::PasswordRequired { to, from: Some(from), nonce: theirs }, nonce).1
            == seq![Deed::Tell(Shown::PasswordRequired(from))],
        routed(
            c,
            r,
            Sig::PasswordRequired { to, from: Some(from), nonce: theirs },
            nonce,
        ).0.nonces == c.nonces.insert(from, theirs),
        routed(c, r, Sig::ConnectRequest { to, from: None, password, caps }, nonce) == (
            c,
            Seq::<Deed>::empty(),
        ),
        routed(c, r, Sig::Signal { to, from: None, data }, nonce) == (c, Seq::<Deed>::empty()),
        routed(c, r, Sig::EndSession { to, from: None }, nonce) == (c, Seq::<Deed>::empty()),
        routed(c, r, Sig::PasswordRequired { to, from: None, nonce: theirs }, nonce) == (
            c,
            Seq::<Deed>::empty(),
        ),
        reason != "peer-offline"@ ==> routed(c, r, Sig::RelayError { reason, to }, nonce) == (
            c,
            Seq::<Deed>::empty(),
        ),
{
}

/// A peer that is offline ends whatever there is with it, and the user is told.
pub proof fn law_offline_peers_are_reported(
    c: Core,
    r: Rules,
    to: Option<Seq<char>>,
    nonce: Seq<char>,
)
    ensures
        ({
            let (after, out) = routed(
                c,
                r,
                Sig::RelayError { reason: "peer-offline"@, to },
                nonce,
            );
            &&& after.role == Doing::Idle && after.asked is None
            &&& out == seq![
                Deed::Tell(Shown::Toast("Peer offline"@)),
                Deed::Teardown,
                Deed::Tell(Shown::RoleChanged(Doing::Idle)),
            ]
        }),
{
    let out = routed(c, r, Sig::RelayError { reason: "peer-offline"@, to }, nonce).1;
    assert(out =~= seq![
        Deed::Tell(Shown::Toast("Peer offline"@)),
        Deed::Teardown,
        Deed::Tell(Shown::RoleChanged(Doing::Idle)),
    ]);
}

/// The user is told how the signaling server is doing, and a session goes on
/// without it.
pub proof fn law_server_status_is_shown(c: Core, r: Rules, reason: String, nonce: Seq<char>)
    ensures
        handled(c, r, Event::Registered, nonce) == (
            Core { connected: true, ..c },
            seq![Deed::Tell(Shown::ServerStatus("connected"@))],
        ),
        handled(c, r, Event::Disconnected, nonce) == (
            Core { connected: false, ..c },
            seq![Deed::Tell(Shown::ServerStatus("reconnecting"@))],
        ),
        handled(c, r, Event::RegisterError(reason), nonce) == (
            c,
            seq![Deed::Tell(Shown::Toast("server rejected: "@ + reason@))],
        ),
{
}

/// A session that ends leaves the machine idle, taken down and told so; a dead
/// connection takes the picture away first and says why. A machine without a
/// session has nothing to lose.
pub proof fn law_ending_is_complete(c: Core, reason: Seq<char>)
    ensures
        ended(c).0.role == Doing::Idle,
        ended(c).1 == seq![Deed::Teardown, Deed::Tell(Shown::RoleChanged(Doing::Idle))],
        ended(c).0.recents == c.recents && ended(c).0.connected == c.connected,
        c.role == Doing::Idle ==> died(c, reason) == (c, Seq::<Deed>::empty()),
        c.role != Doing::Idle ==> died(c, reason).1 == seq![
            Deed::HideVideo,
            Deed::Tell(Shown::Toast("Disconnected: "@ + reason)),
            Deed::Tell(Shown::RoleChanged(Doing::Idle)),
            Deed::Teardown,
        ] && died(c, reason).0.role == Doing::Idle,
{
}

/// A name is that of the peer exactly if a session with it is on, whichever
/// side this machine is; and it may watch a host exactly if it is free or
/// watches that host already.
pub proof fn law_peers_are_told_apart(peer: Seq<char>, name: Seq<char>, p: Permission)
    ensures
        !is_peer(Doing::Idle, name),
        is_peer(Doing::Host(peer, p), name) <==> peer == name,
        is_peer(Doing::Viewer(peer, p), name) <==> peer == name,
        may_watch(Doing::Idle, name),
        !may_watch(Doing::Host(peer, p), name),
        may_watch(Doing::Viewer(peer, p), name) <==> peer == name,
        captures(Doing::Viewer(peer, p)) <==> p == Permission::Control,
        !captures(Doing::Host(peer, p)) && !captures(Doing::Idle),
        role_name(Doing::Idle) == "idle"@,
        role_name(Doing::Host(peer, p)) == "host"@,
        role_name(Doing::Viewer(peer, p)) == "viewer"@,
{
}

/// An answer from the host that was asked ends the wait for it; one from
/// anybody else does not. Nothing else changes by being heard.
pub proof fn law_only_the_asked_ends_the_wait(c: Core, from: Seq<char>, ticket: u64)
    ensures
        heard(Core { asked: Some((from, ticket)), ..c }, from).asked is None,
        forall|other: Seq<char>|
            other != from ==> #[trigger] heard(Core { asked: Some((from, ticket)), ..c }, other)
                == (Core { asked: Some((from, ticket)), ..c }),
        heard(Core { asked: None, ..c }, from) == (Core { asked: None, ..c }),
        heard(c, from) == (Core { asked: heard(c, from).asked, ..c }),
{
}

/// Lists of what is to be done are seen in their order, and the status of the
/// server is shown as it is.
pub proof fn law_lists_are_seen_in_order(v: Seq<Action>, a: Action, status: &'static str)
    ensures
        deeds(v.push(a)) == deeds(v).push(a@),
        deeds(Seq::<Action>::empty()).len() == 0,
        UiEvent::ServerStatus(status)@ == Shown::ServerStatus(status@),
{
    assert(deeds(v.push(a)) =~= deeds(v).push(a@));
}

/// An engine that keeps its settings keeps all of them but the list of recent
/// machines.
pub proof fn law_settings_are_kept(e: &Engine, before: &Engine)
    requires
        e.keeps(before),
    ensures
        e.settings().mode == before.settings().mode,
        e.settings().password_hash == before.settings().password_hash,
        e.settings().password_permission == before.settings().password_permission,
        e.settings().server_url == before.settings().server_url,
        e.settings().uuid == before.settings().uuid,
        e.rules() == before.rules(),
{
}

/// Asking to watch a machine.
pub open spec fn connecting(c: Core, decodes: Seq<Seq<char>>, host: Seq<char>) -> (
    Core,
    Seq<Deed>,
) {
    (
        Core { recents: with_recent(c.recents, host), ..asking(c, host) },
        seq![
            Deed::Send(
                Sig::ConnectRequest {
                    to: Some(host),
                    from: None,
                    password: None,
                    caps: Some(decodes),
                },
            ),
            Deed::Persist,
            Deed::Await(ANSWER_TIMEOUT_MS, c.tickets),
        ],
    )
}

/// Answering a host's question for the password.
pub open spec fn submitting(c: Core, host: Seq<char>, plaintext: Seq<char>) -> (Core, Seq<Deed>) {
    (
        Core { nonces: c.nonces.remove(host), ..asking(c, host) },
        seq![
            Deed::Send(
                Sig::ConnectRequest {
                    to: Some(host),
                    from: None,
                    password: Some(hex_text(proof_bytes(hashed(plaintext), nonce_of(c, host)))),
                    caps: None,
                },
            ),
            Deed::Await(ANSWER_TIMEOUT_MS, c.tickets),
        ],
    )
}

/// What is done once settings have changed; `url` if the server's address is
/// among them.
pub open spec fn saving(url: Option<Seq<char>>, current: Seq<char>) -> Seq<Deed> {
    match url {
        Some(u) if u != current => seq![Deed::Persist, Deed::Reconnect(u)],
        _ => seq![Deed::Persist],
    }
}

/// Whoever wants to watch asks that very machine, without a password, says what
/// can be decoded here, and gives it half a minute. It becomes the most recent
/// one, which is written down.
pub proof fn law_watching_begins_with_a_question(
    c: Core,
    decodes: Seq<Seq<char>>,
    host: Seq<char>,
)
    ensures
        ({
            let (after, out) = connecting(c, decodes, host);
            &&& out.len() == 3
            &&& out[0] is Send && out[0]->Send_0 is ConnectRequest
            &&& out[0]->Send_0->ConnectRequest_to == Some(host)
            &&& out[0]->Send_0->ConnectRequest_from is None
            &&& out[0]->Send_0->password is None
            &&& out[0]->Send_0->caps == Some(decodes)
            &&& out[1] == Deed::Persist
            &&& out[2] == Deed::Await(30_000, c.tickets)
            &&& after.asked == Some((host, c.tickets))
            &&& after.recents == with_recent(c.recents, host)
            &&& after.role == c.role && after.connected == c.connected && after.nonces == c.nonces
                && after.caps == c.caps && after.codec == c.codec
        }),
{
}

/// The right password gets in: what is sent for it answers the nonce that the
/// host gave, for any host whose password it is. The nonce is used up, the
/// password itself is not sent, and the host has half a minute.
pub proof fn law_right_password_gets_in(c: Core, host: Seq<char>, plaintext: Seq<char>)
    ensures
        ({
            let (after, out) = submitting(c, host, plaintext);
            &&& out.len() == 2
            &&& out[0] is Send && out[0]->Send_0 is ConnectRequest
            &&& out[0]->Send_0->ConnectRequest_to == Some(host)
            &&& out[0]->Send_0->password is Some
            &&& proves(
                Some(hashed(plaintext)),
                nonce_of(c, host),
                out[0]->Send_0->password->0,
            )
            &&& out[1] == Deed::Await(30_000, c.tickets)
            &&& after.asked == Some((host, c.tickets))
            &&& !after.nonces.contains_key(host)
            &&& after.role == c.role && after.recents == c.recents && after.caps == c.caps
        }),
{
    law_password_lets_in(plaintext, nonce_of(c, host));
}

/// Changed settings are written down in any case; another server is gone to,
/// the same one is not.
pub proof fn law_new_server_is_gone_to(url: Seq<char>, current: Seq<char>)
    ensures
        saving(None, current) == seq![Deed::Persist],
        saving(Some(url), current)[0] == Deed::Persist,
        url != current ==> saving(Some(url), current).len() == 2 && saving(Some(url), current)[1]
            == Deed::Reconnect(url),
        url == current ==> saving(Some(url), current).len() == 1,
{
}

} // verus!
