//! The messages on the signaling socket, and the rules of that connection:
//! registering first, a ping every 25 seconds, giving the connection up after
//! two pings without an answer, and reconnecting more and more slowly.

use vstd::arithmetic::power2::pow2;
use vstd::prelude::*;

use crate::config::texts;
use crate::text::same_text;

verus! {

/// The protocol version in the registration.
pub const PROTOCOL_VERSION: u32 = 1;

/// The ping, byte for byte: the server does not parse it.
pub const PING_LITERAL: &'static str = "{\"type\":\"ping\"}";

/// The answer to it, byte for byte.
pub const PONG_LITERAL: &'static str = "{\"type\":\"pong\"}";

/// What a viewer can decode.
#[derive(Debug)]
pub struct Caps {
    pub decode: Vec<String>,
}

/// An ICE candidate.
#[derive(Debug)]
pub struct IceCandidate {
    pub candidate: String,
    pub sdp_mid: Option<String>,
    pub sdp_mline_index: Option<u32>,
}

/// What the two ends negotiate the media connection with.
#[derive(Debug)]
pub enum SignalData {
    Offer { sdp: String },
    Answer { sdp: String },
    Ice { candidate: IceCandidate },
}

/// A message on the signaling socket. `to` names the peer that it is for; the
/// server replaces it with `from`, the sender.
#[derive(Debug)]
#[allow(inconsistent_fields)]
pub enum SignalMsg {
    Register { uuid: String, v: u32 },
    Registered { uuid: String },
    RegisterError { reason: String },
    /// `password` is the proof, if a nonce has been given.
    ConnectRequest {
        to: Option<String>,
        from: Option<String>,
        password: Option<String>,
        caps: Option<Caps>,
    },
    PasswordRequired { to: Option<String>, from: Option<String>, nonce: String },
    ConnectResponse {
        to: Option<String>,
        from: Option<String>,
        accepted: bool,
        permission: Option<String>,
        reason: Option<String>,
        codec: Option<String>,
    },
    Signal { to: Option<String>, from: Option<String>, data: SignalData },
    EndSession { to: Option<String>, from: Option<String> },
    RelayError { reason: String, to: Option<String> },
    Ping,
    Pong,
}

/// What a message is.
#[allow(inconsistent_fields)]
pub ghost enum Sig {
    Register { uuid: Seq<char>, v: u32 },
    Registered { uuid: Seq<char> },
    RegisterError { reason: Seq<char> },
    ConnectRequest {
        to: Option<Seq<char>>,
        from: Option<Seq<char>>,
        password: Option<Seq<char>>,
        caps: Option<Seq<Seq<char>>>,
    },
    PasswordRequired { to: Option<Seq<char>>, from: Option<Seq<char>>, nonce: Seq<char> },
    ConnectResponse {
        to: Option<Seq<char>>,
        from: Option<Seq<char>>,
        accepted: bool,
        permission: Option<Seq<char>>,
        reason: Option<Seq<char>>,
        codec: Option<Seq<char>>,
    },
    Signal { to: Option<Seq<char>>, from: Option<Seq<char>>, data: SignalData },
    EndSession { to: Option<Seq<char>>, from: Option<Seq<char>> },
    RelayError { reason: Seq<char>, to: Option<Seq<char>> },
    Ping,
    Pong,
}

/// The contents of an optional string.
pub open spec fn text_of(s: Option<String>) -> Option<Seq<char>> {
    match s {
        Some(t) => Some(t@),
        None => None,
    }
}

impl View for SignalMsg {
    type V = Sig;

    open spec fn view(&self) -> Sig {
        match self {
            SignalMsg::Register { uuid, v } => Sig::Register { uuid: uuid@, v: *v },
            SignalMsg::Registered { uuid } => Sig::Registered { uuid: uuid@ },
            SignalMsg::RegisterError { reason } => Sig::RegisterError { reason: reason@ },
            SignalMsg::ConnectRequest { to, from, password, caps } => Sig::ConnectRequest {
                to: text_of(*to),
                from: text_of(*from),
                password: text_of(*password),
                caps: match caps {
                    Some(c) => Some(texts(c.decode@)),
                    None => None,
                },
            },
            SignalMsg::PasswordRequired { to, from, nonce } => Sig::PasswordRequired {
                to: text_of(*to),
                from: text_of(*from),
                nonce: nonce@,
            },
            SignalMsg::ConnectResponse { to, from, accepted, permission, reason, codec } =>
                Sig::ConnectResponse {
                to: text_of(*to),
                from: text_of(*from),
                accepted: *accepted,
                permission: text_of(*permission),
                reason: text_of(*reason),
                codec: text_of(*codec),
            },
            SignalMsg::Signal { to, from, data } => Sig::Signal {
                to: text_of(*to),
                from: text_of(*from),
                data: *data,
            },
            SignalMsg::EndSession { to, from } => Sig::EndSession {
                to: text_of(*to),
                from: text_of(*from),
            },
            SignalMsg::RelayError { reason, to } => Sig::RelayError {
                reason: reason@,
                to: text_of(*to),
            },
            SignalMsg::Ping => Sig::Ping,
            SignalMsg::Pong => Sig::Pong,
        }
    }
}

/// What the connection reports.
#[derive(Debug)]
pub enum Event {
    /// The registration was accepted.
    Registered,
    /// The registration was rejected, for this reason.
    RegisterError(String),
    /// A relayed message.
    Message(SignalMsg),
    /// The connection is gone and will be tried again.
    Disconnected,
}

/// The first message on every connection.
pub fn register_message(uuid: String) -> (m: SignalMsg)
    ensures
        m@ == (Sig::Register { uuid: uuid@, v: PROTOCOL_VERSION }),
        m is Register && m->v == 1 && m->Register_uuid@ == uuid@,
{
    SignalMsg::Register { uuid, v: PROTOCOL_VERSION }
}

/// How long two pings lie apart.
pub const PING_INTERVAL_MS: u64 = 25_000;

/// How long the answer to a ping may take.
pub const PONG_TIMEOUT_MS: u64 = 10_000;

/// How many answers in a row may be missing before the connection counts as
/// dead.
pub const MAX_MISSED_PONGS: u32 = 2;

/// How many seconds to wait before an attempt to reconnect: 1, 2, 4, 8, 16,
/// and then always 30. A registration that is refused because the identifier
/// is in use will not get better soon: always 30.
pub open spec fn backoff_secs(attempt: int, duplicate: bool) -> int {
    if duplicate || attempt >= 5 {
        30
    } else {
        pow2(attempt as nat) as int
    }
}

/// The schedule of reconnecting.
#[derive(Debug, Clone, Copy)]
pub struct Backoff {
    pub attempt: usize,
}

impl Backoff {
    pub fn new() -> (b: Self)
        ensures
            b.attempt == 0,
    {
        Backoff { attempt: 0 }
    }

    /// How many seconds to wait before the next attempt.
    pub fn next_delay(&mut self, duplicate: bool) -> (secs: u64)
        ensures
            secs == backoff_secs(old(self).attempt as int, duplicate),
            final(self).attempt == (if old(self).attempt == usize::MAX {
                usize::MAX as int
            } else {
                old(self).attempt + 1
            }),
    {
        proof {
            vstd::arithmetic::power2::lemma2_to64();
        }
        let secs: u64 = if duplicate || self.attempt >= 5 {
            30
        } else if self.attempt == 0 {
            1
        } else if self.attempt == 1 {
            2
        } else if self.attempt == 2 {
            4
        } else if self.attempt == 3 {
            8
        } else {
            16
        };
        self.attempt = self.attempt.saturating_add(1);
        secs
    }
}

/// Reconnecting never waits longer than 30 seconds, and never shorter than the
/// time before.
pub proof fn law_backoff_grows_to_its_cap(attempt: int)
    requires
        attempt >= 0,
    ensures
        1 <= backoff_secs(attempt, false) <= backoff_secs(attempt + 1, false) <= 30,
{
    vstd::arithmetic::power2::lemma2_to64();
    assert(attempt == 0 || attempt == 1 || attempt == 2 || attempt == 3 || attempt == 4 || attempt
        >= 5);
}

/// What a connection keeps track of. Times are milliseconds.
#[derive(Debug, Clone, Copy)]
pub struct Watch {
    /// When the next ping is due.
    pub next_ping: u64,
    /// How many answers in a row are missing.
    pub missed_pongs: u32,
    /// Until when an answer is awaited, if one is.
    pub pong_deadline: Option<u64>,
    /// Whether the last registration was refused because the identifier is in
    /// use.
    pub duplicate: bool,
}

/// Something that happens on a connection.
#[derive(Debug)]
pub enum LinkEvent {
    /// The program wants a message sent.
    Outbound(SignalMsg),
    /// Time has passed.
    Timer,
    /// A text frame, and the message in it if there is one.
    Text(String, Option<SignalMsg>),
    /// A ping of the socket itself.
    Ping(Vec<u8>),
    /// The peer closed the socket, or the stream ended.
    Close,
    /// Anything else.
    Other,
}

/// What to do about it.
#[derive(Debug)]
pub enum LinkAction {
    Send(SignalMsg),
    /// Send the literal ping.
    SendPing,
    /// Answer a ping of the socket itself.
    SendPong(Vec<u8>),
    Report(Event),
    /// Close the socket.
    Close,
    Nothing,
}

/// The watch once a ping has gone out.
pub open spec fn after_ping(w: Watch, now: u64) -> Watch {
    Watch {
        next_ping: (now + PING_INTERVAL_MS) as u64,
        pong_deadline: if w.pong_deadline is None {
            Some((now + PONG_TIMEOUT_MS) as u64)
        } else {
            w.pong_deadline
        },
        ..w
    }
}

/// The watch once an answer has not come in time.
pub open spec fn after_miss(w: Watch) -> Watch {
    Watch { missed_pongs: (w.missed_pongs + 1) as u32, pong_deadline: None, ..w }
}

/// The watch once an answer has come.
pub open spec fn after_pong(w: Watch) -> Watch {
    Watch { missed_pongs: 0, pong_deadline: None, ..w }
}

/// Whether an answer is overdue.
pub open spec fn overdue(w: Watch, now: u64) -> bool {
    w.pong_deadline is Some && now >= w.pong_deadline->0
}

/// What the passing of time makes of the watch. A ping goes before a miss.
pub open spec fn after_timer(w: Watch, now: u64) -> Watch {
    if now >= w.next_ping {
        after_ping(w, now)
    } else if overdue(w, now) {
        after_miss(w)
    } else {
        w
    }
}

/// Whether the passing of time shows that the connection is dead.
pub open spec fn is_dead(w: Watch, now: u64) -> bool {
    now < w.next_ping && overdue(w, now) && w.missed_pongs + 1 >= MAX_MISSED_PONGS
}

/// What a message from the server says about the identifier being in use.
pub open spec fn after_message(w: Watch, msg: SignalMsg) -> Watch {
    match msg {
        SignalMsg::Registered { .. } => Watch { duplicate: false, ..w },
        SignalMsg::RegisterError { reason } => Watch {
            duplicate: w.duplicate || reason@ == "duplicate"@,
            ..w
        },
        _ => w,
    }
}

/// What a message from the server is reported as.
pub open spec fn reported(msg: SignalMsg) -> LinkAction {
    match msg {
        SignalMsg::Pong => LinkAction::Nothing,
        SignalMsg::Registered { .. } => LinkAction::Report(Event::Registered),
        SignalMsg::RegisterError { reason } => LinkAction::Report(Event::RegisterError(reason)),
        other => LinkAction::Report(Event::Message(other)),
    }
}

/// What an event makes of the watch.
pub open spec fn after_event(w: Watch, ev: LinkEvent, now: u64) -> Watch {
    match ev {
        LinkEvent::Timer => after_timer(w, now),
        LinkEvent::Text(text, msg) => if text@ == PONG_LITERAL@ {
            after_pong(w)
        } else {
            match msg {
                Some(m) => after_message(w, m),
                None => w,
            }
        },
        _ => w,
    }
}

/// What to do about an event.
pub open spec fn action_for(w: Watch, ev: LinkEvent, now: u64) -> LinkAction {
    match ev {
        LinkEvent::Outbound(m) => LinkAction::Send(m),
        LinkEvent::Timer => if now >= w.next_ping {
            LinkAction::SendPing
        } else if is_dead(w, now) {
            LinkAction::Close
        } else {
            LinkAction::Nothing
        },
        LinkEvent::Text(text, msg) => if text@ == PONG_LITERAL@ {
            LinkAction::Nothing
        } else {
            match msg {
                Some(m) => reported(m),
                None => LinkAction::Nothing,
            }
        },
        LinkEvent::Ping(payload) => LinkAction::SendPong(payload),
        LinkEvent::Close => LinkAction::Close,
        LinkEvent::Other => LinkAction::Nothing,
    }
}

impl Watch {
    /// Fewer answers are missing than make a connection dead.
    pub open spec fn wf(&self) -> bool {
        self.missed_pongs < MAX_MISSED_PONGS
    }

    /// The watch of a fresh connection.
    pub fn new(now: u64, duplicate: bool) -> (w: Self)
        requires
            now + PING_INTERVAL_MS <= u64::MAX,
        ensures
            w.wf(),
            w == (Watch {
                next_ping: (now + PING_INTERVAL_MS) as u64,
                missed_pongs: 0,
                pong_deadline: None,
                duplicate,
            }),
            w.next_ping == now + 25_000,
    {
        Watch {
            next_ping: now + PING_INTERVAL_MS,
            missed_pongs: 0,
            pong_deadline: None,
            duplicate,
        }
    }

    /// Until when nothing needs to be done if nothing happens.
    pub fn wake_at(&self) -> (t: u64)
        ensures
            forall|now: u64|
                now < t <==> now < self.next_ping && !#[trigger] overdue(*self, now),
    {
        let t: u64 = match self.pong_deadline {
            Some(d) => if d < self.next_ping {
                d
            } else {
                self.next_ping
            },
            None => self.next_ping,
        };
        t
    }

    /// Deals with something that happens on the connection.
    pub fn on_event(&mut self, ev: LinkEvent, now: u64) -> (action: LinkAction)
        requires
            old(self).wf(),
            now + PING_INTERVAL_MS <= u64::MAX,
        ensures
            *final(self) == after_event(*old(self), ev, now),
            action == action_for(*old(self), ev, now),
            !(action is Close) ==> final(self).wf(),
    {
        match ev {
            LinkEvent::Outbound(m) => LinkAction::Send(m),
            LinkEvent::Timer => {
                if now >= self.next_ping {
                    self.next_ping = now + PING_INTERVAL_MS;
                    if self.pong_deadline.is_none() {
                        self.pong_deadline = Some(now + PONG_TIMEOUT_MS);
                    }
                    return LinkAction::SendPing;
                }
                let late: bool = match self.pong_deadline {
                    Some(d) => now >= d,
                    None => false,
                };
                if late {
                    self.missed_pongs = self.missed_pongs + 1;
                    self.pong_deadline = None;
                    if self.missed_pongs >= MAX_MISSED_PONGS {
                        return LinkAction::Close;
                    }
                }
                LinkAction::Nothing
            },
            LinkEvent::Text(text, msg) => {
                if same_text(text.as_str(), PONG_LITERAL) {
                    self.missed_pongs = 0;
                    self.pong_deadline = None;
                    return LinkAction::Nothing;
                }
                match msg {
                    Some(m) => self.handle_text(m),
                    None => LinkAction::Nothing,
                }
            },
            LinkEvent::Ping(payload) => LinkAction::SendPong(payload),
            LinkEvent::Close => LinkAction::Close,
            LinkEvent::Other => LinkAction::Nothing,
        }
    }

    /// Deals with a message from the server.
    fn handle_text(&mut self, msg: SignalMsg) -> (action: LinkAction)
        ensures
            *final(self) == after_message(*old(self), msg),
            action == reported(msg),
    {
        match msg {
            SignalMsg::Pong => LinkAction::Nothing,
            SignalMsg::Registered { .. } => {
                self.duplicate = false;
                LinkAction::Report(Event::Registered)
            },
            SignalMsg::RegisterError { reason } => {
                if same_text(reason.as_str(), "duplicate") {
                    self.duplicate = true;
                }
                LinkAction::Report(Event::RegisterError(reason))
            },
            other => LinkAction::Report(Event::Message(other)),
        }
    }
}

/// A connection is given up only over a second answer in a row that has not
/// come: right after an answer it takes two.
pub proof fn law_death_takes_two_misses(w: Watch, now: u64)
    requires
        w.wf(),
        is_dead(w, now),
    ensures
        w.missed_pongs == 1,
        overdue(w, now),
        !is_dead(after_pong(w), now),
        after_pong(w).missed_pongs == 0,
{
}

/// An answer within the time allowed settles a ping: nothing is overdue until
/// the next one.
pub proof fn law_answer_settles_a_ping(w: Watch, now: u64, later: u64)
    requires
        now <= later,
        now + PING_INTERVAL_MS <= u64::MAX,
    ensures
        !overdue(after_pong(after_ping(w, now)), later),
        later < now + PING_INTERVAL_MS ==> after_timer(after_pong(after_ping(w, now)), later)
            == after_pong(after_ping(w, now)),
{
}

/// Each ping that is not answered within ten seconds counts as a miss, and the
/// second in a row ends the connection.
pub proof fn law_silence_ends_the_connection(w: Watch, t1: u64, t2: u64)
    requires
        w.missed_pongs == 0,
        w.pong_deadline is None,
        t1 + PING_INTERVAL_MS <= t2,
        t2 + PING_INTERVAL_MS <= u64::MAX,
    ensures
        ({
            let a = after_ping(w, t1);
            let b = after_timer(a, (t1 + PONG_TIMEOUT_MS) as u64);
            let c = after_ping(b, t2);
            &&& b.missed_pongs == 1
            &&& is_dead(c, (t2 + PONG_TIMEOUT_MS) as u64)
        }),
{
}

/// The wait before reconnecting begins at one second and doubles with each
/// attempt until it would pass sixteen; from then on it is thirty. It is
/// thirty at once where the identifier is in use.
pub proof fn law_waits_double(attempt: int)
    requires
        attempt >= 0,
    ensures
        backoff_secs(0, false) == 1,
        attempt < 4 ==> backoff_secs(attempt + 1, false) == 2 * backoff_secs(attempt, false),
        attempt >= 5 ==> backoff_secs(attempt, false) == 30,
        backoff_secs(attempt, true) == 30,
{
    vstd::arithmetic::power2::lemma2_to64();
    if attempt < 4 {
        vstd::arithmetic::power2::lemma_pow2_unfold((attempt + 1) as nat);
    }
}

/// A ping is sent every 25 seconds, and its answer is awaited for ten; while
/// one is awaited already, that wait is not prolonged.
pub proof fn law_pings_go_out_in_time(w: Watch, now: u64)
    requires
        now + 25_000 <= u64::MAX,
    ensures
        now >= w.next_ping ==> {
            &&& action_for(w, LinkEvent::Timer, now) == LinkAction::SendPing
            &&& after_event(w, LinkEvent::Timer, now).next_ping == now + 25_000
            &&& w.pong_deadline is None ==> after_event(w, LinkEvent::Timer, now).pong_deadline
                == Some((now + 10_000) as u64)
            &&& w.pong_deadline is Some ==> after_event(w, LinkEvent::Timer, now).pong_deadline
                == w.pong_deadline
            &&& after_event(w, LinkEvent::Timer, now).missed_pongs == w.missed_pongs
        },
        now < w.next_ping ==> {
            &&& action_for(w, LinkEvent::Timer, now) != LinkAction::SendPing
            &&& after_event(w, LinkEvent::Timer, now).next_ping == w.next_ping
        },
        after_event(w, LinkEvent::Timer, now).duplicate == w.duplicate,
{
}

/// An answer that is awaited and has not come when its time is up counts as
/// missed. The second miss in a row closes the connection, the first does not.
pub proof fn law_misses_are_counted(w: Watch, now: u64)
    requires
        w.missed_pongs <= 1,
        now < w.next_ping,
    ensures
        ({
            let missed = w.pong_deadline is Some && w.pong_deadline->0 <= now;
            let after = after_event(w, LinkEvent::Timer, now);
            &&& missed ==> after.missed_pongs == w.missed_pongs + 1 && after.pong_deadline is None
            &&& !missed ==> after == w
            &&& action_for(w, LinkEvent::Timer, now) == (if missed && w.missed_pongs == 1 {
                LinkAction::Close
            } else {
                LinkAction::Nothing
            })
        }),
{
}

/// The server answers a ping with exactly this text; any other text counts for
/// the message in it.
pub proof fn law_answers_are_recognised(w: Watch, text: String, m: SignalMsg, now: u64)
    ensures
        ({
            let pong = seq![
                '{',
                '"',
                't',
                'y',
                'p',
                'e',
                '"',
                ':',
                '"',
                'p',
                'o',
                'n',
                'g',
                '"',
                '}',
            ];
            let heard = LinkEvent::Text(text, Some(m));
            let noise = LinkEvent::Text(text, None);
            &&& text@ == pong ==> {
                &&& action_for(w, heard, now) == LinkAction::Nothing
                &&& after_event(w, heard, now) == (Watch {
                    missed_pongs: 0,
                    pong_deadline: None,
                    ..w
                })
                &&& after_event(w, noise, now) == after_event(w, heard, now)
            }
            &&& text@ != pong ==> {
                &&& after_event(w, noise, now) == w
                &&& after_event(w, heard, now).missed_pongs == w.missed_pongs
                &&& after_event(w, heard, now).pong_deadline == w.pong_deadline
                &&& after_event(w, heard, now).next_ping == w.next_ping
            }
            &&& action_for(w, noise, now) == LinkAction::Nothing
        }),
{
    reveal_strlit("{\"type\":\"pong\"}");
    assert(PONG_LITERAL@ =~= seq![
        '{',
        '"',
        't',
        'y',
        'p',
        'e',
        '"',
        ':',
        '"',
        'p',
        'o',
        'n',
        'g',
        '"',
        '}',
    ]);
}

/// The ping is exactly this text.
pub proof fn law_ping_is_this_text()
    ensures
        PING_LITERAL@ == seq![
            '{',
            '"',
            't',
            'y',
            'p',
            'e',
            '"',
            ':',
            '"',
            'p',
            'i',
            'n',
            'g',
            '"',
            '}',
        ],
{
    reveal_strlit("{\"type\":\"ping\"}");
    assert(PING_LITERAL@ =~= seq![
        '{',
        '"',
        't',
        'y',
        'p',
        'e',
        '"',
        ':',
        '"',
        'p',
        'i',
        'n',
        'g',
        '"',
        '}',
    ]);
}

/// Whatever the server says is reported as it is, but for its own answers to
/// pings; being registered and not being registered are reported as such.
pub proof fn law_messages_are_reported(w: Watch, text: String, m: SignalMsg, now: u64)
    requires
        text@ != PONG_LITERAL@,
    ensures
        ({
            let action = action_for(w, LinkEvent::Text(text, Some(m)), now);
            &&& m is Pong ==> action == LinkAction::Nothing
            &&& m is Registered ==> action == LinkAction::Report(Event::Registered)
            &&& m is RegisterError ==> action == LinkAction::Report(
                Event::RegisterError(m->RegisterError_reason),
            )
            &&& !(m is Pong || m is Registered || m is RegisterError) ==> action
                == LinkAction::Report(Event::Message(m))
        }),
{
}

/// The identifier counts as in use from a refusal for "duplicate" until a
/// registration succeeds; nothing else says anything about it.
pub proof fn law_duplicates_are_remembered(w: Watch, text: String, m: SignalMsg, now: u64)
    requires
        text@ != PONG_LITERAL@,
    ensures
        ({
            let after = after_event(w, LinkEvent::Text(text, Some(m)), now);
            let named = seq!['d', 'u', 'p', 'l', 'i', 'c', 'a', 't', 'e'];
            &&& m is Registered ==> !after.duplicate
            &&& m is RegisterError && m->RegisterError_reason@ == named ==> after.duplicate
            &&& m is RegisterError && m->RegisterError_reason@ != named ==> after.duplicate
                == w.duplicate
            &&& !(m is Registered || m is RegisterError) ==> after.duplicate == w.duplicate
        }),
{
    reveal_strlit("duplicate");
    assert("duplicate"@ =~= seq!['d', 'u', 'p', 'l', 'i', 'c', 'a', 't', 'e']);
}

/// What is to be sent is sent, a ping of the socket is answered with what it
/// carried, and a closed socket is closed here too; none of that changes what
/// is known of the connection.
pub proof fn law_sockets_are_served(w: Watch, m: SignalMsg, payload: Vec<u8>, now: u64)
    ensures
        action_for(w, LinkEvent::Outbound(m), now) == LinkAction::Send(m),
        action_for(w, LinkEvent::Ping(payload), now) == LinkAction::SendPong(payload),
        action_for(w, LinkEvent::Close, now) == LinkAction::Close,
        action_for(w, LinkEvent::Other, now) == LinkAction::Nothing,
        after_event(w, LinkEvent::Outbound(m), now) == w,
        after_event(w, LinkEvent::Ping(payload), now) == w,
        after_event(w, LinkEvent::Close, now) == w,
        after_event(w, LinkEvent::Other, now) == w,
{
}

/// A message is seen with everything in it, each in its place.
pub proof fn law_messages_are_seen_as_they_are(m: SignalMsg)
    ensures
        match m {
            SignalMsg::Register { uuid, v } => m@ == (Sig::Register { uuid: uuid@, v }),
            SignalMsg::Registered { uuid } => m@ == (Sig::Registered { uuid: uuid@ }),
            SignalMsg::RegisterError { reason } => m@ == (Sig::RegisterError {
                reason: reason@,
            }),
            SignalMsg::ConnectRequest { to, from, password, caps } => {
                &&& m@ is ConnectRequest
                &&& m@->ConnectRequest_to == text_of(to)
                &&& m@->ConnectRequest_from == text_of(from)
                &&& m@->password == text_of(password)
                &&& m@->caps is Some <==> caps is Some
                &&& caps is Some ==> m@->caps->0.len() == (caps->0).decode@.len()
                &&& caps is Some ==> forall|i: int|
                    0 <= i < (caps->0).decode@.len() ==> m@->caps->0[i] == (
                    #[trigger] (caps->0).decode@[i])@
            },
            SignalMsg::PasswordRequired { to, from, nonce } => {
                &&& m@ is PasswordRequired
                &&& m@->PasswordRequired_to == text_of(to)
                &&& m@->PasswordRequired_from == text_of(from)
                &&& m@->nonce == nonce@
            },
            SignalMsg::ConnectResponse { to, from, accepted, permission, reason, codec } => {
                &&& m@ is ConnectResponse
                &&& m@->ConnectResponse_to == text_of(to)
                &&& m@->ConnectResponse_from == text_of(from)
                &&& m@->accepted == accepted
                &&& m@->permission == text_of(permission)
                &&& m@->ConnectResponse_reason == text_of(reason)
                &&& m@->codec == text_of(codec)
            },
            SignalMsg::Signal { to, from, data } => {
                &&& m@ is Signal
                &&& m@->Signal_to == text_of(to)
                &&& m@->Signal_from == text_of(from)
                &&& m@->data == data
            },
            SignalMsg::EndSession { to, from } => {
                &&& m@ is EndSession
                &&& m@->EndSession_to == text_of(to)
                &&& m@->EndSession_from == text_of(from)
            },
            SignalMsg::RelayError { reason, to } => {
                &&& m@ is RelayError
                &&& m@->RelayError_reason == reason@
                &&& m@->RelayError_to == text_of(to)
            },
            SignalMsg::Ping => m@ is Ping,
            SignalMsg::Pong => m@ is Pong,
        },
        forall|s: String| #[trigger] text_of(Some(s)) == Some(s@),
        text_of(None) is None,
{
}

} // verus!
