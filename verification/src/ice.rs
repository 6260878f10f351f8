//! The servers that help two machines find a path to each other, and the
//! addresses that this machine offers for it.

use vstd::prelude::*;
use vstd::string::StringExecFns;

use crate::config::{texts, IceServer};
use crate::stun::{
    mapped_in, parse_stun_mapped_address, Address, Endpoint, IpAddress,
};
use crate::text::{
    begins_with, chars_of, contains_text, copy_chars, holds_at, holds_text, owned, same_text,
    starts_with,
    string_of,
};

verus! {

/// A TURN server and the credentials for it.
#[derive(Debug)]
pub struct TurnServer {
    pub hostport: String,
    pub username: String,
    pub credential: String,
}

/// What a TURN server is.
pub ghost struct RelayServer {
    pub hostport: Seq<char>,
    pub username: Seq<char>,
    pub credential: Seq<char>,
}

impl View for TurnServer {
    type V = RelayServer;

    open spec fn view(&self) -> RelayServer {
        RelayServer {
            hostport: self.hostport@,
            username: self.username@,
            credential: self.credential@,
        }
    }
}

/// The servers of a session.
#[derive(Debug)]
pub struct IceConfig {
    pub stun_urls: Vec<String>,
    pub turn_servers: Vec<TurnServer>,
}

/// What precedes the first question mark or ampersand.
pub open spec fn before_query(s: Seq<char>) -> Seq<char>
    decreases s.len(),
{
    if s.len() == 0 || s[0] == '?' || s[0] == '&' {
        seq![]
    } else {
        seq![s[0]] + before_query(s.skip(1))
    }
}

/// Whether a server only tells a machine its address.
pub open spec fn is_stun(url: Seq<char>) -> bool {
    begins_with(url, "stun:"@) || begins_with(url, "stuns:"@)
}

/// Whether a server relays datagrams. Only UDP is supported.
pub open spec fn is_turn(url: Seq<char>) -> bool {
    !is_stun(url) && begins_with(url, "turn:"@) && !holds_text(url, "transport=tcp"@)
}

/// The host and port in the URL of a relay; without a port it is 3478.
pub open spec fn relay_hostport(url: Seq<char>) -> Seq<char> {
    let host = before_query(url.skip(5));
    if host.contains(':') {
        host
    } else {
        host + ":3478"@
    }
}

/// The contents of an optional text; empty if there is none.
pub open spec fn or_empty(s: Option<String>) -> Seq<char> {
    match s {
        Some(t) => t@,
        None => seq![],
    }
}

/// The STUN servers in a list, in their order.
pub open spec fn stun_in(servers: Seq<IceServer>) -> Seq<Seq<char>>
    decreases servers.len(),
{
    if servers.len() == 0 {
        seq![]
    } else {
        let before = stun_in(servers.drop_last());
        if is_stun(servers.last().urls@) {
            before.push(servers.last().urls@)
        } else {
            before
        }
    }
}

/// The TURN servers in a list, in their order.
pub open spec fn turn_in(servers: Seq<IceServer>) -> Seq<RelayServer>
    decreases servers.len(),
{
    if servers.len() == 0 {
        seq![]
    } else {
        let before = turn_in(servers.drop_last());
        let s = servers.last();
        if is_turn(s.urls@) {
            before.push(
                RelayServer {
                    hostport: relay_hostport(s.urls@),
                    username: or_empty(s.username),
                    credential: or_empty(s.credential),
                },
            )
        } else {
            before
        }
    }
}

/// A list with a server behind it, unless it is there.
pub open spec fn with_server(list: Seq<Seq<char>>, url: Seq<char>) -> Seq<Seq<char>> {
    if list.contains(url) {
        list
    } else {
        list.push(url)
    }
}

/// A list of STUN servers with the public ones behind it, so that one that is
/// slow or blocked does not cost the address.
pub open spec fn with_fallbacks(list: Seq<Seq<char>>) -> Seq<Seq<char>> {
    with_server(
        with_server(
            with_server(list, "stun:stun.l.google.com:19302"@),
            "stun:stun1.l.google.com:19302"@,
        ),
        "stun:stun.cloudflare.com:3478"@,
    )
}

/// What the servers of a list are.
pub open spec fn relays(v: Seq<TurnServer>) -> Seq<RelayServer> {
    v.map_values(|t: TurnServer| t@)
}

proof fn lemma_before_query(s: Seq<char>, k: int)
    requires
        0 <= k <= s.len(),
        forall|i: int| 0 <= i < k ==> #[trigger] s[i] != '?' && s[i] != '&',
        k < s.len() ==> s[k] == '?' || s[k] == '&',
    ensures
        before_query(s) == s.take(k),
    decreases k,
{
    if k == 0 {
        assert(s.take(0) =~= seq![]);
    } else {
        let t = s.skip(1);
        assert forall|i: int| 0 <= i < k - 1 implies #[trigger] t[i] != '?' && t[i] != '&' by {
            assert(t[i] == s[i + 1]);
        }
        lemma_before_query(t, k - 1);
        assert(seq![s[0]] + t.take(k - 1) =~= s.take(k));
    }
}

/// What follows `from`, up to the first question mark or ampersand.
fn cut_query(s: &[char], from: usize) -> (out: Vec<char>)
    requires
        from <= s@.len(),
    ensures
        out@ == before_query(s@.skip(from as int)),
{
    let n: usize = s.len();
    let mut k: usize = from;
    while k < n && s[k] != '?' && s[k] != '&'
        invariant
            from <= k <= n == s@.len(),
            forall|i: int| from <= i < k ==> #[trigger] s@[i] != '?' && s@[i] != '&',
        decreases n - k,
    {
        k += 1;
    }
    proof {
        let t = s@.skip(from as int);
        assert forall|i: int| 0 <= i < k - from implies #[trigger] t[i] != '?' && t[i] != '&' by {
            assert(t[i] == s@[from + i]);
        }
        lemma_before_query(t, k - from);
        assert(t.take(k - from) =~= s@.subrange(from as int, k as int));
    }
    copy_chars(s, from, k)
}

fn has_colon(s: &[char]) -> (yes: bool)
    ensures
        yes == s@.contains(':'),
{
    let n: usize = s.len();
    let mut i: usize = 0;
    while i < n
        invariant
            i <= n == s@.len(),
            forall|k: int| 0 <= k < i ==> #[trigger] s@[k] != ':',
        decreases n - i,
    {
        if s[i] == ':' {
            return true;
        }
        i += 1;
    }
    false
}

fn push_unless_there(list: &mut Vec<String>, url: &str)
    ensures
        texts(final(list)@) == with_server(texts(old(list)@), url@),
{
    let n: usize = list.len();
    let ghost all = texts(list@);
    let mut i: usize = 0;
    while i < n
        invariant
            i <= n == list@.len(),
            *list == *old(list),
            all == texts(list@),
            forall|k: int| 0 <= k < i ==> #[trigger] all[k] != url@,
        decreases n - i,
    {
        if same_text(list[i].as_str(), url) {
            assert(all[i as int] == url@);
            return;
        }
        i += 1;
    }
    list.push(owned(url));
    assert(texts(list@) =~= all.push(url@));
}

fn text_or_empty(s: &Option<String>) -> (out: String)
    ensures
        out@ == or_empty(*s),
{
    match s {
        Some(t) => t.clone(),
        None => {
            let empty: String = String::new();
            assert(empty@ =~= seq![]);
            empty
        },
    }
}

/// Sorts the servers of the settings, and those that the signaling server has
/// given, into those that tell an address and those that relay. Others are
/// left out.
pub fn ice_config_from(servers: &[IceServer]) -> (c: IceConfig)
    ensures
        texts(c.stun_urls@) == with_fallbacks(stun_in(servers@)),
        relays(c.turn_servers@) == turn_in(servers@),
{
    let mut stun_urls: Vec<String> = Vec::new();
    let mut turn_servers: Vec<TurnServer> = Vec::new();
    let n: usize = servers.len();
    let mut i: usize = 0;
    assert(servers@.take(0) =~= seq![]);
    assert(texts(stun_urls@) =~= seq![]);
    assert(relays(turn_servers@) =~= seq![]);
    while i < n
        invariant
            i <= n == servers@.len(),
            texts(stun_urls@) == stun_in(servers@.take(i as int)),
            relays(turn_servers@) == turn_in(servers@.take(i as int)),
        decreases n - i,
    {
        let ghost stun_before = stun_urls@;
        let ghost turn_before = turn_servers@;
        proof {
            assert(servers@.take(i + 1).drop_last() =~= servers@.take(i as int));
            assert(servers@.take(i + 1).last() == servers@[i as int]);
        }
        let s: &IceServer = &servers[i];
        let url: Vec<char> = chars_of(s.urls.as_str());
        if starts_with(url.as_slice(), "stun:") || starts_with(url.as_slice(), "stuns:") {
            stun_urls.push(s.urls.clone());
            assert(texts(stun_urls@) =~= texts(stun_before).push(url@));
        } else if starts_with(url.as_slice(), "turn:") && !contains_text(
            url.as_slice(),
            "transport=tcp",
        ) {
            proof {
                reveal_strlit("turn:");
                assert("turn:"@.len() == 5);
            }
            let host: Vec<char> = cut_query(url.as_slice(), 5);
            let mut hostport: String = string_of(host.as_slice());
            if !has_colon(host.as_slice()) {
                hostport = hostport.concat(":3478");
            }
            let t = TurnServer {
                hostport,
                username: text_or_empty(&s.username),
                credential: text_or_empty(&s.credential),
            };
            turn_servers.push(t);
            assert(relays(turn_servers@) =~= relays(turn_before).push(t@));
        }
        i += 1;
    }
    assert(servers@.take(n as int) =~= servers@);
    push_unless_there(&mut stun_urls, "stun:stun.l.google.com:19302");
    push_unless_there(&mut stun_urls, "stun:stun1.l.google.com:19302");
    push_unless_there(&mut stun_urls, "stun:stun.cloudflare.com:3478");
    IceConfig { stun_urls, turn_servers }
}

/// The host and port in the URL of a STUN server.
pub open spec fn stun_host(url: Seq<char>) -> Seq<char> {
    if begins_with(url, "stun:"@) {
        before_query(url.skip(5))
    } else if begins_with(url, "stuns:"@) {
        before_query(url.skip(6))
    } else {
        before_query(url)
    }
}

/// The host and port in the URL of a STUN server.
pub fn stun_hostport(url: &str) -> (out: String)
    ensures
        out@ == stun_host(url@),
{
    let s: Vec<char> = chars_of(url);
    proof {
        reveal_strlit("stun:");
        reveal_strlit("stuns:");
        assert("stun:"@.len() == 5);
        assert("stuns:"@.len() == 6);
        assert(url@.skip(0) =~= url@);
    }
    let from: usize = if starts_with(s.as_slice(), "stun:") {
        5
    } else if starts_with(s.as_slice(), "stuns:") {
        6
    } else {
        0
    };
    let host: Vec<char> = cut_query(s.as_slice(), from);
    string_of(host.as_slice())
}

/// The public servers are always asked, each once, and after the machine's own.
pub proof fn law_fallbacks_are_there(servers: Seq<IceServer>)
    ensures
        ({
            let own = stun_in(servers);
            let all = with_fallbacks(own);
            &&& all.contains("stun:stun.l.google.com:19302"@)
            &&& all.contains("stun:stun1.l.google.com:19302"@)
            &&& all.contains("stun:stun.cloudflare.com:3478"@)
            &&& own.len() <= all.len() <= own.len() + 3
            &&& all.take(own.len() as int) == own
        }),
{
    let own = stun_in(servers);
    let a = with_server(own, "stun:stun.l.google.com:19302"@);
    let b = with_server(a, "stun:stun1.l.google.com:19302"@);
    let c = with_server(b, "stun:stun.cloudflare.com:3478"@);
    lemma_with_server(own, "stun:stun.l.google.com:19302"@);
    lemma_with_server(a, "stun:stun1.l.google.com:19302"@);
    lemma_with_server(b, "stun:stun.cloudflare.com:3478"@);
    assert(c.take(own.len() as int) =~= own);
}

proof fn lemma_with_server(list: Seq<Seq<char>>, url: Seq<char>)
    ensures
        with_server(list, url).contains(url),
        list.len() <= with_server(list, url).len() <= list.len() + 1,
        with_server(list, url).take(list.len() as int) == list,
        forall|x: Seq<char>| #[trigger]
            list.contains(x) ==> with_server(list, url).contains(x),
{
    let all = with_server(list, url);
    assert(all.take(list.len() as int) =~= list);
    if !list.contains(url) {
        assert(all[list.len() as int] == url);
    }
    assert forall|x: Seq<char>| #[trigger] list.contains(x) implies all.contains(x) by {
        assert(all[list.index_of(x)] == x);
    }
}

/// Whether an address is of the family of IPv4.
pub open spec fn is_v4(e: Endpoint) -> bool {
    e.ip is V4
}

/// The addresses of one family, or all if there is none of it.
pub open spec fn preferred(addrs: Seq<Endpoint>, want_ipv4: bool) -> Seq<Endpoint> {
    let matching = addrs.filter(|e: Endpoint| is_v4(e) == want_ipv4);
    if matching.len() == 0 {
        addrs
    } else {
        matching
    }
}

/// The addresses to try for a server, given those that its name stands for: a
/// socket of one family cannot reach the other.
pub fn resolve_all(addrs: Vec<Endpoint>, want_ipv4: bool) -> (out: Vec<Endpoint>)
    ensures
        out@ == preferred(addrs@, want_ipv4),
{
    let keep = Ghost(|e: Endpoint| is_v4(e) == want_ipv4);
    let mut matching: Vec<Endpoint> = Vec::new();
    let n: usize = addrs.len();
    let mut i: usize = 0;
    proof {
        reveal(Seq::filter);
    }
    assert(addrs@.take(0) =~= seq![]);
    while i < n
        invariant
            i <= n == addrs@.len(),
            keep@ == (|e: Endpoint| is_v4(e) == want_ipv4),
            matching@ == addrs@.take(i as int).filter(keep@),
        decreases n - i,
    {
        proof {
            assert(addrs@.take(i + 1).drop_last() =~= addrs@.take(i as int));
            reveal(Seq::filter);
        }
        if addrs[i].ip.is_ipv4() == want_ipv4 {
            matching.push(addrs[i]);
        }
        i += 1;
    }
    assert(addrs@.take(n as int) =~= addrs@);
    if matching.len() == 0 {
        addrs
    } else {
        matching
    }
}

/// An address of one of this machine's interfaces.
#[derive(Debug, Clone, Copy)]
pub struct Interface {
    pub ip: IpAddress,
    pub loopback: bool,
}

/// Whether an address can be offered to a peer: it neither stays on this
/// machine nor on the local link.
pub open spec fn offered(i: Interface) -> bool {
    !i.loopback && match i.ip {
        IpAddress::V4(_) => true,
        IpAddress::V6(o) => !(o@[0] == 0xfe && 0x80 <= o@[1] < 0xc0),
    }
}

/// The addresses in a list of interfaces that can be offered, at a port.
pub open spec fn offers(list: Seq<Interface>, port: u16) -> Seq<Endpoint>
    decreases list.len(),
{
    if list.len() == 0 {
        seq![]
    } else {
        let before = offers(list.drop_last(), port);
        if offered(list.last()) {
            before.push(Endpoint { ip: list.last().ip, port })
        } else {
            before
        }
    }
}

/// The addresses that this machine offers, given its interfaces. If there is
/// nothing to offer, this machine can still reach itself.
pub fn local_host_candidates(interfaces: &[Interface], port: u16) -> (out: Vec<Endpoint>)
    ensures
        offers(interfaces@, port).len() > 0 ==> out@ == offers(interfaces@, port),
        offers(interfaces@, port).len() == 0 ==> out@.len() == 1 && out@[0].ip@ == seq![
            127u8,
            0u8,
            0u8,
            1u8,
        ] && out@[0].port == port,
        forall|i: int|
            #![trigger interfaces@[i]]
            0 <= i < interfaces@.len() && !interfaces@[i].loopback && interfaces@[i].ip is V4
                ==> out@.contains(Endpoint { ip: interfaces@[i].ip, port }),
{
    let mut out: Vec<Endpoint> = Vec::new();
    let n: usize = interfaces.len();
    let mut i: usize = 0;
    assert(interfaces@.take(0) =~= seq![]);
    while i < n
        invariant
            i <= n == interfaces@.len(),
            out@ == offers(interfaces@.take(i as int), port),
        decreases n - i,
    {
        assert(interfaces@.take(i + 1).drop_last() =~= interfaces@.take(i as int));
        let iface: Interface = interfaces[i];
        let usable: bool = !iface.loopback && match iface.ip {
            IpAddress::V4(_) => true,
            IpAddress::V6(o) => !(o[0] == 0xfe && 0x80 <= o[1] && o[1] < 0xc0),
        };
        if usable {
            out.push(Endpoint { ip: iface.ip, port });
        }
        i += 1;
    }
    assert(interfaces@.take(n as int) =~= interfaces@);
    proof {
        assert forall|i: int|
            #![trigger interfaces@[i]]
            0 <= i < interfaces@.len() && !interfaces@[i].loopback
                && interfaces@[i].ip is V4 implies out@.contains(
            Endpoint { ip: interfaces@[i].ip, port },
        ) by {
            law_reachable_addresses_are_offered(interfaces@, port, i);
        }
    }
    if out.len() == 0 {
        let ip = IpAddress::V4([127, 0, 0, 1]);
        assert(ip@ =~= seq![127u8, 0u8, 0u8, 1u8]);
        out.push(Endpoint { ip, port });
    }
    out
}

/// The first address of one family.
pub open spec fn first_of_family(addrs: Seq<Endpoint>, v4: bool) -> Option<Endpoint>
    decreases addrs.len(),
{
    if addrs.len() == 0 {
        None
    } else if is_v4(addrs[0]) == v4 {
        Some(addrs[0])
    } else {
        first_of_family(addrs.skip(1), v4)
    }
}

/// The own address that a mapped one belongs to: the first of its family.
pub fn base_for(host: &[Endpoint], mapped: &Endpoint) -> (r: Option<Endpoint>)
    ensures
        r == first_of_family(host@, is_v4(*mapped)),
{
    let v4: bool = mapped.ip.is_ipv4();
    let n: usize = host.len();
    let mut i: usize = 0;
    assert(host@.skip(0) =~= host@);
    while i < n
        invariant
            i <= n == host@.len(),
            v4 == is_v4(*mapped),
            first_of_family(host@, v4) == first_of_family(host@.skip(i as int), v4),
        decreases n - i,
    {
        assert(host@.skip(i as int).skip(1) =~= host@.skip(i + 1));
        assert(host@.skip(i as int)[0] == host@[i as int]);
        if host[i].ip.is_ipv4() == v4 {
            return Some(host[i]);
        }
        i += 1;
    }
    None
}

/// How many packets are looked at for the answer of a STUN server.
pub const STUN_TRIES: u32 = 3;

/// What a packet was worth to somebody waiting for a STUN server.
#[derive(Debug, Clone, Copy)]
pub enum StunOutcome {
    Mapped(Endpoint),
    Waiting,
    GaveUp,
}

/// Waiting for the answer of a STUN server.
#[derive(Debug, Clone, Copy)]
pub struct StunWait {
    pub server: Endpoint,
    pub tid: [u8; 12],
    pub left: u32,
}

/// The address that a packet maps this machine to, if the server sent it.
pub open spec fn answer_in(server: Address, tid: Seq<u8>, from: Address, buf: Seq<u8>) -> Option<
    Address,
> {
    if from == server {
        mapped_in(buf, tid)
    } else {
        None
    }
}

impl StunWait {
    pub fn new(server: Endpoint, tid: [u8; 12]) -> (w: Self)
        ensures
            w == (StunWait { server, tid, left: STUN_TRIES }),
            w.left == 3,
    {
        StunWait { server, tid, left: STUN_TRIES }
    }

    /// Looks at one received packet.
    pub fn on_packet(&mut self, from: Endpoint, buf: &[u8]) -> (r: StunOutcome)
        requires
            old(self).left > 0,
        ensures
            *final(self) == (StunWait { left: (old(self).left - 1) as u32, ..*old(self) }),
            ({
                let answer = answer_in(old(self).server@, old(self).tid@, from@, buf@);
                match r {
                    StunOutcome::Mapped(e) => answer == Some(e@),
                    StunOutcome::Waiting => answer is None && old(self).left > 1,
                    StunOutcome::GaveUp => answer is None && old(self).left == 1,
                }
            }),
    {
        self.left = self.left - 1;
        if from.same(&self.server) {
            if let Some(mapped) = parse_stun_mapped_address(buf, &self.tid) {
                return StunOutcome::Mapped(mapped);
            }
        }
        if self.left > 0 {
            StunOutcome::Waiting
        } else {
            StunOutcome::GaveUp
        }
    }
}

/// What the search for a relay does next.
#[derive(Debug)]
pub enum RelayStep {
    /// Find the addresses of this host and port, then `resolved`.
    Resolve(String),
    /// Ask this server for an allocation with these credentials; `refused` if
    /// there is none, `unusable` if the address that it relays for is no use.
    Allocate { server: Endpoint, username: String, credential: String },
    /// There is no relay.
    GiveUp,
}

/// The search for a relay: the servers in their order, and the addresses of
/// each in theirs, until one allocates.
#[derive(Debug)]
pub struct RelaySearch {
    pub servers: Vec<TurnServer>,
    /// The server that is being tried.
    pub at: usize,
    /// Its addresses, once they are known.
    pub addrs: Option<Vec<Endpoint>>,
    /// The address that is being tried.
    pub next: usize,
}

impl RelaySearch {
    pub fn new(servers: Vec<TurnServer>) -> (s: Self)
        ensures
            s.servers == servers,
            s.at == 0,
            s.addrs is None,
            s.next == 0,
    {
        RelaySearch { servers, at: 0, addrs: None, next: 0 }
    }

    /// What to do next.
    pub fn step(&mut self) -> (r: RelayStep)
        ensures
            final(self).servers == old(self).servers,
            old(self).at <= final(self).at,
            match r {
                RelayStep::Allocate { server, username, credential } => {
                    &&& *final(self) == *old(self)
                    &&& old(self).at < old(self).servers@.len()
                    &&& old(self).addrs is Some
                    &&& old(self).next < old(self).addrs->0@.len()
                    &&& server == old(self).addrs->0@[old(self).next as int]
                    &&& username@ == old(self).servers@[old(self).at as int].username@
                    &&& credential@ == old(self).servers@[old(self).at as int].credential@
                },
                RelayStep::Resolve(hostport) => {
                    &&& final(self).at < final(self).servers@.len()
                    &&& final(self).addrs is None
                    &&& hostport@ == final(self).servers@[final(self).at as int].hostport@
                    &&& final(self).at == (if old(self).addrs is Some {
                        old(self).at + 1
                    } else {
                        old(self).at as int
                    })
                    &&& old(self).addrs is Some ==> old(self).next >= old(self).addrs->0@.len()
                },
                RelayStep::GiveUp => {
                    &&& old(self).addrs is None ==> old(self).at >= old(self).servers@.len()
                    &&& old(self).addrs is Some ==> old(self).at + 1 >= old(self).servers@.len()
                    &&& old(self).addrs is Some && old(self).at < old(self).servers@.len()
                        ==> old(self).next >= old(self).addrs->0@.len()
                },
            },
            (final(self).search(), r.sought()) == sought(old(self).search()),
    {
        if self.at >= self.servers.len() {
            return RelayStep::GiveUp;
        }
        if let Some(addrs) = &self.addrs {
            if self.next < addrs.len() {
                return RelayStep::Allocate {
                    server: addrs[self.next],
                    username: self.servers[self.at].username.clone(),
                    credential: self.servers[self.at].credential.clone(),
                };
            }
            self.at = self.at + 1;
            self.addrs = None;
            self.next = 0;
        }
        if self.at >= self.servers.len() {
            return RelayStep::GiveUp;
        }
        RelayStep::Resolve(self.servers[self.at].hostport.clone())
    }

    /// The name of the server that is being tried stands for these addresses.
    /// Those of the socket's family come into question.
    pub fn resolved(&mut self, addrs: Vec<Endpoint>, want_ipv4: bool)
        ensures
            final(self).servers == old(self).servers,
            final(self).at == old(self).at,
            final(self).addrs is Some,
            final(self).addrs->0@ == preferred(addrs@, want_ipv4),
            final(self).next == 0,
    {
        self.addrs = Some(resolve_all(addrs, want_ipv4));
        self.next = 0;
    }

    /// The address that was tried gave no allocation.
    pub fn refused(&mut self)
        requires
            old(self).next < usize::MAX,
        ensures
            *final(self) == (RelaySearch { next: (old(self).next + 1) as usize, ..*old(self) }),
    {
        self.next = self.next + 1;
    }

    /// The server has allocated, but the address that it relays for is no use:
    /// its other addresses are not tried.
    pub fn unusable(&mut self)
        ensures
            *final(self) == (RelaySearch {
                next: if old(self).addrs is Some {
                    old(self).addrs->0@.len() as usize
                } else {
                    old(self).next
                },
                ..*old(self)
            }),
    {
        if let Some(addrs) = &self.addrs {
            self.next = addrs.len();
        }
    }
}

proof fn lemma_offers_split(a: Seq<Interface>, b: Seq<Interface>, port: u16)
    ensures
        offers(a + b, port) == offers(a, port) + offers(b, port),
    decreases b.len(),
{
    if b.len() == 0 {
        assert(a + b =~= a);
        assert(offers(a, port) + offers(b, port) =~= offers(a, port));
    } else {
        lemma_offers_split(a, b.drop_last(), port);
        assert((a + b).drop_last() =~= a + b.drop_last());
        assert(offers(a + b, port) =~= offers(a, port) + offers(b, port));
    }
}

/// Every address that a peer could reach is offered: each IPv4 address that is
/// not a loopback one, and each IPv6 address that is neither that nor of the
/// local link, fe80::/10.
pub proof fn law_reachable_addresses_are_offered(list: Seq<Interface>, port: u16, i: int)
    requires
        0 <= i < list.len(),
        !list[i].loopback,
        list[i].ip matches IpAddress::V6(o) ==> o@[0] != 0xfe || o@[1] < 0x80 || o@[1] > 0xbf,
    ensures
        offers(list, port).contains(Endpoint { ip: list[i].ip, port }),
    decreases list.len(),
{
    let all = offers(list, port);
    if i == list.len() - 1 {
        assert(all.last() == Endpoint { ip: list[i].ip, port });
    } else {
        law_reachable_addresses_are_offered(list.drop_last(), port, i);
        let before = offers(list.drop_last(), port);
        let k = choose|k: int|
            0 <= k < before.len() && before[k] == (Endpoint { ip: list[i].ip, port });
        assert(all[k] == before[k]);
    }
}

/// Nothing else is offered: what is, is the address of an interface that leads
/// out of this machine and off the local link, at the port that was asked for.
pub proof fn law_only_reachable_addresses_are_offered(list: Seq<Interface>, port: u16, k: int)
    requires
        0 <= k < offers(list, port).len(),
    ensures
        offers(list, port)[k].port == port,
        exists|i: int|
            #![trigger list[i]]
            0 <= i < list.len() && list[i].ip == offers(list, port)[k].ip && !list[i].loopback && (
            list[i].ip matches IpAddress::V6(o) ==> o@[0] != 0xfe || o@[1] < 0x80 || o@[1] > 0xbf),
    decreases list.len(),
{
    let before = offers(list.drop_last(), port);
    if k < before.len() {
        law_only_reachable_addresses_are_offered(list.drop_last(), port, k);
        let i = choose|i: int|
            #![trigger list.drop_last()[i]]
            0 <= i < list.len() - 1 && list.drop_last()[i].ip == before[k].ip
                && !list.drop_last()[i].loopback && (list.drop_last()[i].ip matches IpAddress::V6(
                o,
            ) ==> o@[0] != 0xfe || o@[1] < 0x80 || o@[1] > 0xbf);
        assert(list[i] == list.drop_last()[i]);
    } else {
        assert(list[list.len() - 1] == list.last());
    }
}

/// The addresses are offered in the order of the interfaces, each interface
/// once at most, whatever the others are.
pub proof fn law_offers_keep_their_order(a: Seq<Interface>, b: Seq<Interface>, port: u16)
    ensures
        offers(a + b, port) == offers(a, port) + offers(b, port),
        a.len() == 1 ==> offers(a, port).len() <= 1,
        a.len() == 0 ==> offers(a, port).len() == 0,
{
    lemma_offers_split(a, b, port);
    if a.len() == 1 {
        assert(offers(a.drop_last(), port).len() == 0);
    }
}

proof fn lemma_begins(p: Seq<char>, rest: Seq<char>)
    ensures
        begins_with(p + rest, p),
        (p + rest).skip(p.len() as int) == rest,
{
    assert((p + rest).take(p.len() as int) =~= p);
    assert((p + rest).skip(p.len() as int) =~= rest);
}

/// Servers are sorted one by one, in their order: what becomes of one does not
/// depend on the others.
pub proof fn law_servers_keep_their_order(a: Seq<IceServer>, b: Seq<IceServer>)
    ensures
        stun_in(a + b) == stun_in(a) + stun_in(b),
        turn_in(a + b) == turn_in(a) + turn_in(b),
        stun_in(Seq::<IceServer>::empty()).len() == 0,
        turn_in(Seq::<IceServer>::empty()).len() == 0,
    decreases b.len(),
{
    if b.len() == 0 {
        assert(a + b =~= a);
        assert(stun_in(a) + stun_in(b) =~= stun_in(a));
        assert(turn_in(a) + turn_in(b) =~= turn_in(a));
    } else {
        law_servers_keep_their_order(a, b.drop_last());
        assert((a + b).drop_last() =~= a + b.drop_last());
        assert(stun_in(a + b) =~= stun_in(a) + stun_in(b));
        assert(turn_in(a + b) =~= turn_in(a) + turn_in(b));
    }
}

proof fn lemma_single_server(s: IceServer)
    ensures
        stun_in(seq![s]) == (if is_stun(s.urls@) {
            seq![s.urls@]
        } else {
            seq![]
        }),
        turn_in(seq![s]) == (if is_turn(s.urls@) {
            seq![
                RelayServer {
                    hostport: relay_hostport(s.urls@),
                    username: or_empty(s.username),
                    credential: or_empty(s.credential),
                },
            ]
        } else {
            seq![]
        }),
{
    reveal_with_fuel(stun_in, 2);
    reveal_with_fuel(turn_in, 2);
    let before = seq![s].drop_last();
    assert(before.len() == 0);
    assert(stun_in(before) =~= seq![]);
    assert(turn_in(before) =~= seq![]);
    assert(seq![s].last() == s);
    assert(stun_in(before).push(s.urls@) =~= seq![s.urls@]);
}

/// A server whose URL begins with `stun:` or `stuns:` is asked for this
/// machine's address, and relays nothing. It is reached at what stands between
/// that and the query.
pub proof fn law_stun_servers_are_asked(s: IceServer, host: Seq<char>, query: Seq<char>)
    requires
        s.urls@ == "stun:"@ + host + query || s.urls@ == "stuns:"@ + host + query,
        forall|i: int| 0 <= i < host.len() ==> #[trigger] host[i] != '?' && host[i] != '&',
        query.len() > 0 ==> query[0] == '?' || query[0] == '&',
    ensures
        stun_in(seq![s]) == seq![s.urls@],
        turn_in(seq![s]) == Seq::<RelayServer>::empty(),
        stun_host(s.urls@) == host,
{
    reveal_strlit("stun:");
    reveal_strlit("stuns:");
    let p = if s.urls@ == "stun:"@ + host + query {
        "stun:"@
    } else {
        "stuns:"@
    };
    let rest = host + query;
    assert(s.urls@ =~= p + rest);
    lemma_begins(p, rest);
    assert forall|i: int| 0 <= i < host.len() implies #[trigger] rest[i] != '?' && rest[i]
        != '&' by {
        assert(rest[i] == host[i]);
    }
    lemma_before_query(rest, host.len() as int);
    assert(rest.take(host.len() as int) =~= host);
    if p == "stuns:"@ {
        assert(s.urls@[4] == 's');
        assert(s.urls@.take(5)[4] == 's');
        assert("stun:"@[4] == ':');
    }
    lemma_single_server(s);
    assert(stun_in(seq![s]) =~= seq![s.urls@]);
    assert(turn_in(seq![s]) =~= seq![]);
}

/// A server whose URL begins with `turn:` relays, unless it wants TCP. It is
/// reached at what stands between that and the query, at port 3478 if none is
/// named, with the credentials that belong to it.
pub proof fn law_relays_are_used_as_given(s: IceServer, host: Seq<char>, query: Seq<char>)
    requires
        s.urls@ == "turn:"@ + host + query,
        forall|i: int| 0 <= i < host.len() ==> #[trigger] host[i] != '?' && host[i] != '&',
        query.len() > 0 ==> query[0] == '?' || query[0] == '&',
    ensures
        stun_in(seq![s]) == Seq::<Seq<char>>::empty(),
        (exists|i: int|
            0 <= i <= s.urls@.len() - 13 && #[trigger] s.urls@.subrange(i, i + 13)
                == "transport=tcp"@) ==> turn_in(seq![s]) == Seq::<RelayServer>::empty(),
        (forall|i: int|
            0 <= i <= s.urls@.len() - 13 ==> #[trigger] s.urls@.subrange(i, i + 13)
                != "transport=tcp"@) ==> turn_in(seq![s]) == seq![
            RelayServer {
                hostport: if host.contains(':') {
                    host
                } else {
                    host + seq![':', '3', '4', '7', '8']
                },
                username: match s.username {
                    Some(u) => u@,
                    None => seq![],
                },
                credential: match s.credential {
                    Some(c) => c@,
                    None => seq![],
                },
            },
        ],
{
    reveal_strlit("turn:");
    reveal_strlit("stun:");
    reveal_strlit("stuns:");
    reveal_strlit("transport=tcp");
    reveal_strlit(":3478");
    assert(":3478"@ =~= seq![':', '3', '4', '7', '8']);
    let url = s.urls@;
    let rest = host + query;
    assert(url =~= "turn:"@ + rest);
    lemma_begins("turn:"@, rest);
    assert forall|i: int| 0 <= i < host.len() implies #[trigger] rest[i] != '?' && rest[i]
        != '&' by {
        assert(rest[i] == host[i]);
    }
    lemma_before_query(rest, host.len() as int);
    assert(rest.take(host.len() as int) =~= host);
    assert(url[0] == 't');
    assert(url.take(5)[0] == 't' && (url.len() >= 6 ==> url.take(6)[0] == 't'));
    assert("stun:"@[0] == 's' && "stuns:"@[0] == 's');
    lemma_single_server(s);
    assert(stun_in(seq![s]) =~= seq![]);
    if holds_text(url, "transport=tcp"@) {
        let i = choose|i: int| holds_at(url, "transport=tcp"@, i);
        assert(url.subrange(i, i + 13) == "transport=tcp"@);
    }
    if exists|i: int|
        0 <= i <= url.len() - 13 && #[trigger] url.subrange(i, i + 13) == "transport=tcp"@ {
        let i = choose|i: int|
            0 <= i <= url.len() - 13 && #[trigger] url.subrange(i, i + 13) == "transport=tcp"@;
        assert(holds_at(url, "transport=tcp"@, i));
    }
}

/// A server of any other kind is left out.
pub proof fn law_other_servers_are_left_out(s: IceServer)
    requires
        s.urls@.len() < 5 || s.urls@.take(5) != "stun:"@ && s.urls@.take(5) != "turn:"@,
        s.urls@.len() < 6 || s.urls@.take(6) != "stuns:"@,
    ensures
        stun_in(seq![s]).len() == 0,
        turn_in(seq![s]).len() == 0,
{
    reveal_strlit("stun:");
    reveal_strlit("stuns:");
    reveal_strlit("turn:");
    lemma_single_server(s);
}

/// Of a server's addresses those of the socket's family are tried, all of them
/// and in their order; if there is none, all are.
pub proof fn law_addresses_of_the_family_are_tried(addrs: Seq<Endpoint>, v4: bool)
    ensures
        (forall|i: int| 0 <= i < addrs.len() ==> (#[trigger] addrs[i]).ip is V4 != v4)
            ==> preferred(addrs, v4) == addrs,
        (exists|i: int| 0 <= i < addrs.len() && (#[trigger] addrs[i]).ip is V4 == v4) ==> {
            &&& forall|k: int|
                0 <= k < preferred(addrs, v4).len() ==> (#[trigger] preferred(addrs, v4)[k]).ip
                    is V4 == v4
            &&& forall|i: int|
                0 <= i < addrs.len() && addrs[i].ip is V4 == v4 ==> preferred(addrs, v4).contains(
                    #[trigger] addrs[i],
                )
            &&& forall|k: int|
                0 <= k < preferred(addrs, v4).len() ==> addrs.contains(
                    #[trigger] preferred(addrs, v4)[k],
                )
            &&& preferred(addrs, v4).len() <= addrs.len()
        },
{
    let keep = |e: Endpoint| is_v4(e) == v4;
    let kept = addrs.filter(keep);
    lemma_kept_of_family(addrs, v4);
    if exists|i: int| 0 <= i < addrs.len() && (#[trigger] addrs[i]).ip is V4 == v4 {
        let i = choose|i: int| 0 <= i < addrs.len() && (#[trigger] addrs[i]).ip is V4 == v4;
        assert(kept.contains(addrs[i]));
    } else if kept.len() > 0 {
        assert(addrs.contains(kept[0]));
        assert(kept[0].ip is V4 == v4);
    }
}

proof fn lemma_kept_of_family(addrs: Seq<Endpoint>, v4: bool)
    ensures
        ({
            let kept = addrs.filter(|e: Endpoint| is_v4(e) == v4);
            &&& kept.len() <= addrs.len()
            &&& forall|k: int| 0 <= k < kept.len() ==> (#[trigger] kept[k]).ip is V4 == v4
            &&& forall|k: int| 0 <= k < kept.len() ==> addrs.contains(#[trigger] kept[k])
            &&& forall|i: int|
                0 <= i < addrs.len() && addrs[i].ip is V4 == v4 ==> kept.contains(
                    #[trigger] addrs[i],
                )
        }),
    decreases addrs.len(),
{
    reveal(Seq::filter);
    if addrs.len() > 0 {
        let rest = addrs.drop_last();
        let before = rest.filter(|e: Endpoint| is_v4(e) == v4);
        let kept = addrs.filter(|e: Endpoint| is_v4(e) == v4);
        lemma_kept_of_family(rest, v4);
        assert forall|k: int| 0 <= k < kept.len() implies addrs.contains(#[trigger] kept[k]) by {
            if k < before.len() {
                assert(before[k] == kept[k]);
                let i = choose|i: int| 0 <= i < rest.len() && rest[i] == before[k];
                assert(addrs[i] == kept[k]);
            } else {
                assert(addrs[addrs.len() - 1] == kept[k]);
            }
        }
        assert forall|k: int| 0 <= k < kept.len() implies (#[trigger] kept[k]).ip is V4 == v4 by {
            if k < before.len() {
                assert(before[k] == kept[k]);
            }
        }
        assert forall|i: int| 0 <= i < addrs.len() && addrs[i].ip is V4 == v4 implies kept.contains(
            #[trigger] addrs[i],
        ) by {
            if i < rest.len() {
                assert(rest[i] == addrs[i]);
                let k = choose|k: int| 0 <= k < before.len() && before[k] == rest[i];
                assert(kept[k] == addrs[i]);
            } else {
                assert(kept[before.len() as int] == addrs[i]);
            }
        }
    }
}

/// A mapped address belongs to the first own address of its family.
pub proof fn law_base_is_the_first_of_its_family(addrs: Seq<Endpoint>, v4: bool)
    ensures
        match first_of_family(addrs, v4) {
            Some(e) => exists|i: int|
                0 <= i < addrs.len() && #[trigger] addrs[i] == e && e.ip is V4 == v4 && forall|
                    j: int,
                |
                    0 <= j < i ==> (#[trigger] addrs[j]).ip is V4 != v4,
            None => forall|j: int| 0 <= j < addrs.len() ==> (#[trigger] addrs[j]).ip is V4 != v4,
        },
    decreases addrs.len(),
{
    if addrs.len() > 0 {
        if addrs[0].ip is V4 != v4 {
            let rest = addrs.skip(1);
            law_base_is_the_first_of_its_family(rest, v4);
            match first_of_family(rest, v4) {
                Some(e) => {
                    let i = choose|i: int|
                        0 <= i < rest.len() && #[trigger] rest[i] == e && e.ip is V4 == v4
                            && forall|j: int|
                            0 <= j < i ==> (#[trigger] rest[j]).ip is V4 != v4;
                    assert(addrs[i + 1] == e);
                    assert forall|j: int| 0 <= j < i + 1 implies (#[trigger] addrs[j]).ip is V4
                        != v4 by {
                        if j > 0 {
                            assert(rest[j - 1] == addrs[j]);
                        }
                    }
                },
                None => {
                    assert forall|j: int| 0 <= j < addrs.len() implies (#[trigger] addrs[j]).ip
                        is V4 != v4 by {
                        if j > 0 {
                            assert(rest[j - 1] == addrs[j]);
                        }
                    }
                },
            }
        } else {
            assert(addrs[0] == first_of_family(addrs, v4)->0);
        }
    }
}

/// Only the server that was asked can tell this machine its address.
pub proof fn law_only_the_server_answers(server: Address, tid: Seq<u8>, from: Address, buf: Seq<u8>)
    ensures
        from != server ==> answer_in(server, tid, from, buf) is None,
        answer_in(server, tid, server, buf) == mapped_in(buf, tid),
{
}

/// A relay server is seen as it is.
pub proof fn law_relays_are_seen_as_they_are(t: TurnServer)
    ensures
        t@.hostport == t.hostport@,
        t@.username == t.username@,
        t@.credential == t.credential@,
{
}

/// A search for a relay.
#[verifier::ext_equal]
pub ghost struct Search {
    pub servers: Seq<RelayServer>,
    pub at: int,
    pub addrs: Option<Seq<Endpoint>>,
    pub next: int,
}

/// What a search needs.
#[verifier::ext_equal]
pub ghost enum Sought {
    /// An allocation at this address, for this user with this credential.
    Allocate(Endpoint, Seq<char>, Seq<char>),
    /// The addresses of this name.
    Resolve(Seq<char>),
    /// Nothing: there is no relay.
    GiveUp,
}

impl RelaySearch {
    /// The search, with its lists as sequences.
    pub open spec fn search(&self) -> Search {
        Search {
            servers: self.servers@.map_values(|t: TurnServer| t@),
            at: self.at as int,
            addrs: match self.addrs {
                Some(a) => Some(a@),
                None => None,
            },
            next: self.next as int,
        }
    }
}

impl RelayStep {
    /// The step, with text as sequences.
    pub open spec fn sought(&self) -> Sought {
        match self {
            RelayStep::Allocate { server, username, credential } => Sought::Allocate(
                *server,
                username@,
                credential@,
            ),
            RelayStep::Resolve(hostport) => Sought::Resolve(hostport@),
            RelayStep::GiveUp => Sought::GiveUp,
        }
    }
}

/// What a search needs next, and where it stands then.
pub open spec fn sought(s: Search) -> (Search, Sought) {
    if s.at >= s.servers.len() {
        (s, Sought::GiveUp)
    } else if s.addrs is Some && s.next < s.addrs->0.len() {
        let server = s.servers[s.at];
        (s, Sought::Allocate((s.addrs->0)[s.next], server.username, server.credential))
    } else {
        let on = if s.addrs is Some {
            Search { at: s.at + 1, addrs: None, next: 0, ..s }
        } else {
            s
        };
        (
            on,
            if on.at < on.servers.len() {
                Sought::Resolve(on.servers[on.at].hostport)
            } else {
                Sought::GiveUp
            },
        )
    }
}

/// Servers are tried in their order, and of each its addresses in theirs, with
/// the credentials of that very server. A server is asked for by its name, and
/// only once all of them have been tried is there no relay.
pub proof fn law_relays_are_tried_in_turn(
    servers: Seq<RelayServer>,
    at: int,
    addrs: Seq<Endpoint>,
    next: int,
)
    requires
        0 <= at < servers.len(),
        0 <= next,
    ensures
        sought(Search { servers, at, addrs: None, next }).1 == Sought::Resolve(
            servers[at].hostport,
        ),
        next < addrs.len() ==> sought(Search { servers, at, addrs: Some(addrs), next }).1
            == Sought::Allocate(addrs[next], servers[at].username, servers[at].credential),
        next >= addrs.len() && at + 1 < servers.len() ==> sought(
            Search { servers, at, addrs: Some(addrs), next },
        ) == (
            Search { servers, at: at + 1, addrs: None, next: 0 },
            Sought::Resolve(servers[at + 1].hostport),
        ),
        next >= addrs.len() && at + 1 == servers.len() ==> sought(
            Search { servers, at, addrs: Some(addrs), next },
        ).1 == Sought::GiveUp,
        forall|a: Option<Seq<Endpoint>>, n: int| #[trigger]
            sought(Search { servers, at: servers.len() as int, addrs: a, next: n }).1
                == Sought::GiveUp,
{
}

} // verus!
