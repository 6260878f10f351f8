//! A TURN client: the relay that makes sessions work across networks where
//! no direct path can be opened. There is one allocation per session.
//!
//! The relayed address takes part in the session as a candidate. Datagrams
//! from that address are wrapped in Send Indications to the server, and the
//! server's Data Indications are unwrapped. Permissions per peer address and
//! the allocation itself are refreshed before they expire. Only UDP and
//! long-term credentials are used.
//!
//! Times are milliseconds on a clock that does not run backwards.

use vstd::prelude::*;
use vstd::utf8::{decode_utf8, encode_utf8, valid_utf8};

use crate::bytes::{append_bytes, be32, copy_range, push_be32, same_bytes};
use crate::random::random_bytes;
use crate::stun::{
    attribute, attributes, error_code_of, first_of, is_address, law_message_parses_back,
    law_xor_address_reads_back, lifetime_of, message, parse_message, parsed, signed_message,
    values_fit, xor_addr_of, xor_address, Address, Attrs, Endpoint, IpAddress, MsgBuilder,
    ATTR_DATA, ATTR_LIFETIME, ATTR_NONCE, ATTR_REALM, ATTR_REQUESTED_TRANSPORT, ATTR_USERNAME,
    ATTR_XOR_PEER_ADDRESS, ATTR_XOR_RELAYED_ADDRESS,
};
use crate::text::owned;

verus! {

pub const ALLOCATE_REQ: u16 = 0x0003;
pub const ALLOCATE_OK: u16 = 0x0103;
pub const ALLOCATE_ERR: u16 = 0x0113;
pub const REFRESH_REQ: u16 = 0x0004;
pub const REFRESH_OK: u16 = 0x0104;
pub const REFRESH_ERR: u16 = 0x0114;
pub const CREATE_PERM_REQ: u16 = 0x0008;
pub const CREATE_PERM_OK: u16 = 0x0108;
pub const CREATE_PERM_ERR: u16 = 0x0118;
pub const SEND_INDICATION: u16 = 0x0016;
pub const DATA_INDICATION: u16 = 0x0017;

/// The error code of a nonce that is no longer accepted.
pub const STALE_NONCE: u32 = 438;

/// How long a permission is relied on. Servers keep one for five minutes.
pub const PERMISSION_REFRESH_MS: u64 = 240_000;

/// The lifetime that is asked for, and that is taken where a server names
/// none, in seconds.
pub const LIFETIME_SECS: u32 = 600;

/// The MD5 digest of a message, as the crate `md5` computes it.
pub uninterp spec fn md5_digest(msg: Seq<u8>) -> [u8; 16];

/// Calls `md5::Md5::digest`, which hashes the whole message.
#[verifier::external_body]
fn hash_md5(msg: &[u8]) -> (digest: [u8; 16])
    ensures
        digest == md5_digest(msg@),
{
    <md5::Md5 as md5::Digest>::digest(msg).into()
}

/// A transaction id of random bytes. Nothing is said of which bytes they are.
pub fn new_tid() -> (tid: [u8; 12])
    ensures
        tid@.len() == 12,
{
    let bytes: Vec<u8> = random_bytes(12);
    tid_of(bytes.as_slice())
}

/// The transaction id that consists of these bytes.
pub fn tid_of(bytes: &[u8]) -> (tid: [u8; 12])
    requires
        bytes@.len() == 12,
    ensures
        tid@ == bytes@,
{
    let b: &[u8] = bytes;
    let tid: [u8; 12] = [b[0], b[1], b[2], b[3], b[4], b[5], b[6], b[7], b[8], b[9], b[10], b[11]];
    assert(tid@ =~= bytes@);
    tid
}

/// The key of long-term credentials: the digest of user name, realm and
/// password with colons between.
pub open spec fn credential_key(username: Seq<char>, realm: Seq<char>, password: Seq<char>) -> Seq<
    u8,
> {
    md5_digest(
        encode_utf8(username) + seq![58u8] + encode_utf8(realm) + seq![58u8] + encode_utf8(
            password,
        ),
    )@
}

/// The key of long-term credentials.
pub fn long_term_key(username: &str, realm: &str, password: &str) -> (key: [u8; 16])
    ensures
        key@ == credential_key(username@, realm@, password@),
{
    let mut msg: Vec<u8> = Vec::new();
    append_bytes(&mut msg, username.as_bytes());
    msg.push(58);
    append_bytes(&mut msg, realm.as_bytes());
    msg.push(58);
    append_bytes(&mut msg, password.as_bytes());
    assert(msg@ =~= encode_utf8(username@) + seq![58u8] + encode_utf8(realm@) + seq![58u8]
        + encode_utf8(password@));
    hash_md5(msg.as_slice())
}

/// What an allocation is.
#[verifier::ext_equal]
pub ghost struct Relay {
    pub server: Address,
    pub relayed: Address,
    pub username: Seq<char>,
    pub realm: Seq<char>,
    pub nonce: Seq<u8>,
    pub key: Seq<u8>,
    pub password: Seq<char>,
    pub lifetime_ms: int,
    /// When the allocation was last refreshed; `None` if it must be at once.
    pub last_refresh: Option<u64>,
    /// When a permission was last asked for, by the peer's octets.
    pub permissions: Map<Seq<u8>, u64>,
}

/// A fresh allocation. A lifetime of less than a minute counts as a minute.
pub open spec fn fresh_relay(
    server: Address,
    relayed: Address,
    username: Seq<char>,
    realm: Seq<char>,
    nonce: Seq<u8>,
    password: Seq<char>,
    lifetime_secs: u32,
    now: u64,
) -> Relay {
    Relay {
        server,
        relayed,
        username,
        realm,
        nonce,
        key: credential_key(username, realm, password),
        password,
        lifetime_ms: if lifetime_secs < 60 {
            60_000int
        } else {
            lifetime_secs * 1000
        },
        last_refresh: Some(now),
        permissions: Map::empty(),
    }
}

/// How long ago `then` was; nothing lies in the future.
pub open spec fn elapsed(now: u64, since: u64) -> int {
    if now >= since {
        now - since
    } else {
        0
    }
}

/// The attributes that identify the user.
pub open spec fn credentials(r: Relay) -> Seq<u8> {
    attribute(ATTR_USERNAME, encode_utf8(r.username)) + attribute(
        ATTR_REALM,
        encode_utf8(r.realm),
    ) + attribute(ATTR_NONCE, r.nonce)
}

/// A request to let a peer's datagrams through.
pub open spec fn permission_request(r: Relay, peer: Address, tid: Seq<u8>) -> Seq<u8> {
    signed_message(
        CREATE_PERM_REQ,
        tid,
        attribute(ATTR_XOR_PEER_ADDRESS, xor_address(peer, tid)) + credentials(r),
        r.key,
    )
}

/// A request to keep the allocation.
pub open spec fn refresh_request(r: Relay, tid: Seq<u8>) -> Seq<u8> {
    signed_message(
        REFRESH_REQ,
        tid,
        attribute(ATTR_LIFETIME, be32(LIFETIME_SECS)) + credentials(r),
        r.key,
    )
}

/// A datagram on its way to a peer through the relay.
pub open spec fn send_indication(peer: Address, data: Seq<u8>, tid: Seq<u8>) -> Seq<u8> {
    message(
        SEND_INDICATION,
        tid,
        attribute(ATTR_XOR_PEER_ADDRESS, xor_address(peer, tid)) + attribute(ATTR_DATA, data),
        0,
    )
}

/// Whether the peer's permission can still be relied on.
pub open spec fn permitted(r: Relay, ip: Seq<u8>, now: u64) -> bool {
    r.permissions.contains_key(ip) && elapsed(now, r.permissions[ip]) < PERMISSION_REFRESH_MS
}

/// The allocation once a datagram has gone to a peer.
pub open spec fn after_send(r: Relay, ip: Seq<u8>, now: u64) -> Relay {
    if permitted(r, ip, now) {
        r
    } else {
        Relay { permissions: r.permissions.insert(ip, now), ..r }
    }
}

/// What goes to the server for a datagram to a peer: a permission request if
/// the permission cannot be relied on, then the datagram.
pub open spec fn send_datagrams(
    r: Relay,
    peer: Address,
    data: Seq<u8>,
    now: u64,
    permission_tid: Seq<u8>,
    tid: Seq<u8>,
) -> Seq<Seq<u8>> {
    if permitted(r, peer.octets, now) {
        seq![send_indication(peer, data, tid)]
    } else {
        seq![permission_request(r, peer, permission_tid), send_indication(peer, data, tid)]
    }
}

/// Whether half the lifetime has passed since the last refresh.
pub open spec fn refresh_due(r: Relay, now: u64) -> bool {
    r.last_refresh is None || elapsed(now, r.last_refresh->0) >= r.lifetime_ms / 2
}

/// The datagram that a Data Indication carries, and who sent it.
pub open spec fn relayed_data(buf: Seq<u8>) -> Option<(Address, Seq<u8>)> {
    match parsed(buf) {
        Some(m) => {
            let peer = xor_addr_of(m.attrs, ATTR_XOR_PEER_ADDRESS, m.tid);
            let data = first_of(m.attrs, ATTR_DATA);
            if m.mtype == DATA_INDICATION && peer is Some && data is Some {
                Some((peer->0, data->0))
            } else {
                None
            }
        },
        None => None,
    }
}

/// Whether a message refuses a request.
pub open spec fn is_refusal(mtype: u16) -> bool {
    mtype == CREATE_PERM_ERR || mtype == REFRESH_ERR || mtype == ALLOCATE_ERR
}

/// The new nonce in a message that calls the old one stale.
pub open spec fn fresh_nonce(buf: Seq<u8>) -> Option<Seq<u8>> {
    match parsed(buf) {
        Some(m) => if is_refusal(m.mtype) && error_code_of(m.attrs) == Some(STALE_NONCE) {
            first_of(m.attrs, ATTR_NONCE)
        } else {
            None
        },
        None => None,
    }
}

/// The realm that a message names.
pub open spec fn realm_in(attrs: Seq<(u16, Seq<u8>)>) -> Option<Seq<char>> {
    match first_of(attrs, ATTR_REALM) {
        Some(val) => if valid_utf8(val) {
            Some(decode_utf8(val))
        } else {
            None
        },
        None => None,
    }
}

/// The allocation once a packet has come from the server: a stale nonce makes
/// it take up the new one and renew everything that the old one stood for.
pub open spec fn after_packet(r: Relay, buf: Seq<u8>) -> Relay {
    match fresh_nonce(buf) {
        Some(nonce) => {
            let realm = match realm_in(parsed(buf)->0.attrs) {
                Some(realm) => realm,
                None => r.realm,
            };
            Relay {
                nonce,
                realm,
                key: credential_key(r.username, realm, r.password),
                permissions: Map::empty(),
                last_refresh: None,
                ..r
            }
        },
        None => r,
    }
}

/// One TURN allocation.
pub struct TurnAllocation {
    server: Endpoint,
    relayed: Endpoint,
    username: String,
    realm: String,
    nonce: Vec<u8>,
    key: [u8; 16],
    password: String,
    lifetime_ms: u64,
    last_refresh: Option<u64>,
    /// Peers that a permission was asked for, and when; none occurs twice.
    permissions: Vec<(IpAddress, u64)>,
}

spec fn holds(list: Seq<(IpAddress, u64)>, ip: Seq<u8>) -> bool {
    exists|i: int| 0 <= i < list.len() && (#[trigger] list[i]).0@ == ip
}

spec fn place(list: Seq<(IpAddress, u64)>, ip: Seq<u8>) -> int {
    choose|i: int| 0 <= i < list.len() && (#[trigger] list[i]).0@ == ip
}

spec fn by_ip(list: Seq<(IpAddress, u64)>) -> Map<Seq<u8>, u64> {
    Map::new(|ip: Seq<u8>| holds(list, ip), |ip: Seq<u8>| list[place(list, ip)].1)
}

spec fn no_duplicates(list: Seq<(IpAddress, u64)>) -> bool {
    forall|i: int, j: int|
        0 <= i < j < list.len() ==> (#[trigger] list[i]).0@ != (#[trigger] list[j]).0@
}

proof fn lemma_place(list: Seq<(IpAddress, u64)>, i: int)
    requires
        no_duplicates(list),
        0 <= i < list.len(),
    ensures
        by_ip(list).contains_key(list[i].0@),
        by_ip(list)[list[i].0@] == list[i].1,
{
    let ip = list[i].0@;
    assert(holds(list, ip));
    let k = place(list, ip);
    assert(0 <= k < list.len() && list[k].0@ == ip);
    if k < i {
        assert(list[k].0@ != list[i].0@);
    } else if i < k {
        assert(list[i].0@ != list[k].0@);
    }
}

impl View for TurnAllocation {
    type V = Relay;

    closed spec fn view(&self) -> Relay {
        Relay {
            server: self.server@,
            relayed: self.relayed@,
            username: self.username@,
            realm: self.realm@,
            nonce: self.nonce@,
            key: self.key@,
            password: self.password@,
            lifetime_ms: self.lifetime_ms as int,
            last_refresh: self.last_refresh,
            permissions: by_ip(self.permissions@),
        }
    }
}

impl TurnAllocation {
    /// No peer is listed twice, and the key fits the credentials.
    pub closed spec fn wf(&self) -> bool {
        &&& no_duplicates(self.permissions@)
        &&& self@.key == credential_key(self@.username, self@.realm, self@.password)
    }

    /// A fresh allocation.
    pub fn finish_alloc(
        server: Endpoint,
        relayed: Endpoint,
        username: &str,
        realm: &str,
        nonce: &[u8],
        password: &str,
        lifetime_secs: u32,
        now: u64,
    ) -> (a: TurnAllocation)
        ensures
            a.wf(),
            a@ == fresh_relay(
                server@,
                relayed@,
                username@,
                realm@,
                nonce@,
                password@,
                lifetime_secs,
                now,
            ),
    {
        let secs: u32 = if lifetime_secs < 60 {
            60
        } else {
            lifetime_secs
        };
        let a = TurnAllocation {
            server,
            relayed,
            username: owned(username),
            realm: owned(realm),
            nonce: copy_range(nonce, 0, nonce.len()),
            key: long_term_key(username, realm, password),
            password: owned(password),
            lifetime_ms: secs as u64 * 1000,
            last_refresh: Some(now),
            permissions: Vec::new(),
        };
        assert(a.nonce@ =~= nonce@);
        assert(a@.permissions =~= Map::empty());
        a
    }

    /// The server.
    pub fn server(&self) -> (e: Endpoint)
        ensures
            e@ == self@.server,
    {
        self.server
    }

    /// The address that the server relays for.
    pub fn relayed(&self) -> (e: Endpoint)
        ensures
            e@ == self@.relayed,
    {
        self.relayed
    }

    fn add_credentials(&self, msg: &mut MsgBuilder)
        requires
            old(msg).wf(),
        ensures
            final(msg).wf(),
            final(msg).mtype() == old(msg).mtype(),
            final(msg).tid() == old(msg).tid(),
            final(msg).body() == old(msg).body() + credentials(self@),
    {
        let ghost before = msg.body();
        msg.attr_str(ATTR_USERNAME, self.username.as_str());
        msg.attr_str(ATTR_REALM, self.realm.as_str());
        msg.attr_bytes(ATTR_NONCE, self.nonce.as_slice());
        assert(msg.body() =~= before + credentials(self@));
    }

    /// Asks for a permission for the peer's address if the last one is too
    /// old to be relied on.
    fn ensure_permission(&mut self, peer: Endpoint, now: u64, tid: &[u8; 12]) -> (out: Option<
        Vec<u8>,
    >)
        requires
            old(self).wf(),
        ensures
            final(self).wf(),
            final(self)@ == after_send(old(self)@, peer@.octets, now),
            out is Some <==> !permitted(old(self)@, peer@.octets, now),
            out is Some ==> out->0@ == permission_request(old(self)@, peer@, tid@),
    {
        let ghost list = self.permissions@;
        let ghost ip = peer.ip@;
        let n: usize = self.permissions.len();
        let mut at: usize = 0;
        while at < n && !self.permissions[at].0.same(&peer.ip)
            invariant
                at <= n == self.permissions@.len(),
                *self == *old(self),
                forall|i: int| 0 <= i < at ==> (#[trigger] self.permissions@[i]).0@ != peer.ip@,
            decreases n - at,
        {
            at += 1;
        }
        proof {
            if at < n {
                lemma_place(list, at as int);
            } else {
                assert(!holds(list, ip));
            }
        }
        if at < n && now.saturating_sub(self.permissions[at].1) < PERMISSION_REFRESH_MS {
            return None;
        }
        if at < n {
            self.permissions.set(at, (peer.ip, now));
        } else {
            self.permissions.push((peer.ip, now));
        }
        proof {
            let after = self.permissions@;
            assert(no_duplicates(after));
            lemma_place(after, at as int);
            assert forall|k: Seq<u8>| k != ip implies (holds(after, k) <==> holds(list, k)) && (
            holds(list, k) ==> by_ip(after)[k] == by_ip(list)[k]) by {
                if holds(list, k) {
                    let i = place(list, k);
                    assert(after[i] == list[i]);
                    lemma_place(after, i);
                    lemma_place(list, i);
                }
                if holds(after, k) {
                    let i = place(after, k);
                    assert(list[i] == after[i]);
                    assert(holds(list, k));
                }
            }
            assert(by_ip(after) =~= by_ip(list).insert(ip, now));
        }
        let mut msg = MsgBuilder::new(CREATE_PERM_REQ, tid);
        msg.attr_xor_addr(ATTR_XOR_PEER_ADDRESS, peer, tid);
        self.add_credentials(&mut msg);
        assert(credentials(self@) == credentials(old(self)@));
        assert(msg.body() =~= attribute(ATTR_XOR_PEER_ADDRESS, xor_address(peer@, tid@))
            + credentials(old(self)@));
        Some(msg.finish_with_integrity(&self.key))
    }

    /// What to send to the server so that `data` reaches `peer`, with given
    /// transaction ids.
    pub fn send_via_relay_with(
        &mut self,
        peer: Endpoint,
        data: &[u8],
        now: u64,
        permission_tid: &[u8; 12],
        tid: &[u8; 12],
    ) -> (out: Vec<Vec<u8>>)
        requires
            old(self).wf(),
        ensures
            final(self).wf(),
            final(self)@ == after_send(old(self)@, peer@.octets, now),
            crate::fec::shards(out@) == send_datagrams(
                old(self)@,
                peer@,
                data@,
                now,
                permission_tid@,
                tid@,
            ),
    {
        let mut out: Vec<Vec<u8>> = Vec::new();
        if let Some(request) = self.ensure_permission(peer, now, permission_tid) {
            out.push(request);
        }
        let mut msg = MsgBuilder::new(SEND_INDICATION, tid);
        msg.attr_xor_addr(ATTR_XOR_PEER_ADDRESS, peer, tid);
        msg.attr_bytes(ATTR_DATA, data);
        assert(msg.body() =~= attribute(ATTR_XOR_PEER_ADDRESS, xor_address(peer@, tid@))
            + attribute(ATTR_DATA, data@));
        out.push(msg.finish());
        assert(crate::fec::shards(out@) =~= send_datagrams(
            old(self)@,
            peer@,
            data@,
            now,
            permission_tid@,
            tid@,
        ));
        out
    }

    /// What to send to the server so that `data` reaches `peer`. A permission
    /// is asked for first where there is none to rely on.
    pub fn send_via_relay(&mut self, peer: Endpoint, data: &[u8], now: u64) -> (out: Vec<Vec<u8>>)
        requires
            old(self).wf(),
        ensures
            final(self).wf(),
            final(self)@ == after_send(old(self)@, peer@.octets, now),
            permitted(final(self)@, peer@.octets, now),
            exists|permission_tid: [u8; 12], tid: [u8; 12]|
                crate::fec::shards(out@) == #[trigger] send_datagrams(
                    old(self)@,
                    peer@,
                    data@,
                    now,
                    permission_tid@,
                    tid@,
                ),
    {
        let permission_tid: [u8; 12] = new_tid();
        let tid: [u8; 12] = new_tid();
        self.send_via_relay_with(peer, data, now, &permission_tid, &tid)
    }

    /// The refresh to send if half the lifetime has passed, with a given
    /// transaction id.
    pub fn tick_with(&mut self, now: u64, tid: &[u8; 12]) -> (out: Option<Vec<u8>>)
        requires
            old(self).wf(),
        ensures
            final(self).wf(),
            refresh_due(old(self)@, now) ==> {
                &&& final(self)@ == (Relay { last_refresh: Some(now), ..old(self)@ })
                &&& out is Some
                &&& out->0@ == refresh_request(old(self)@, tid@)
            },
            !refresh_due(old(self)@, now) ==> final(self)@ == old(self)@ && out is None,
    {
        let due: bool = match self.last_refresh {
            None => true,
            Some(t) => now.saturating_sub(t) >= self.lifetime_ms / 2,
        };
        if !due {
            return None;
        }
        self.last_refresh = Some(now);
        let mut msg = MsgBuilder::new(REFRESH_REQ, tid);
        let mut lifetime: Vec<u8> = Vec::new();
        push_be32(&mut lifetime, LIFETIME_SECS);
        assert(lifetime@ =~= be32(LIFETIME_SECS));
        msg.attr_bytes(ATTR_LIFETIME, lifetime.as_slice());
        self.add_credentials(&mut msg);
        assert(credentials(self@) == credentials(old(self)@));
        assert(msg.body() =~= attribute(ATTR_LIFETIME, be32(LIFETIME_SECS)) + credentials(
            old(self)@,
        ));
        Some(msg.finish_with_integrity(&self.key))
    }

    /// The refresh to send if half the lifetime has passed.
    pub fn tick(&mut self, now: u64) -> (out: Option<Vec<u8>>)
        requires
            old(self).wf(),
        ensures
            final(self).wf(),
            out is Some <==> refresh_due(old(self)@, now),
            out is Some ==> final(self)@ == (Relay { last_refresh: Some(now), ..old(self)@ }),
            out is Some ==> exists|tid: [u8; 12]|
                out->0@ == #[trigger] refresh_request(old(self)@, tid@),
            out is None ==> final(self)@ == old(self)@,
    {
        let tid: [u8; 12] = new_tid();
        self.tick_with(now, &tid)
    }

    /// Takes in a packet from the server. Returns what a Data Indication
    /// carries; responses are dealt with here.
    pub fn handle_server_packet(&mut self, buf: &[u8]) -> (r: Option<(Endpoint, Vec<u8>)>)
        requires
            old(self).wf(),
        ensures
            final(self).wf(),
            final(self)@ == after_packet(old(self)@, buf@),
            r is Some <==> relayed_data(buf@) is Some,
            r is Some ==> (r->Some_0.0@, r->Some_0.1@) == relayed_data(buf@)->0,
    {
        let (mtype, tid, attrs) = match parse_message(buf) {
            Some(m) => m,
            None => {
                return None;
            },
        };
        if mtype == DATA_INDICATION {
            return match attrs.get_xor_addr(ATTR_XOR_PEER_ADDRESS, &tid) {
                Some(peer) => match attrs.get_bytes(ATTR_DATA) {
                    Some(data) => Some((peer, data)),
                    None => None,
                },
                None => None,
            };
        }
        if mtype == CREATE_PERM_ERR || mtype == REFRESH_ERR || mtype == ALLOCATE_ERR {
            if let Some(code) = attrs.get_error_code() {
                if code == STALE_NONCE {
                    if let Some(nonce) = attrs.get_bytes(ATTR_NONCE) {
                        self.nonce = nonce;
                        if let Some(realm) = attrs.get_string(ATTR_REALM) {
                            self.key = long_term_key(
                                self.username.as_str(),
                                realm.as_str(),
                                self.password.as_str(),
                            );
                            self.realm = realm;
                        }
                        self.permissions = Vec::new();
                        self.last_refresh = None;
                        assert(self@.permissions =~= Map::empty());
                        assert(self@ =~= after_packet(old(self)@, buf@));
                    }
                }
            }
        }
        None
    }
}

/// An allocation that is being asked for.
#[verifier::ext_equal]
pub ghost struct Attempt {
    pub server: Address,
    pub username: Seq<char>,
    pub password: Seq<char>,
    /// The transaction id of the request that is out.
    pub tid: Seq<u8>,
    /// The realm and nonce that the server has named, once it has.
    pub auth: Option<(Seq<char>, Seq<u8>)>,
}

/// The request of an attempt: first without credentials, to learn realm and
/// nonce, then with them.
pub open spec fn allocate_request(a: Attempt) -> Seq<u8> {
    let transport = attribute(ATTR_REQUESTED_TRANSPORT, seq![17u8, 0u8, 0u8, 0u8]);
    match a.auth {
        None => message(ALLOCATE_REQ, a.tid, transport, 0),
        Some((realm, nonce)) => signed_message(
            ALLOCATE_REQ,
            a.tid,
            transport + attribute(ATTR_USERNAME, encode_utf8(a.username)) + attribute(
                ATTR_REALM,
                encode_utf8(realm),
            ) + attribute(ATTR_NONCE, nonce),
            credential_key(a.username, realm, a.password),
        ),
    }
}

/// What becomes of an attempt.
pub ghost enum Progress {
    /// It goes on, with credentials.
    Again(Attempt),
    /// There is an allocation.
    Ready(Relay),
    /// It failed.
    Failed,
}

/// What the server's reply makes of an attempt. A refusal of the first
/// request names realm and nonce; a success names the relayed address.
pub open spec fn progress(
    a: Attempt,
    mtype: u16,
    attrs: Seq<(u16, Seq<u8>)>,
    next_tid: Seq<u8>,
    now: u64,
) -> Progress {
    let realm = realm_in(attrs);
    let nonce = first_of(attrs, ATTR_NONCE);
    let relayed = xor_addr_of(attrs, ATTR_XOR_RELAYED_ADDRESS, a.tid);
    if mtype == ALLOCATE_ERR && a.auth is None && realm is Some && nonce is Some {
        Progress::Again(Attempt { tid: next_tid, auth: Some((realm->0, nonce->0)), ..a })
    } else if mtype == ALLOCATE_OK && relayed is Some {
        let (realm, nonce) = match a.auth {
            Some(auth) => auth,
            None => (seq![], seq![]),
        };
        let secs = match lifetime_of(attrs) {
            Some(secs) => secs,
            None => LIFETIME_SECS,
        };
        Progress::Ready(
            fresh_relay(a.server, relayed->0, a.username, realm, nonce, a.password, secs, now),
        )
    } else {
        Progress::Failed
    }
}

/// An allocation that is being asked for.
pub struct Allocating {
    server: Endpoint,
    username: String,
    password: String,
    tid: [u8; 12],
    auth: Option<(String, Vec<u8>)>,
}

/// What a reply makes of an attempt.
pub enum AllocateStep {
    /// Send the attempt's next request and wait for the reply to it.
    Again(Allocating),
    /// There is an allocation.
    Ready(TurnAllocation),
    /// There will be none from this server.
    Failed,
}

impl AllocateStep {
    /// The step, with the attempt or the allocation as its view.
    pub open spec fn progress(&self) -> Progress {
        match self {
            AllocateStep::Again(a) => Progress::Again(a@),
            AllocateStep::Ready(r) => Progress::Ready(r@),
            AllocateStep::Failed => Progress::Failed,
        }
    }
}

impl View for Allocating {
    type V = Attempt;

    closed spec fn view(&self) -> Attempt {
        Attempt {
            server: self.server@,
            username: self.username@,
            password: self.password@,
            tid: self.tid@,
            auth: match self.auth {
                Some((realm, nonce)) => Some((realm@, nonce@)),
                None => None,
            },
        }
    }
}

impl Allocating {
    /// A first attempt, with a given transaction id.
    pub fn start_with(server: Endpoint, username: &str, password: &str, tid: [u8; 12]) -> (a: Self)
        ensures
            a@ == (Attempt {
                server: server@,
                username: username@,
                password: password@,
                tid: tid@,
                auth: None,
            }),
    {
        Allocating {
            server,
            username: owned(username),
            password: owned(password),
            tid,
            auth: None,
        }
    }

    /// A first attempt.
    pub fn start(server: Endpoint, username: &str, password: &str) -> (a: Self)
        ensures
            a@.tid.len() == 12,
            a@ == (Attempt {
                server: server@,
                username: username@,
                password: password@,
                tid: a@.tid,
                auth: None,
            }),
    {
        Allocating::start_with(server, username, password, new_tid())
    }

    /// The transaction id that the reply must carry.
    pub fn tid(&self) -> (tid: [u8; 12])
        ensures
            tid@ == self@.tid,
    {
        self.tid
    }

    /// The request to send.
    pub fn request(&self) -> (out: Vec<u8>)
        ensures
            out@ == allocate_request(self@),
    {
        let mut msg = MsgBuilder::new(ALLOCATE_REQ, &self.tid);
        msg.attr_requested_transport_udp();
        let ghost transport = attribute(ATTR_REQUESTED_TRANSPORT, seq![17u8, 0u8, 0u8, 0u8]);
        assert(msg.body() =~= transport);
        match &self.auth {
            None => msg.finish(),
            Some(auth) => {
                let key: [u8; 16] = long_term_key(
                    self.username.as_str(),
                    auth.0.as_str(),
                    self.password.as_str(),
                );
                msg.attr_str(ATTR_USERNAME, self.username.as_str());
                msg.attr_str(ATTR_REALM, auth.0.as_str());
                msg.attr_bytes(ATTR_NONCE, auth.1.as_slice());
                msg.finish_with_integrity(&key)
            },
        }
    }

    /// What the reply to the request makes of the attempt, with a given
    /// transaction id for the next request.
    pub fn reply_with(self, mtype: u16, attrs: &Attrs, next_tid: [u8; 12], now: u64) -> (step:
        AllocateStep)
        ensures
            step.progress() == progress(self@, mtype, attrs@, next_tid@, now),
            step matches AllocateStep::Ready(r) ==> r.wf(),
    {
        if mtype == ALLOCATE_ERR && self.auth.is_none() {
            return match attrs.get_string(ATTR_REALM) {
                Some(realm) => match attrs.get_bytes(ATTR_NONCE) {
                    Some(nonce) => AllocateStep::Again(
                        Allocating {
                            server: self.server,
                            username: self.username,
                            password: self.password,
                            tid: next_tid,
                            auth: Some((realm, nonce)),
                        },
                    ),
                    None => AllocateStep::Failed,
                },
                None => AllocateStep::Failed,
            };
        }
        if mtype != ALLOCATE_OK {
            return AllocateStep::Failed;
        }
        let relayed: Endpoint = match attrs.get_xor_addr(ATTR_XOR_RELAYED_ADDRESS, &self.tid) {
            Some(relayed) => relayed,
            None => {
                return AllocateStep::Failed;
            },
        };
        let secs: u32 = match attrs.get_lifetime() {
            Some(secs) => secs,
            None => LIFETIME_SECS,
        };
        let r: TurnAllocation = match &self.auth {
            Some(auth) => TurnAllocation::finish_alloc(
                self.server,
                relayed,
                self.username.as_str(),
                auth.0.as_str(),
                auth.1.as_slice(),
                self.password.as_str(),
                secs,
                now,
            ),
            None => {
                let realm: String = String::new();
                let nonce: Vec<u8> = Vec::new();
                assert(nonce@ =~= seq![]);
                assert(realm@ =~= seq![]);
                TurnAllocation::finish_alloc(
                    self.server,
                    relayed,
                    self.username.as_str(),
                    realm.as_str(),
                    nonce.as_slice(),
                    self.password.as_str(),
                    secs,
                    now,
                )
            },
        };
        AllocateStep::Ready(r)
    }

    /// What the reply to the request makes of the attempt.
    pub fn reply(self, mtype: u16, attrs: &Attrs, now: u64) -> (step: AllocateStep)
        ensures
            exists|next_tid: [u8; 12]|
                step.progress() == #[trigger] progress(self@, mtype, attrs@, next_tid@, now),
            step matches AllocateStep::Ready(r) ==> r.wf(),
    {
        let next_tid: [u8; 12] = new_tid();
        self.reply_with(mtype, attrs, next_tid, now)
    }
}

/// How many packets are looked at for one reply.
pub const REPLY_TRIES: u32 = 5;

/// What a packet was worth to somebody waiting for a reply.
pub enum ReplyOutcome {
    /// It is the reply: its type and attributes.
    Reply(u16, Attrs),
    /// It is not, and there are tries left.
    Waiting,
    /// It is not, and it was the last try.
    GaveUp,
}

/// Whether a packet is the reply to a transaction: from the server, a message,
/// and of that transaction.
pub open spec fn is_reply(server: Address, tid: Seq<u8>, from: Address, buf: Seq<u8>) -> bool {
    from == server && parsed(buf) is Some && parsed(buf)->0.tid == tid
}

/// Waiting for the server's reply to one transaction, among packets that may
/// have nothing to do with it.
pub struct ReplyWait {
    pub server: Endpoint,
    pub tid: [u8; 12],
    pub left: u32,
}

impl ReplyWait {
    pub fn new(server: Endpoint, tid: [u8; 12]) -> (w: Self)
        ensures
            w == (ReplyWait { server, tid, left: REPLY_TRIES }),
            w.left == 5,
    {
        ReplyWait { server, tid, left: REPLY_TRIES }
    }

    /// Looks at one received packet.
    pub fn on_packet(&mut self, from: Endpoint, buf: &[u8]) -> (r: ReplyOutcome)
        requires
            old(self).left > 0,
        ensures
            *final(self) == (ReplyWait { left: (old(self).left - 1) as u32, ..*old(self) }),
            match r {
                ReplyOutcome::Reply(mtype, attrs) => {
                    &&& is_reply(old(self).server@, old(self).tid@, from@, buf@)
                    &&& parsed(buf@)->0.mtype == mtype
                    &&& parsed(buf@)->0.attrs == attrs@
                },
                ReplyOutcome::Waiting => !is_reply(
                    old(self).server@,
                    old(self).tid@,
                    from@,
                    buf@,
                ) && old(self).left > 1,
                ReplyOutcome::GaveUp => !is_reply(
                    old(self).server@,
                    old(self).tid@,
                    from@,
                    buf@,
                ) && old(self).left == 1,
            },
    {
        self.left = self.left - 1;
        if from.same(&self.server) {
            if let Some((mtype, tid, attrs)) = parse_message(buf) {
                if same_bytes(tid.as_slice(), self.tid.as_slice()) {
                    return ReplyOutcome::Reply(mtype, attrs);
                }
            }
        }
        if self.left > 0 {
            ReplyOutcome::Waiting
        } else {
            ReplyOutcome::GaveUp
        }
    }
}

proof fn lemma_two_attributes(a: (u16, Seq<u8>), b: (u16, Seq<u8>))
    ensures
        attributes(seq![a, b]) == attribute(a.0, a.1) + attribute(b.0, b.1),
{
    let list = seq![a, b];
    assert(list.skip(1) =~= seq![b]);
    assert(seq![b].skip(1) =~= seq![]);
    assert(attributes(seq![b].skip(1)) =~= seq![]);
    assert(attributes(seq![b]) =~= attribute(b.0, b.1));
    assert(attributes(list) =~= attribute(a.0, a.1) + attribute(b.0, b.1));
}

/// Whether an indication that names a peer and carries a payload fits: its
/// header announces how long its attributes are, in 16 bits.
pub open spec fn indication_fits(peer: Address, data: Seq<u8>, tid: Seq<u8>) -> bool {
    attribute(ATTR_XOR_PEER_ADDRESS, xor_address(peer, tid)).len() + attribute(
        ATTR_DATA,
        data,
    ).len() <= 65535
}

/// What the relay hands on comes out as it went in: a Data Indication with a
/// peer's address and a payload gives that address and that payload.
pub proof fn law_data_indication_unwraps(peer: Address, data: Seq<u8>, tid: Seq<u8>)
    requires
        is_address(peer),
        tid.len() == 12,
        indication_fits(peer, data, tid),
    ensures
        relayed_data(
            message(
                DATA_INDICATION,
                tid,
                attribute(ATTR_XOR_PEER_ADDRESS, xor_address(peer, tid)) + attribute(
                    ATTR_DATA,
                    data,
                ),
                0,
            ),
        ) == Some((peer, data)),
{
    lemma_indication(DATA_INDICATION, peer, data, tid);
}

/// A Send Indication tells the server exactly the peer and the payload.
pub proof fn law_send_indication_is_faithful(peer: Address, data: Seq<u8>, tid: Seq<u8>)
    requires
        is_address(peer),
        tid.len() == 12,
        indication_fits(peer, data, tid),
    ensures
        ({
            let m = parsed(send_indication(peer, data, tid));
            &&& m is Some
            &&& m->0.mtype == SEND_INDICATION
            &&& m->0.tid == tid
            &&& xor_addr_of(m->0.attrs, ATTR_XOR_PEER_ADDRESS, tid) == Some(peer)
            &&& first_of(m->0.attrs, ATTR_DATA) == Some(data)
        }),
{
    lemma_indication(SEND_INDICATION, peer, data, tid);
}

proof fn lemma_indication(mtype: u16, peer: Address, data: Seq<u8>, tid: Seq<u8>)
    requires
        is_address(peer),
        tid.len() == 12,
        indication_fits(peer, data, tid),
        mtype < 0x4000,
    ensures
        ({
            let m = parsed(
                message(
                    mtype,
                    tid,
                    attribute(ATTR_XOR_PEER_ADDRESS, xor_address(peer, tid)) + attribute(
                        ATTR_DATA,
                        data,
                    ),
                    0,
                ),
            );
            &&& m is Some
            &&& m->0.mtype == mtype
            &&& m->0.tid == tid
            &&& xor_addr_of(m->0.attrs, ATTR_XOR_PEER_ADDRESS, tid) == Some(peer)
            &&& first_of(m->0.attrs, ATTR_DATA) == Some(data)
        }),
{
    let a = (ATTR_XOR_PEER_ADDRESS, xor_address(peer, tid));
    let b = (ATTR_DATA, data);
    let list = seq![a, b];
    lemma_two_attributes(a, b);
    assert(values_fit(list));
    law_message_parses_back(mtype, tid, list);
    law_xor_address_reads_back(peer, tid);
    assert(list.skip(1)[0] == b);
    assert(first_of(list.skip(1), ATTR_DATA) == Some(data));
}

/// A stale nonce makes the very next refresh and the very next datagram to
/// any peer ask anew, with the new nonce.
pub proof fn law_stale_nonce_renews_everything(r: Relay, buf: Seq<u8>, ip: Seq<u8>, now: u64)
    requires
        fresh_nonce(buf) is Some,
    ensures
        after_packet(r, buf).nonce == fresh_nonce(buf)->0,
        refresh_due(after_packet(r, buf), now),
        !permitted(after_packet(r, buf), ip, now),
{
}

/// A packet that does not call the nonce stale leaves the allocation alone.
pub proof fn law_other_packets_change_nothing(r: Relay, buf: Seq<u8>)
    requires
        fresh_nonce(buf) is None,
    ensures
        after_packet(r, buf) == r,
{
}

/// A permission is asked for once per peer address and interval: right after a
/// datagram has gone to a peer, the next one within the interval needs none.
pub proof fn law_permission_lasts(r: Relay, ip: Seq<u8>, now: u64, later: u64)
    requires
        now <= later,
        later - now < PERMISSION_REFRESH_MS,
        !permitted(r, ip, now),
    ensures
        permitted(after_send(r, ip, now), ip, later),
{
}

/// The key to long-term credentials is the digest of user name, realm and
/// password with a colon between each, so a server that knows the three comes
/// to the same one.
pub proof fn law_credentials_make_the_key(
    username: Seq<char>,
    realm: Seq<char>,
    password: Seq<char>,
)
    ensures
        credential_key(username, realm, password) == md5_digest(
            encode_utf8(username).push(0x3A) + encode_utf8(realm).push(0x3A) + encode_utf8(
                password,
            ),
        )@,
{
    assert(encode_utf8(username).push(0x3A) + encode_utf8(realm).push(0x3A) + encode_utf8(password)
        =~= encode_utf8(username) + seq![58u8] + encode_utf8(realm) + seq![58u8] + encode_utf8(
        password,
    ));
}

/// A permission is asked for in a message of type 0x0008, signed with the key,
/// that names the peer, masked, then the user, the realm and the nonce. The
/// allocation is kept by one of type 0x0004 that asks for 600 seconds.
pub proof fn law_requests_say_who_asks(r: Relay, peer: Address, tid: Seq<u8>)
    ensures
        permission_request(r, peer, tid) == signed_message(
            0x0008,
            tid,
            attribute(0x0012, xor_address(peer, tid)) + (attribute(0x0006, encode_utf8(r.username))
                + attribute(0x0014, encode_utf8(r.realm)) + attribute(0x0015, r.nonce)),
            r.key,
        ),
        refresh_request(r, tid) == signed_message(
            0x0004,
            tid,
            attribute(0x000D, seq![0u8, 0u8, 2u8, 88u8]) + (attribute(
                0x0006,
                encode_utf8(r.username),
            ) + attribute(0x0014, encode_utf8(r.realm)) + attribute(0x0015, r.nonce)),
            r.key,
        ),
{
    assert(be32(LIFETIME_SECS) =~= seq![0u8, 0u8, 2u8, 88u8]);
}

/// A datagram goes to its peer in a message of type 0x0016 that names the
/// peer and carries the payload.
pub proof fn law_datagrams_go_as_indications(peer: Address, data: Seq<u8>, tid: Seq<u8>)
    ensures
        send_indication(peer, data, tid) == message(
            0x0016,
            tid,
            attribute(0x0012, xor_address(peer, tid)) + attribute(0x0013, data),
            0,
        ),
{
}

/// An allocation is asked for in a message of type 0x0003 that asks for a UDP
/// relay, protocol 17: first without credentials, then, once realm and nonce
/// are known, signed and with the user, that realm and that nonce.
pub proof fn law_allocations_are_asked_for(a: Attempt)
    ensures
        a.auth is None ==> allocate_request(a) == message(
            0x0003,
            a.tid,
            attribute(0x0019, seq![17u8, 0u8, 0u8, 0u8]),
            0,
        ),
        a.auth is Some ==> allocate_request(a) == signed_message(
            0x0003,
            a.tid,
            attribute(0x0019, seq![17u8, 0u8, 0u8, 0u8]) + attribute(
                0x0006,
                encode_utf8(a.username),
            ) + attribute(0x0014, encode_utf8((a.auth->0).0)) + attribute(0x0015, (a.auth->0).1),
            credential_key(a.username, (a.auth->0).0, a.password),
        ),
{
}

/// A permission is relied on for less than four minutes from when it was asked
/// for, and for the address that it was asked for only.
pub proof fn law_permissions_last_four_minutes(r: Relay, ip: Seq<u8>, other: Seq<u8>, now: u64)
    ensures
        permitted(r, ip, now) <==> r.permissions.contains_key(ip) && now < r.permissions[ip]
            + 240_000,
        permitted(after_send(r, ip, now), ip, now),
        other != ip ==> permitted(after_send(r, ip, now), other, now) == permitted(r, other, now),
        !permitted(r, ip, now) ==> after_send(r, ip, now).permissions[ip] == now,
{
}

/// A datagram is always sent, and last; a permission for its peer is asked for
/// first exactly if there is none to rely on.
pub proof fn law_permission_comes_first(
    r: Relay,
    peer: Address,
    data: Seq<u8>,
    now: u64,
    permission_tid: Seq<u8>,
    tid: Seq<u8>,
)
    ensures
        ({
            let out = send_datagrams(r, peer, data, now, permission_tid, tid);
            &&& out.last() == send_indication(peer, data, tid)
            &&& out.len() == (if permitted(r, peer.octets, now) {
                1int
            } else {
                2
            })
            &&& !permitted(r, peer.octets, now) ==> out[0] == permission_request(
                r,
                peer,
                permission_tid,
            )
        }),
{
}

/// Sending changes nothing of an allocation but the permission.
pub proof fn law_sending_keeps_the_allocation(r: Relay, ip: Seq<u8>, now: u64)
    ensures
        ({
            let after = after_send(r, ip, now);
            &&& after.server == r.server && after.relayed == r.relayed
            &&& after.username == r.username && after.password == r.password
            &&& after.realm == r.realm && after.nonce == r.nonce && after.key == r.key
            &&& after.lifetime_ms == r.lifetime_ms && after.last_refresh == r.last_refresh
        }),
{
}

/// An allocation is refreshed once half its lifetime has passed since the last
/// time, not before, or at once where it has to be.
pub proof fn law_allocations_are_refreshed_in_time(r: Relay, now: u64)
    requires
        r.lifetime_ms > 0,
    ensures
        r.last_refresh is None ==> refresh_due(r, now),
        r.last_refresh is Some && now >= r.last_refresh->0 ==> (refresh_due(r, now) <==> 2 * (now
            - r.last_refresh->0) >= r.lifetime_ms - r.lifetime_ms % 2),
        r.last_refresh is Some && now < r.last_refresh->0 && r.lifetime_ms >= 2 ==> !refresh_due(
            r,
            now,
        ),
{
}

/// A success of type 0x0103 that names a relayed address, number 0x0016, makes
/// an allocation with the credentials in use and the lifetime in number
/// 0x000D, at least a minute and ten of them where the server names none. It
/// has no permissions yet.
pub proof fn law_success_makes_an_allocation(
    a: Attempt,
    attrs: Seq<(u16, Seq<u8>)>,
    next_tid: Seq<u8>,
    now: u64,
)
    requires
        xor_addr_of(attrs, 0x0016, a.tid) is Some,
    ensures
        ({
            let p = progress(a, 0x0103, attrs, next_tid, now);
            let secs = lifetime_of(attrs);
            &&& p is Ready
            &&& p->Ready_0.server == a.server
            &&& p->Ready_0.relayed == xor_addr_of(attrs, 0x0016, a.tid)->0
            &&& p->Ready_0.username == a.username
            &&& p->Ready_0.password == a.password
            &&& a.auth is Some ==> p->Ready_0.realm == (a.auth->0).0 && p->Ready_0.nonce
                == (a.auth->0).1
            &&& a.auth is None ==> p->Ready_0.realm.len() == 0 && p->Ready_0.nonce.len() == 0
            &&& p->Ready_0.key == credential_key(a.username, p->Ready_0.realm, a.password)
            &&& secs is None ==> p->Ready_0.lifetime_ms == 600_000
            &&& secs is Some && secs->0 >= 60 ==> p->Ready_0.lifetime_ms == 1000 * secs->0
            &&& secs is Some && secs->0 < 60 ==> p->Ready_0.lifetime_ms == 60_000
            &&& p->Ready_0.last_refresh == Some(now)
            &&& p->Ready_0.permissions.dom() == Set::<Seq<u8>>::empty()
        }),
{
}

/// The first refusal, of type 0x0113, is answered with the realm, number
/// 0x0014, and the nonce, number 0x0015, that it names, under a new
/// transaction; any other answer that makes no allocation ends the attempt.
pub proof fn law_first_refusal_is_answered(
    a: Attempt,
    mtype: u16,
    attrs: Seq<(u16, Seq<u8>)>,
    next_tid: Seq<u8>,
    now: u64,
)
    ensures
        ({
            let p = progress(a, mtype, attrs, next_tid, now);
            &&& p is Again <==> mtype == 0x0113 && a.auth is None && realm_in(attrs) is Some
                && first_of(attrs, 0x0015) is Some
            &&& p is Again ==> p->Again_0.auth == Some(
                (realm_in(attrs)->0, first_of(attrs, 0x0015)->0),
            )
            &&& p is Again ==> p->Again_0.tid == next_tid
            &&& p is Again ==> p->Again_0.server == a.server && p->Again_0.username == a.username
                && p->Again_0.password == a.password
            &&& p is Ready <==> mtype == 0x0103 && xor_addr_of(attrs, 0x0016, a.tid) is Some
            &&& realm_in(attrs) is Some <==> first_of(attrs, 0x0014) is Some && valid_utf8(
                first_of(attrs, 0x0014)->0,
            )
            &&& realm_in(attrs) is Some ==> realm_in(attrs)->0 == decode_utf8(
                first_of(attrs, 0x0014)->0,
            )
        }),
{
}

/// A nonce is taken up only from a refusal, of type 0x0113, 0x0114 or 0x0118,
/// with error 438 that names one; the realm in it is taken up too, and the key
/// is made anew. All else of the allocation stays.
pub proof fn law_nonces_are_taken_from_refusals(r: Relay, buf: Seq<u8>)
    ensures
        fresh_nonce(buf) is Some <==> parsed(buf) is Some && (parsed(buf)->0.mtype == 0x0113
            || parsed(buf)->0.mtype == 0x0114 || parsed(buf)->0.mtype == 0x0118) && error_code_of(
            parsed(buf)->0.attrs,
        ) == Some(438u32) && first_of(parsed(buf)->0.attrs, 0x0015) is Some,
        fresh_nonce(buf) is Some ==> ({
            let after = after_packet(r, buf);
            let realm = realm_in(parsed(buf)->0.attrs);
            &&& after.nonce == first_of(parsed(buf)->0.attrs, 0x0015)->0
            &&& realm is Some ==> after.realm == realm->0
            &&& realm is None ==> after.realm == r.realm
            &&& after.key == credential_key(r.username, after.realm, r.password)
            &&& after.server == r.server && after.relayed == r.relayed
            &&& after.username == r.username && after.password == r.password
            &&& after.lifetime_ms == r.lifetime_ms
        }),
{
}

/// What a peer has sent is taken out of messages of type 0x0017 only, and only
/// if they name the peer, number 0x0012, and carry data, number 0x0013.
pub proof fn law_data_comes_in_indications(buf: Seq<u8>)
    ensures
        relayed_data(buf) is Some <==> parsed(buf) is Some && parsed(buf)->0.mtype == 0x0017
            && xor_addr_of(parsed(buf)->0.attrs, 0x0012, parsed(buf)->0.tid) is Some && first_of(
            parsed(buf)->0.attrs,
            0x0013,
        ) is Some,
        relayed_data(buf) is Some ==> (relayed_data(buf)->0).0 == xor_addr_of(
            parsed(buf)->0.attrs,
            0x0012,
            parsed(buf)->0.tid,
        )->0,
        relayed_data(buf) is Some ==> (relayed_data(buf)->0).1 == first_of(
            parsed(buf)->0.attrs,
            0x0013,
        )->0,
{
}

/// Only a message from the server about the very transaction is a reply to it.
pub proof fn law_replies_come_from_the_server(
    server: Address,
    tid: Seq<u8>,
    from: Address,
    buf: Seq<u8>,
)
    ensures
        is_reply(server, tid, from, buf) <==> from == server && parsed(buf) is Some
            && buf.subrange(8, 20) == tid,
{
}

/// A step is seen as it is.
pub proof fn law_steps_are_seen_as_they_are(a: Allocating, r: TurnAllocation)
    ensures
        AllocateStep::Again(a).progress() == Progress::Again(a@),
        AllocateStep::Ready(r).progress() == Progress::Ready(r@),
        AllocateStep::Failed.progress() == Progress::Failed,
{
}

/// Each request has its number, its success is 0x100 above it and its refusal
/// 0x110; the two indications have numbers of their own.
pub proof fn law_answers_go_with_requests()
    ensures
        ALLOCATE_REQ == 3,
        REFRESH_REQ == 4,
        CREATE_PERM_REQ == 8,
        ALLOCATE_OK == ALLOCATE_REQ + 0x100 && ALLOCATE_ERR == ALLOCATE_REQ + 0x110,
        REFRESH_OK == REFRESH_REQ + 0x100 && REFRESH_ERR == REFRESH_REQ + 0x110,
        CREATE_PERM_OK == CREATE_PERM_REQ + 0x100 && CREATE_PERM_ERR == CREATE_PERM_REQ + 0x110,
        SEND_INDICATION == 0x16,
        DATA_INDICATION == 0x17,
{
}

} // verus!
