//! STUN and TURN messages: building, parsing, and the addresses they carry.

use vstd::prelude::*;
use vstd::utf8::{decode_utf8, encode_utf8, valid_utf8};

use crate::bytes::{
    append_bytes, be16, be16_at, be32, be32_at, copy_range, lemma_be16_reads_back,
    lemma_be32_reads_back, push_be16, push_be32, read_be16, read_be32, same_bytes,
};
use crate::text::utf8_text;

verus! {

/// The fixed value in every message's header.
pub const MAGIC: u32 = 0x2112_A442;

/// The bytes in front of the attributes.
pub const STUN_HEADER_LEN: usize = 20;

pub const BINDING_REQ: u16 = 0x0001;
pub const BINDING_OK: u16 = 0x0101;

pub const ATTR_MAPPED_ADDRESS: u16 = 0x0001;
pub const ATTR_USERNAME: u16 = 0x0006;
pub const ATTR_MESSAGE_INTEGRITY: u16 = 0x0008;
pub const ATTR_ERROR_CODE: u16 = 0x0009;
pub const ATTR_LIFETIME: u16 = 0x000D;
pub const ATTR_XOR_PEER_ADDRESS: u16 = 0x0012;
pub const ATTR_DATA: u16 = 0x0013;
pub const ATTR_REALM: u16 = 0x0014;
pub const ATTR_NONCE: u16 = 0x0015;
pub const ATTR_XOR_RELAYED_ADDRESS: u16 = 0x0016;
pub const ATTR_REQUESTED_TRANSPORT: u16 = 0x0019;
pub const ATTR_XOR_MAPPED_ADDRESS: u16 = 0x0020;

/// An IP address by its octets.
#[derive(Debug, Clone, Copy, PartialEq, Eq)]
pub enum IpAddress {
    V4([u8; 4]),
    V6([u8; 16]),
}

/// An IP address and a UDP port.
#[derive(Debug, Clone, Copy, PartialEq, Eq)]
pub struct Endpoint {
    pub ip: IpAddress,
    pub port: u16,
}

/// What an endpoint is: four or sixteen octets, and a port.
#[verifier::ext_equal]
pub ghost struct Address {
    pub octets: Seq<u8>,
    pub port: u16,
}

impl View for IpAddress {
    type V = Seq<u8>;

    open spec fn view(&self) -> Seq<u8> {
        match self {
            IpAddress::V4(o) => o@,
            IpAddress::V6(o) => o@,
        }
    }
}

impl View for Endpoint {
    type V = Address;

    open spec fn view(&self) -> Address {
        Address { octets: self.ip@, port: self.port }
    }
}

impl IpAddress {
    /// Whether this is an IPv4 address.
    pub fn is_ipv4(&self) -> (yes: bool)
        ensures
            yes == (self@.len() == 4),
            yes == (self is V4),
    {
        match self {
            IpAddress::V4(_) => true,
            IpAddress::V6(_) => false,
        }
    }

    /// Whether two addresses are the same.
    pub fn same(&self, other: &IpAddress) -> (same: bool)
        ensures
            same == (self@ == other@),
    {
        match (self, other) {
            (IpAddress::V4(a), IpAddress::V4(b)) => same_bytes(a.as_slice(), b.as_slice()),
            (IpAddress::V6(a), IpAddress::V6(b)) => same_bytes(a.as_slice(), b.as_slice()),
            (IpAddress::V4(_), IpAddress::V6(_)) => {
                assert(self@.len() != other@.len());
                false
            },
            (IpAddress::V6(_), IpAddress::V4(_)) => {
                assert(self@.len() != other@.len());
                false
            },
        }
    }
}

impl Endpoint {
    /// Whether two endpoints are the same.
    pub fn same(&self, other: &Endpoint) -> (same: bool)
        ensures
            same == (self@ == other@),
    {
        self.port == other.port && self.ip.same(&other.ip)
    }
}

/// Whether the address has as many octets as IPv4 or IPv6 has.
pub open spec fn is_address(a: Address) -> bool {
    a.octets.len() == 4 || a.octets.len() == 16
}

/// How many zero bytes follow a value of this length: attributes are padded
/// to a multiple of four.
pub open spec fn padding(len: int) -> int {
    (4 - len % 4) % 4
}

pub open spec fn zeros(n: int) -> Seq<u8> {
    Seq::new(n as nat, |i: int| 0u8)
}

/// An attribute on the wire. The length is written modulo 65536.
pub open spec fn attribute(typ: u16, val: Seq<u8>) -> Seq<u8> {
    be16(typ) + be16((val.len() % 65536) as u16) + val + zeros(padding(val.len() as int))
}

/// Attributes on the wire, one after the other.
pub open spec fn attributes(list: Seq<(u16, Seq<u8>)>) -> Seq<u8>
    decreases list.len(),
{
    if list.len() == 0 {
        seq![]
    } else {
        attribute(list[0].0, list[0].1) + attributes(list.skip(1))
    }
}

/// A message on the wire whose header announces `extra` bytes beyond `body`.
pub open spec fn message(mtype: u16, tid: Seq<u8>, body: Seq<u8>, extra: int) -> Seq<u8> {
    be16(mtype) + be16(((body.len() + extra) % 65536) as u16) + be32(MAGIC) + tid + body
}

/// The bytewise exclusive or of two byte strings of one length.
pub open spec fn xor(a: Seq<u8>, b: Seq<u8>) -> Seq<u8> {
    Seq::new(a.len(), |i: int| a[i] ^ b[i])
}

/// What an address is masked with: the magic value, then the transaction id.
pub open spec fn mask(tid: Seq<u8>) -> Seq<u8> {
    be32(MAGIC) + tid
}

/// The value of an attribute that carries a masked address.
pub open spec fn xor_address(a: Address, tid: Seq<u8>) -> Seq<u8> {
    seq![
        0u8,
        if a.octets.len() == 4 {
            1u8
        } else {
            2u8
        },
    ] + be16(a.port ^ 0x2112) + xor(a.octets, mask(tid))
}

/// The address that an attribute's value carries, masked or plain.
pub open spec fn address_in(val: Seq<u8>, masked: bool, tid: Seq<u8>) -> Option<Address> {
    let len = if val.len() >= 8 && val[1] == 1 {
        4int
    } else if val.len() >= 20 && val[1] == 2 {
        16int
    } else {
        0int
    };
    let octets = val.subrange(4, 4 + len);
    let port = be16_at(val, 2);
    if len == 0 {
        None
    } else if masked {
        Some(Address { octets: xor(octets, mask(tid)), port: port ^ 0x2112 })
    } else {
        Some(Address { octets, port })
    }
}

/// The attributes between `at` and `end`, up to the first one that does not
/// fit.
pub open spec fn attributes_in(buf: Seq<u8>, at: int, end: int) -> Seq<(u16, Seq<u8>)>
    decreases end + 4 - at,
{
    let len = be16_at(buf, at + 2);
    if at + 4 <= end && at + 4 + len <= end {
        seq![(be16_at(buf, at), buf.subrange(at + 4, at + 4 + len))] + attributes_in(
            buf,
            at + 4 + len + padding(len as int),
            end,
        )
    } else {
        seq![]
    }
}

/// Where the attributes of a message end: where its header says, or where the
/// datagram ends.
pub open spec fn body_end(buf: Seq<u8>) -> int {
    let announced = STUN_HEADER_LEN + be16_at(buf, 2);
    if announced < buf.len() {
        announced
    } else {
        buf.len() as int
    }
}

/// A parsed message.
#[verifier::ext_equal]
pub ghost struct Message {
    pub mtype: u16,
    pub tid: Seq<u8>,
    pub attrs: Seq<(u16, Seq<u8>)>,
}

/// The message that a datagram holds: it has a whole header, the top two bits
/// are zero and the magic value is in its place.
pub open spec fn parsed(buf: Seq<u8>) -> Option<Message> {
    if buf.len() < STUN_HEADER_LEN || buf[0] >= 64 || be32_at(buf, 4) != MAGIC {
        None
    } else {
        Some(
            Message {
                mtype: be16_at(buf, 0),
                tid: buf.subrange(8, 20),
                attrs: attributes_in(buf, STUN_HEADER_LEN as int, body_end(buf)),
            },
        )
    }
}

/// The value of the first attribute of a type.
pub open spec fn first_of(list: Seq<(u16, Seq<u8>)>, typ: u16) -> Option<Seq<u8>>
    decreases list.len(),
{
    if list.len() == 0 {
        None
    } else if list[0].0 == typ {
        Some(list[0].1)
    } else {
        first_of(list.skip(1), typ)
    }
}

/// Exclusive or of two bytes, byte by byte.
fn xor_bytes(a: &[u8], b: &[u8]) -> (out: Vec<u8>)
    requires
        a@.len() <= b@.len(),
    ensures
        out@ == xor(a@, b@),
{
    let mut out: Vec<u8> = Vec::new();
    let n: usize = a.len();
    let mut i: usize = 0;
    while i < n
        invariant
            i <= n == a@.len() <= b@.len(),
            out@ == xor(a@, b@).take(i as int),
        decreases n - i,
    {
        out.push(a[i] ^ b[i]);
        i += 1;
        assert(xor(a@, b@).take(i as int) =~= xor(a@, b@).take(i - 1).push(a@[i - 1] ^ b@[i - 1]));
    }
    assert(xor(a@, b@).take(n as int) =~= xor(a@, b@));
    out
}

fn mask_bytes(tid: &[u8; 12]) -> (out: Vec<u8>)
    ensures
        out@ == mask(tid@),
{
    let mut out: Vec<u8> = Vec::with_capacity(16);
    push_be32(&mut out, MAGIC);
    append_bytes(&mut out, tid.as_slice());
    out
}

/// The sum of two lengths, modulo 65536.
fn wrapped_sum(a: usize, b: usize) -> (sum: u16)
    ensures
        sum == (a + b) % 65536,
{
    proof {
        vstd::arithmetic::div_mod::lemma_add_mod_noop(a as int, b as int, 65536);
    }
    ((a % 65536 + b % 65536) % 65536) as u16
}

/// A message under construction.
pub struct MsgBuilder {
    buf: Vec<u8>,
}

impl MsgBuilder {
    /// The message type.
    pub closed spec fn mtype(&self) -> u16 {
        be16_at(self.buf@, 0)
    }

    /// The transaction id.
    pub closed spec fn tid(&self) -> Seq<u8> {
        self.buf@.subrange(8, 20)
    }

    /// The attributes so far, on the wire.
    pub closed spec fn body(&self) -> Seq<u8> {
        self.buf@.skip(20)
    }

    /// The header is in place and the attributes are aligned to four bytes.
    pub closed spec fn wf(&self) -> bool {
        &&& self.buf@.len() >= 20
        &&& self.buf@.len() % 4 == 0
        &&& self.buf@.subrange(0, 2) == be16(self.mtype())
        &&& self.buf@.subrange(4, 8) == be32(MAGIC)
    }

    /// A message without attributes.
    pub fn new(mtype: u16, tid: &[u8; 12]) -> (b: Self)
        ensures
            b.wf(),
            b.mtype() == mtype,
            b.tid() == tid@,
            b.body() == Seq::<u8>::empty(),
    {
        let mut buf: Vec<u8> = Vec::with_capacity(256);
        push_be16(&mut buf, mtype);
        push_be16(&mut buf, 0);
        push_be32(&mut buf, MAGIC);
        append_bytes(&mut buf, tid.as_slice());
        assert(buf@.subrange(0, 2) =~= be16(mtype));
        assert(buf@.subrange(4, 8) =~= be32(MAGIC));
        assert(buf@.subrange(8, 20) =~= tid@);
        assert(buf@.skip(20) =~= Seq::<u8>::empty());
        proof {
            lemma_be16_reads_back(buf@, 0, mtype);
        }
        MsgBuilder { buf }
    }

    /// Adds an attribute.
    pub fn attr_bytes(&mut self, typ: u16, val: &[u8])
        requires
            old(self).wf(),
        ensures
            final(self).wf(),
            final(self).mtype() == old(self).mtype(),
            final(self).tid() == old(self).tid(),
            final(self).body() == old(self).body() + attribute(typ, val@),
    {
        let ghost before = self.buf@;
        push_be16(&mut self.buf, typ);
        push_be16(&mut self.buf, (val.len() % 65536) as u16);
        append_bytes(&mut self.buf, val);
        let ghost unpadded = self.buf@;
        let ghost mut k: int = 0;
        while self.buf.len() % 4 != 0
            invariant
                0 <= k <= padding(unpadded.len() as int),
                self.buf@ == unpadded + zeros(k),
            decreases padding(unpadded.len() as int) - k,
        {
            self.buf.push(0);
            proof {
                k = k + 1;
            }
            assert(self.buf@ =~= unpadded + zeros(k));
        }
        assert(k == padding(val@.len() as int));
        assert(self.buf@ =~= before + attribute(typ, val@));
        assert(self.buf@.skip(20) =~= before.skip(20) + attribute(typ, val@));
        assert(self.buf@.subrange(0, 2) =~= before.subrange(0, 2));
        assert(self.buf@.subrange(4, 8) =~= before.subrange(4, 8));
        assert(self.buf@.subrange(8, 20) =~= before.subrange(8, 20));
    }

    /// Adds an attribute whose value is a string in UTF-8.
    pub fn attr_str(&mut self, typ: u16, val: &str)
        requires
            old(self).wf(),
        ensures
            final(self).wf(),
            final(self).mtype() == old(self).mtype(),
            final(self).tid() == old(self).tid(),
            final(self).body() == old(self).body() + attribute(typ, encode_utf8(val@)),
    {
        self.attr_bytes(typ, val.as_bytes());
    }

    /// Asks for a UDP relay: protocol 17 in the top byte.
    pub fn attr_requested_transport_udp(&mut self)
        requires
            old(self).wf(),
        ensures
            final(self).wf(),
            final(self).mtype() == old(self).mtype(),
            final(self).tid() == old(self).tid(),
            final(self).body() == old(self).body() + attribute(
                ATTR_REQUESTED_TRANSPORT,
                seq![17u8, 0u8, 0u8, 0u8],
            ),
    {
        let val: [u8; 4] = [17, 0, 0, 0];
        assert(val@ =~= seq![17u8, 0u8, 0u8, 0u8]);
        self.attr_bytes(ATTR_REQUESTED_TRANSPORT, val.as_slice());
    }

    /// Adds a masked address.
    pub fn attr_xor_addr(&mut self, typ: u16, addr: Endpoint, tid: &[u8; 12])
        requires
            old(self).wf(),
        ensures
            final(self).wf(),
            final(self).mtype() == old(self).mtype(),
            final(self).tid() == old(self).tid(),
            final(self).body() == old(self).body() + attribute(typ, xor_address(addr@, tid@)),
    {
        let masking: Vec<u8> = mask_bytes(tid);
        let mut val: Vec<u8> = Vec::with_capacity(20);
        val.push(0);
        match addr.ip {
            IpAddress::V4(o) => {
                val.push(1);
                push_be16(&mut val, addr.port ^ 0x2112);
                let masked: Vec<u8> = xor_bytes(o.as_slice(), masking.as_slice());
                append_bytes(&mut val, masked.as_slice());
            },
            IpAddress::V6(o) => {
                val.push(2);
                push_be16(&mut val, addr.port ^ 0x2112);
                let masked: Vec<u8> = xor_bytes(o.as_slice(), masking.as_slice());
                append_bytes(&mut val, masked.as_slice());
            },
        }
        assert(val@ =~= xor_address(addr@, tid@));
        self.attr_bytes(typ, val.as_slice());
    }

    /// Writes the length into the header, `extra` bytes beyond what is there.
    pub fn patch_len(&mut self, extra: usize)
        requires
            old(self).wf(),
        ensures
            final(self).wf(),
            final(self).mtype() == old(self).mtype(),
            final(self).tid() == old(self).tid(),
            final(self).body() == old(self).body(),
            final(self).bytes() == message(
                old(self).mtype(),
                old(self).tid(),
                old(self).body(),
                extra as int,
            ),
    {
        let ghost before = self.buf@;
        let len: u16 = wrapped_sum(self.buf.len() - 20, extra);
        self.buf.set(2, (len / 256) as u8);
        self.buf.set(3, (len % 256) as u8);
        assert(self.buf@.subrange(0, 2) =~= before.subrange(0, 2));
        assert(self.buf@.subrange(2, 4) =~= be16(len));
        assert(self.buf@.subrange(4, 8) =~= before.subrange(4, 8));
        assert(self.buf@.subrange(8, 20) =~= before.subrange(8, 20));
        assert(self.buf@.skip(20) =~= before.skip(20));
        assert(self.buf@ =~= self.buf@.subrange(0, 2) + self.buf@.subrange(2, 4)
            + self.buf@.subrange(4, 8) + self.buf@.subrange(8, 20) + self.buf@.skip(20));
    }

    /// The message as it stands.
    pub closed spec fn bytes(&self) -> Seq<u8> {
        self.buf@
    }

    /// The finished message.
    pub fn finish(self) -> (out: Vec<u8>)
        requires
            self.wf(),
        ensures
            out@ == message(self.mtype(), self.tid(), self.body(), 0),
    {
        let mut b: MsgBuilder = self;
        b.patch_len(0);
        b.buf
    }

    /// The finished message with a MESSAGE-INTEGRITY attribute: the
    /// HMAC-SHA1 of the message whose header already announces the attribute.
    pub fn finish_with_integrity(self, key: &[u8; 16]) -> (out: Vec<u8>)
        requires
            self.wf(),
        ensures
            out@ == signed_message(self.mtype(), self.tid(), self.body(), key@),
            out@.len() == STUN_HEADER_LEN + self.body().len() + 24,
    {
        let mut b: MsgBuilder = self;
        b.patch_len(24);
        let tag: Vec<u8> = keyed_hash(key.as_slice(), b.buf.as_slice());
        let mut out: Vec<u8> = b.buf;
        push_be16(&mut out, ATTR_MESSAGE_INTEGRITY);
        push_be16(&mut out, 20);
        append_bytes(&mut out, tag.as_slice());
        assert(out@ =~= signed_message(self.mtype(), self.tid(), self.body(), key@));
        out
    }
}

/// A message that ends in its MESSAGE-INTEGRITY attribute.
pub open spec fn signed_message(mtype: u16, tid: Seq<u8>, body: Seq<u8>, key: Seq<u8>) -> Seq<u8> {
    tagged_message(mtype, tid, body, hmac_sha1(key, message(mtype, tid, body, 24))@)
}

/// A message with a tag of 20 bytes behind it, which its header announces.
pub open spec fn tagged_message(mtype: u16, tid: Seq<u8>, body: Seq<u8>, tag: Seq<u8>) -> Seq<u8> {
    message(mtype, tid, body, 24) + attribute(ATTR_MESSAGE_INTEGRITY, tag)
}

/// The HMAC-SHA1 of a message under a key, as the crates `hmac` and `sha1`
/// compute it.
pub uninterp spec fn hmac_sha1(key: Seq<u8>, msg: Seq<u8>) -> [u8; 20];

/// Calls `hmac::Hmac::<sha1::Sha1>` on the whole message. It takes a key of
/// any length, and the tag has 20 bytes.
#[verifier::external_body]
fn keyed_hash(key: &[u8], msg: &[u8]) -> (tag: Vec<u8>)
    ensures
        tag@ == hmac_sha1(key@, msg@)@,
{
    let mut mac = <hmac::Hmac<sha1::Sha1> as hmac::Mac>::new_from_slice(key)
        .expect("hmac accepts any key length");
    hmac::Mac::update(&mut mac, msg);
    hmac::Mac::finalize(mac).into_bytes().to_vec()
}

/// The attributes of a parsed message, in order; of several of one type the
/// first one counts.
pub struct Attrs {
    list: Vec<(u16, Vec<u8>)>,
}

impl View for Attrs {
    type V = Seq<(u16, Seq<u8>)>;

    closed spec fn view(&self) -> Seq<(u16, Seq<u8>)> {
        self.list@.map_values(|a: (u16, Vec<u8>)| (a.0, a.1@))
    }
}

impl Attrs {
    /// The value of the first attribute of this type.
    pub fn get_bytes(&self, typ: u16) -> (r: Option<Vec<u8>>)
        ensures
            r is Some <==> first_of(self@, typ) is Some,
            r is Some ==> r->0@ == first_of(self@, typ)->0,
    {
        let n: usize = self.list.len();
        let mut i: usize = 0;
        assert(self@.skip(0) =~= self@);
        while i < n
            invariant
                i <= n == self.list@.len(),
                first_of(self@, typ) == first_of(self@.skip(i as int), typ),
            decreases n - i,
        {
            assert(self@.skip(i as int).skip(1) =~= self@.skip(i + 1));
            assert(self@.skip(i as int)[0] == self@[i as int]);
            if self.list[i].0 == typ {
                let val: &Vec<u8> = &self.list[i].1;
                let out: Vec<u8> = copy_range(val.as_slice(), 0, val.len());
                assert(out@ =~= val@);
                return Some(out);
            }
            i += 1;
        }
        None
    }

    /// The first attribute of this type as text; `None` if it is not UTF-8.
    pub fn get_string(&self, typ: u16) -> (r: Option<String>)
        ensures
            r is Some <==> first_of(self@, typ) is Some && valid_utf8(first_of(self@, typ)->0),
            r is Some ==> r->0@ == decode_utf8(first_of(self@, typ)->0),
    {
        match self.get_bytes(typ) {
            Some(val) => utf8_text(val),
            None => None,
        }
    }

    /// The LIFETIME attribute, in seconds.
    pub fn get_lifetime(&self) -> (r: Option<u32>)
        ensures
            r == lifetime_of(self@),
    {
        match self.get_bytes(ATTR_LIFETIME) {
            Some(val) => if val.len() >= 4 {
                Some(read_be32(val.as_slice(), 0))
            } else {
                None
            },
            None => None,
        }
    }

    /// The ERROR-CODE attribute as a number.
    pub fn get_error_code(&self) -> (r: Option<u32>)
        ensures
            r == error_code_of(self@),
    {
        match self.get_bytes(ATTR_ERROR_CODE) {
            Some(val) => if val.len() >= 4 {
                Some(val[2] as u32 * 100 + val[3] as u32)
            } else {
                None
            },
            None => None,
        }
    }

    /// The first attribute of this type as a masked address.
    pub fn get_xor_addr(&self, typ: u16, tid: &[u8; 12]) -> (r: Option<Endpoint>)
        ensures
            r is Some <==> xor_addr_of(self@, typ, tid@) is Some,
            r is Some ==> r->0@ == xor_addr_of(self@, typ, tid@)->0,
    {
        match self.get_bytes(typ) {
            Some(val) => parse_address(val.as_slice(), true, tid),
            None => None,
        }
    }
}

/// The lifetime in seconds that attributes announce.
pub open spec fn lifetime_of(attrs: Seq<(u16, Seq<u8>)>) -> Option<u32> {
    match first_of(attrs, ATTR_LIFETIME) {
        Some(val) => if val.len() >= 4 {
            Some(be32_at(val, 0))
        } else {
            None
        },
        None => None,
    }
}

/// The error code that attributes announce: a hundreds digit and a rest.
pub open spec fn error_code_of(attrs: Seq<(u16, Seq<u8>)>) -> Option<u32> {
    match first_of(attrs, ATTR_ERROR_CODE) {
        Some(val) => if val.len() >= 4 {
            Some((val[2] * 100 + val[3]) as u32)
        } else {
            None
        },
        None => None,
    }
}

/// The masked address in the first attribute of a type.
pub open spec fn xor_addr_of(attrs: Seq<(u16, Seq<u8>)>, typ: u16, tid: Seq<u8>) -> Option<
    Address,
> {
    match first_of(attrs, typ) {
        Some(val) => address_in(val, true, tid),
        None => None,
    }
}

/// Reads the address in an attribute's value.
fn parse_address(val: &[u8], masked: bool, tid: &[u8; 12]) -> (r: Option<Endpoint>)
    ensures
        r is Some <==> address_in(val@, masked, tid@) is Some,
        r is Some ==> r->0@ == address_in(val@, masked, tid@)->0,
{
    let len: usize = if val.len() >= 8 && val[1] == 1 {
        4
    } else if val.len() >= 20 && val[1] == 2 {
        16
    } else {
        return None;
    };
    let plain: Vec<u8> = copy_range(val, 4, 4 + len);
    let (octets, port): (Vec<u8>, u16) = if masked {
        let masking: Vec<u8> = mask_bytes(tid);
        (xor_bytes(plain.as_slice(), masking.as_slice()), read_be16(val, 2) ^ 0x2112)
    } else {
        (plain, read_be16(val, 2))
    };
    let ip: IpAddress = if len == 4 {
        IpAddress::V4([octets[0], octets[1], octets[2], octets[3]])
    } else {
        IpAddress::V6(
            [
                octets[0],
                octets[1],
                octets[2],
                octets[3],
                octets[4],
                octets[5],
                octets[6],
                octets[7],
                octets[8],
                octets[9],
                octets[10],
                octets[11],
                octets[12],
                octets[13],
                octets[14],
                octets[15],
            ],
        )
    };
    assert(ip@ =~= octets@);
    Some(Endpoint { ip, port })
}

/// Reads the attributes up to `end`.
fn parse_attributes(buf: &[u8], end: usize) -> (list: Vec<(u16, Vec<u8>)>)
    requires
        STUN_HEADER_LEN <= end <= buf@.len(),
        end <= 0x1_0020,
    ensures
        list@.map_values(|a: (u16, Vec<u8>)| (a.0, a.1@)) == attributes_in(
            buf@,
            STUN_HEADER_LEN as int,
            end as int,
        ),
{
    let mut list: Vec<(u16, Vec<u8>)> = Vec::new();
    let ghost viewed = |a: (u16, Vec<u8>)| (a.0, a.1@);
    let ghost whole = attributes_in(buf@, STUN_HEADER_LEN as int, end as int);
    let mut i: usize = STUN_HEADER_LEN;
    assert(list@.map_values(viewed) + whole =~= whole);
    while i + 4 <= end
        invariant_except_break
            STUN_HEADER_LEN <= i <= end + 3,
            end <= buf@.len(),
            end <= 0x1_0020,
            viewed == (|a: (u16, Vec<u8>)| (a.0, a.1@)),
            list@.map_values(viewed) + attributes_in(buf@, i as int, end as int) == whole,
        ensures
            list@.map_values(viewed) == whole,
        decreases end + 4 - i,
    {
        let typ: u16 = read_be16(buf, i);
        let len: usize = read_be16(buf, i + 2) as usize;
        let vend: usize = i + 4 + len;
        if vend > end {
            assert(list@.map_values(viewed) =~= whole);
            break;
        }
        let ghost before = list@;
        let ghost at = i as int;
        list.push((typ, copy_range(buf, i + 4, vend)));
        i = vend + (4 - len % 4) % 4;
        proof {
            let one = seq![(typ, buf@.subrange(at + 4, vend as int))];
            let rest = attributes_in(buf@, i as int, end as int);
            assert(attributes_in(buf@, at, end as int) == one + rest);
            assert(list@.map_values(viewed) =~= before.map_values(viewed) + one);
            assert(before.map_values(viewed) + (one + rest) =~= list@.map_values(viewed) + rest);
            assert(i > at);
        }
        if i + 4 > end {
            assert(list@.map_values(viewed) =~= whole);
        }
    }
    list
}

/// Where the attributes of a message end.
fn find_end(buf: &[u8]) -> (end: usize)
    requires
        buf@.len() >= STUN_HEADER_LEN,
    ensures
        end == body_end(buf@),
        STUN_HEADER_LEN <= end <= buf@.len(),
        end <= 0x1_0020,
{
    let announced: usize = STUN_HEADER_LEN + read_be16(buf, 2) as usize;
    if announced < buf.len() {
        announced
    } else {
        buf.len()
    }
}

fn read_tid(buf: &[u8]) -> (tid: [u8; 12])
    requires
        buf@.len() >= STUN_HEADER_LEN,
    ensures
        tid@ == buf@.subrange(8, 20),
{
    let tid: [u8; 12] = [
        buf[8],
        buf[9],
        buf[10],
        buf[11],
        buf[12],
        buf[13],
        buf[14],
        buf[15],
        buf[16],
        buf[17],
        buf[18],
        buf[19],
    ];
    assert(tid@ =~= buf@.subrange(8, 20));
    tid
}

/// Parses a message into its type, transaction id and attributes.
pub fn parse_message(buf: &[u8]) -> (r: Option<(u16, [u8; 12], Attrs)>)
    ensures
        r is Some <==> parsed(buf@) is Some,
        r is Some ==> parsed(buf@)->0 == (Message {
            mtype: r->Some_0.0,
            tid: r->Some_0.1@,
            attrs: r->Some_0.2@,
        }),
{
    if buf.len() < STUN_HEADER_LEN || buf[0] >= 64 || read_be32(buf, 4) != MAGIC {
        return None;
    }
    let end: usize = find_end(buf);
    let list: Vec<(u16, Vec<u8>)> = parse_attributes(buf, end);
    Some((read_be16(buf, 0), read_tid(buf), Attrs { list }))
}

/// The address that a list of attributes maps this socket to: the first
/// masked one, or else the last plain one.
pub open spec fn mapped_of(list: Seq<(u16, Seq<u8>)>, tid: Seq<u8>) -> Option<Address> {
    match first_masked(list, tid) {
        Some(a) => Some(a),
        None => last_plain(list, tid),
    }
}

pub open spec fn first_masked(list: Seq<(u16, Seq<u8>)>, tid: Seq<u8>) -> Option<Address>
    decreases list.len(),
{
    if list.len() == 0 {
        None
    } else if list[0].0 == ATTR_XOR_MAPPED_ADDRESS && address_in(list[0].1, true, tid) is Some {
        address_in(list[0].1, true, tid)
    } else {
        first_masked(list.skip(1), tid)
    }
}

pub open spec fn last_plain(list: Seq<(u16, Seq<u8>)>, tid: Seq<u8>) -> Option<Address>
    decreases list.len(),
{
    if list.len() == 0 {
        None
    } else if list.last().0 == ATTR_MAPPED_ADDRESS && address_in(list.last().1, false, tid) is Some {
        address_in(list.last().1, false, tid)
    } else {
        last_plain(list.drop_last(), tid)
    }
}

/// The address that a Binding Success Response maps this socket to.
pub open spec fn mapped_in(buf: Seq<u8>, tid: Seq<u8>) -> Option<Address> {
    if buf.len() < STUN_HEADER_LEN || be16_at(buf, 0) != BINDING_OK {
        None
    } else {
        mapped_of(attributes_in(buf, STUN_HEADER_LEN as int, body_end(buf)), tid)
    }
}

/// Parses the XOR-MAPPED-ADDRESS (preferred) or MAPPED-ADDRESS out of a
/// Binding Success Response.
pub fn parse_stun_mapped_address(buf: &[u8], tid: &[u8; 12]) -> (r: Option<Endpoint>)
    ensures
        r is Some <==> mapped_in(buf@, tid@) is Some,
        r is Some ==> r->0@ == mapped_in(buf@, tid@)->0,
{
    if buf.len() < STUN_HEADER_LEN || read_be16(buf, 0) != BINDING_OK {
        return None;
    }
    let end: usize = find_end(buf);
    let list: Vec<(u16, Vec<u8>)> = parse_attributes(buf, end);
    let ghost seen = list@.map_values(|a: (u16, Vec<u8>)| (a.0, a.1@));
    let mut plain: Option<Endpoint> = None;
    let n: usize = list.len();
    let mut i: usize = 0;
    assert(seen.skip(0) =~= seen);
    while i < n
        invariant
            i <= n == list@.len(),
            seen == list@.map_values(|a: (u16, Vec<u8>)| (a.0, a.1@)),
            seen == attributes_in(buf@, STUN_HEADER_LEN as int, body_end(buf@)),
            buf@.len() >= STUN_HEADER_LEN,
            be16_at(buf@, 0) == BINDING_OK,
            first_masked(seen, tid@) == first_masked(seen.skip(i as int), tid@),
            plain is Some <==> last_plain(seen.take(i as int), tid@) is Some,
            plain is Some ==> plain->0@ == last_plain(seen.take(i as int), tid@)->0,
        decreases n - i,
    {
        proof {
            assert(seen.skip(i as int).skip(1) =~= seen.skip(i + 1));
            assert(seen.skip(i as int)[0] == seen[i as int]);
            assert(seen.take(i + 1).drop_last() =~= seen.take(i as int));
            assert(seen.take(i + 1).last() == seen[i as int]);
        }
        let typ: u16 = list[i].0;
        if typ == ATTR_XOR_MAPPED_ADDRESS {
            if let Some(a) = parse_address(list[i].1.as_slice(), true, tid) {
                return Some(a);
            }
        } else if typ == ATTR_MAPPED_ADDRESS {
            if let Some(a) = parse_address(list[i].1.as_slice(), false, tid) {
                plain = Some(a);
            }
        }
        i += 1;
    }
    assert(seen.take(n as int) =~= seen);
    plain
}

/// A Binding Request without attributes.
pub fn binding_request(tid: &[u8; 12]) -> (out: Vec<u8>)
    ensures
        out@ == message(BINDING_REQ, tid@, seq![], 0),
        out@ == seq![0u8, 1u8, 0u8, 0u8, 0x21u8, 0x12u8, 0xA4u8, 0x42u8] + tid@,
{
    let b = MsgBuilder::new(BINDING_REQ, tid);
    b.finish()
}

/// Whether each value's length fits the 16 bits that announce it.
pub open spec fn values_fit(list: Seq<(u16, Seq<u8>)>) -> bool {
    forall|i: int| 0 <= i < list.len() ==> (#[trigger] list[i]).1.len() < 65536
}

proof fn lemma_attributes_read_back(buf: Seq<u8>, at: int, end: int, list: Seq<(u16, Seq<u8>)>)
    requires
        0 <= at <= end <= buf.len(),
        values_fit(list),
        buf.subrange(at, end) == attributes(list),
    ensures
        attributes_in(buf, at, end) == list,
    decreases list.len(),
{
    if list.len() == 0 {
        assert(buf.subrange(at, end).len() == end - at);
        assert(attributes_in(buf, at, end) =~= list);
    } else {
        let (typ, val) = list[0];
        let one = attribute(typ, val);
        let body = buf.subrange(at, end);
        let rest = list.skip(1);
        assert(val.len() < 65536);
        assert(body == one + attributes(rest));
        assert(body.len() == end - at);
        assert(body.take(one.len() as int) =~= one);
        assert(buf.subrange(at, at + 2) =~= be16(typ)) by {
            assert(one.subrange(0, 2) =~= be16(typ));
            assert(buf.subrange(at, at + 2) =~= body.take(one.len() as int).subrange(0, 2));
        }
        assert(buf.subrange(at + 2, at + 4) =~= be16(val.len() as u16)) by {
            assert(one.subrange(2, 4) =~= be16(val.len() as u16));
            assert(buf.subrange(at + 2, at + 4) =~= body.take(one.len() as int).subrange(2, 4));
        }
        lemma_be16_reads_back(buf, at, typ);
        lemma_be16_reads_back(buf, at + 2, val.len() as u16);
        assert(buf.subrange(at + 4, at + 4 + val.len()) =~= val) by {
            assert(one.subrange(4, 4 + val.len() as int) =~= val);
            assert(buf.subrange(at + 4, at + 4 + val.len()) =~= body.take(
                one.len() as int,
            ).subrange(4, 4 + val.len() as int));
        }
        let next = at + one.len();
        assert(one.len() == 4 + val.len() + padding(val.len() as int));
        assert(buf.subrange(next, end) =~= body.skip(one.len() as int));
        assert(body.skip(one.len() as int) =~= attributes(rest));
        assert forall|i: int| 0 <= i < rest.len() implies (#[trigger] rest[i]).1.len() < 65536 by {
            assert(rest[i] == list[i + 1]);
        }
        lemma_attributes_read_back(buf, next, end, rest);
        assert(seq![(typ, val)] + rest =~= list);
    }
}

/// Attributes added one at a time stand on the wire as the list of them all.
pub proof fn law_attributes_accumulate(list: Seq<(u16, Seq<u8>)>, typ: u16, val: Seq<u8>)
    ensures
        attributes(list.push((typ, val))) == attributes(list) + attribute(typ, val),
    decreases list.len(),
{
    let longer = list.push((typ, val));
    if list.len() == 0 {
        assert(longer.skip(1) =~= seq![]);
        assert(attributes(longer.skip(1)) =~= seq![]);
        assert(attributes(list) =~= seq![]);
        assert(attributes(longer) =~= attributes(list) + attribute(typ, val));
    } else {
        assert(longer.skip(1) =~= list.skip(1).push((typ, val)));
        law_attributes_accumulate(list.skip(1), typ, val);
        assert(attributes(longer) =~= attributes(list) + attribute(typ, val));
    }
}

proof fn lemma_header_reads_back(mtype: u16, tid: Seq<u8>, body: Seq<u8>, extra: int)
    requires
        tid.len() == 12,
        0 <= extra,
        body.len() + extra < 65536,
    ensures
        ({
            let m = message(mtype, tid, body, extra);
            &&& m.len() == STUN_HEADER_LEN + body.len()
            &&& be16_at(m, 0) == mtype
            &&& be16_at(m, 2) == body.len() + extra
            &&& be32_at(m, 4) == MAGIC
            &&& m.subrange(8, 20) == tid
            &&& m.skip(20) == body
            &&& (m[0] >= 64 <==> mtype >= 0x4000)
        }),
{
    let m = message(mtype, tid, body, extra);
    assert(m.subrange(0, 2) =~= be16(mtype));
    assert(m.subrange(2, 4) =~= be16((body.len() + extra) as u16));
    assert(m.subrange(4, 8) =~= be32(MAGIC));
    lemma_be16_reads_back(m, 0, mtype);
    lemma_be16_reads_back(m, 2, (body.len() + extra) as u16);
    lemma_be32_reads_back(m, 4, MAGIC);
    assert(m.subrange(8, 20) =~= tid);
    assert(m.skip(20) =~= body);
    assert(m[0] == m.subrange(0, 2)[0]);
}

/// A built message parses back into the type, the transaction id and the
/// attributes that it was built from, in their order. (The two top bits of a
/// type are zero, and the lengths fit their 16 bits.)
pub proof fn law_message_parses_back(mtype: u16, tid: Seq<u8>, list: Seq<(u16, Seq<u8>)>)
    requires
        tid.len() == 12,
        mtype < 0x4000,
        values_fit(list),
        attributes(list).len() < 65536,
    ensures
        parsed(message(mtype, tid, attributes(list), 0)) == Some(
            Message { mtype, tid, attrs: list },
        ),
{
    let body = attributes(list);
    let m = message(mtype, tid, body, 0);
    lemma_header_reads_back(mtype, tid, body, 0);
    assert(m.subrange(20, body_end(m)) =~= body);
    lemma_attributes_read_back(m, 20, body_end(m), list);
}

/// A signed message parses back with the MESSAGE-INTEGRITY attribute behind
/// the attributes that it was built from.
pub proof fn law_signed_message_parses_back(
    mtype: u16,
    tid: Seq<u8>,
    list: Seq<(u16, Seq<u8>)>,
    key: Seq<u8>,
)
    requires
        tid.len() == 12,
        mtype < 0x4000,
        values_fit(list),
        attributes(list).len() + 24 < 65536,
    ensures
        parsed(signed_message(mtype, tid, attributes(list), key)) == Some(
            Message {
                mtype,
                tid,
                attrs: list.push(
                    (
                        ATTR_MESSAGE_INTEGRITY,
                        hmac_sha1(key, message(mtype, tid, attributes(list), 24))@,
                    ),
                ),
            },
        ),
{
    let tag = hmac_sha1(key, message(mtype, tid, attributes(list), 24))@;
    lemma_tagged_message_parses_back(mtype, tid, list, tag);
}

proof fn lemma_tagged_message_parses_back(
    mtype: u16,
    tid: Seq<u8>,
    list: Seq<(u16, Seq<u8>)>,
    tag: Seq<u8>,
)
    requires
        tid.len() == 12,
        mtype < 0x4000,
        values_fit(list),
        attributes(list).len() + 24 < 65536,
        tag.len() == 20,
    ensures
        parsed(tagged_message(mtype, tid, attributes(list), tag)) == Some(
            Message { mtype, tid, attrs: list.push((ATTR_MESSAGE_INTEGRITY, tag)) },
        ),
{
    let body = attributes(list);
    let whole = list.push((ATTR_MESSAGE_INTEGRITY, tag));
    law_attributes_accumulate(list, ATTR_MESSAGE_INTEGRITY, tag);
    assert(tagged_message(mtype, tid, body, tag) =~= message(mtype, tid, attributes(whole), 0));
    assert forall|i: int| 0 <= i < whole.len() implies (#[trigger] whole[i]).1.len() < 65536 by {
        if i < list.len() {
            assert(whole[i] == list[i]);
        }
    }
    law_message_parses_back(mtype, tid, whole);
}

/// A masked address reads back as it was, under the same transaction id.
pub proof fn law_xor_address_reads_back(a: Address, tid: Seq<u8>)
    requires
        is_address(a),
        tid.len() == 12,
    ensures
        address_in(xor_address(a, tid), true, tid) == Some(a),
{
    let val = xor_address(a, tid);
    let port = a.port;
    assert(val.subrange(2, 4) =~= be16(port ^ 0x2112));
    lemma_be16_reads_back(val, 2, port ^ 0x2112);
    assert((port ^ 0x2112u16) ^ 0x2112u16 == port) by (bit_vector);
    let octets = val.subrange(4, 4 + a.octets.len() as int);
    assert(octets =~= xor(a.octets, mask(tid)));
    assert forall|i: int| 0 <= i < a.octets.len() implies xor(octets, mask(tid))[i]
        == a.octets[i] by {
        let x = a.octets[i];
        let m = mask(tid)[i];
        assert((x ^ m) ^ m == x) by (bit_vector);
    }
    assert(xor(octets, mask(tid)) =~= a.octets);
}

/// A Binding Success Response maps this socket to the address in its first
/// XOR-MAPPED-ADDRESS, whatever other attributes stand around it.
pub proof fn law_xor_mapped_address_wins(
    tid: Seq<u8>,
    before: Seq<(u16, Seq<u8>)>,
    a: Address,
    after: Seq<(u16, Seq<u8>)>,
)
    requires
        tid.len() == 12,
        is_address(a),
        forall|i: int|
            0 <= i < before.len() ==> (#[trigger] before[i]).0 != ATTR_XOR_MAPPED_ADDRESS,
        values_fit(before + seq![(ATTR_XOR_MAPPED_ADDRESS, xor_address(a, tid))] + after),
        attributes(before + seq![(ATTR_XOR_MAPPED_ADDRESS, xor_address(a, tid))] + after).len()
            < 65536,
    ensures
        mapped_in(
            message(
                BINDING_OK,
                tid,
                attributes(before + seq![(ATTR_XOR_MAPPED_ADDRESS, xor_address(a, tid))] + after),
                0,
            ),
            tid,
        ) == Some(a),
{
    let list = before + seq![(ATTR_XOR_MAPPED_ADDRESS, xor_address(a, tid))] + after;
    law_message_parses_back(BINDING_OK, tid, list);
    lemma_header_reads_back(BINDING_OK, tid, attributes(list), 0);
    lemma_first_masked(before, a, after, tid);
}

proof fn lemma_first_masked(
    before: Seq<(u16, Seq<u8>)>,
    a: Address,
    after: Seq<(u16, Seq<u8>)>,
    tid: Seq<u8>,
)
    requires
        tid.len() == 12,
        is_address(a),
        forall|i: int|
            0 <= i < before.len() ==> (#[trigger] before[i]).0 != ATTR_XOR_MAPPED_ADDRESS,
    ensures
        first_masked(
            before + seq![(ATTR_XOR_MAPPED_ADDRESS, xor_address(a, tid))] + after,
            tid,
        ) == Some(a),
    decreases before.len(),
{
    let one = seq![(ATTR_XOR_MAPPED_ADDRESS, xor_address(a, tid))];
    let list = before + one + after;
    if before.len() == 0 {
        assert(list[0] == one[0]);
        law_xor_address_reads_back(a, tid);
    } else {
        let rest = before.skip(1);
        assert(list[0] == before[0]);
        assert(list.skip(1) =~= rest + one + after);
        assert forall|i: int| 0 <= i < rest.len() implies (#[trigger] rest[i]).0
            != ATTR_XOR_MAPPED_ADDRESS by {
            assert(rest[i] == before[i + 1]);
        }
        lemma_first_masked(rest, a, after, tid);
    }
}

/// A message begins with its type in two bytes and the length of what follows
/// the header in two more, highest byte first. The bytes 0x21, 0x12, 0xA4 and
/// 0x42 come next, then the twelve bytes of the transaction, then the body.
#[verifier::rlimit(50)]
pub proof fn law_messages_are_laid_out(mtype: u16, tid: Seq<u8>, body: Seq<u8>, extra: int)
    requires
        tid.len() == 12,
        0 <= extra,
        body.len() + extra < 65536,
    ensures
        ({
            let m = message(mtype, tid, body, extra);
            &&& m.len() == 20 + body.len()
            &&& m[1] + 0x100 * m[0] == mtype
            &&& m[3] + 0x100 * m[2] == body.len() + extra
            &&& m.subrange(4, 8) == seq![0x21u8, 0x12, 0xA4, 0x42]
            &&& m.subrange(8, 20) == tid
            &&& m.subrange(20, m.len() as int) == body
        }),
{
    let m = message(mtype, tid, body, extra);
    let len = ((body.len() + extra) % 65536) as u16;
    assert(m[0] == be16(mtype)[0] && m[1] == be16(mtype)[1]);
    assert(m[2] == be16(len)[0] && m[3] == be16(len)[1]);
    assert(m.subrange(4, 8) =~= seq![0x21u8, 0x12, 0xA4, 0x42]);
    assert(m.subrange(8, 20) =~= tid);
    assert(m.subrange(20, m.len() as int) =~= body);
}

/// An attribute is its number, the length of its value, the value, and as few
/// zeros as make the whole a multiple of four bytes long.
#[verifier::rlimit(50)]
pub proof fn law_attributes_are_laid_out(typ: u16, val: Seq<u8>, i: int)
    requires
        val.len() < 65536,
    ensures
        ({
            let a = attribute(typ, val);
            &&& a.len() % 4 == 0
            &&& 4 + val.len() <= a.len() < 8 + val.len()
            &&& a[1] + 0x100 * a[0] == typ
            &&& a[3] + 0x100 * a[2] == val.len()
            &&& a.subrange(4, 4 + val.len() as int) == val
            &&& 4 + val.len() <= i < a.len() ==> a[i] == 0
        }),
{
    let a = attribute(typ, val);
    let len = (val.len() % 65536) as u16;
    assert(a[0] == be16(typ)[0] && a[1] == be16(typ)[1]);
    assert(a[2] == be16(len)[0] && a[3] == be16(len)[1]);
    assert(a.subrange(4, 4 + val.len() as int) =~= val);
}

/// A masked address is a zero, the family, the port with 0x2112 over it, and
/// the octets with the magic bytes and then the transaction over them.
#[verifier::rlimit(50)]
pub proof fn law_masked_addresses_are_laid_out(a: Address, tid: Seq<u8>, i: int)
    requires
        is_address(a),
        tid.len() == 12,
        0 <= i < a.octets.len(),
    ensures
        ({
            let v = xor_address(a, tid);
            &&& v.len() == 4 + a.octets.len()
            &&& v[0] == 0
            &&& v[1] == (if a.octets.len() == 4 {
                1u8
            } else {
                2u8
            })
            &&& v[3] + 0x100 * v[2] == a.port ^ 0x2112
            &&& v[4 + i] == a.octets[i] ^ (if i < 4 {
                seq![0x21u8, 0x12, 0xA4, 0x42][i]
            } else {
                tid[i - 4]
            })
        }),
{
    let v = xor_address(a, tid);
    assert(be32(MAGIC) =~= seq![0x21u8, 0x12, 0xA4, 0x42]);
    assert(v[2] == be16(a.port ^ 0x2112)[0] && v[3] == be16(a.port ^ 0x2112)[1]);
    assert(v[4 + i] == xor(a.octets, mask(tid))[i]);
}

/// A plain address is read as it stands: family 1 has four octets, family 2
/// sixteen, and the port comes before them, highest byte first. Any other
/// family, or a value that is too short, is no address.
pub proof fn law_plain_addresses_are_read(val: Seq<u8>, tid: Seq<u8>)
    requires
        val.len() >= 4,
    ensures
        val.len() >= 8 && val[1] == 1 ==> address_in(val, false, tid) == Some(
            Address { octets: val.subrange(4, 8), port: (val[3] + 0x100 * val[2]) as u16 },
        ),
        val.len() >= 20 && val[1] == 2 ==> address_in(val, false, tid) == Some(
            Address { octets: val.subrange(4, 20), port: (val[3] + 0x100 * val[2]) as u16 },
        ),
        address_in(val, false, tid) is Some <==> val[1] == 1 && val.len() >= 8 || val[1] == 2
            && val.len() >= 20,
        address_in(val, true, tid) is Some <==> address_in(val, false, tid) is Some,
{
}

/// A datagram is a message exactly if it has twenty bytes, its first byte is
/// below 64 and the magic bytes are in their place; its type and transaction
/// are then read from the header.
pub proof fn law_messages_are_recognised(buf: Seq<u8>)
    ensures
        parsed(buf) is Some <==> buf.len() >= 20 && buf[0] < 64 && buf[4] == 0x21 && buf[5] == 0x12
            && buf[6] == 0xA4 && buf[7] == 0x42,
        parsed(buf) is Some ==> parsed(buf)->0.mtype == buf[1] + 0x100 * buf[0],
        parsed(buf) is Some ==> parsed(buf)->0.tid == buf.subrange(8, 20),
{
}

/// Of several attributes of one type the first counts, whatever stands around
/// it; without one there is nothing to find.
pub proof fn law_first_attribute_counts(
    before: Seq<(u16, Seq<u8>)>,
    typ: u16,
    val: Seq<u8>,
    after: Seq<(u16, Seq<u8>)>,
)
    requires
        forall|i: int| 0 <= i < before.len() ==> (#[trigger] before[i]).0 != typ,
    ensures
        first_of(before + seq![(typ, val)] + after, typ) == Some(val),
        first_of(before, typ) is None,
    decreases before.len(),
{
    let whole = before + seq![(typ, val)] + after;
    if before.len() == 0 {
        assert(whole[0] == (typ, val));
    } else {
        assert(whole[0] == before[0]);
        assert(whole.skip(1) =~= before.skip(1) + seq![(typ, val)] + after);
        law_first_attribute_counts(before.skip(1), typ, val, after);
    }
}

/// Attribute 0x000D is a lifetime in seconds, four bytes with the highest
/// first. Attribute 0x0009 is an error, its hundreds in the third byte and the
/// rest in the fourth. A value shorter than four bytes says nothing.
pub proof fn law_lifetimes_and_errors_are_read(attrs: Seq<(u16, Seq<u8>)>)
    ensures
        lifetime_of(attrs) is Some <==> first_of(attrs, 0x000D) is Some && first_of(
            attrs,
            0x000D,
        )->0.len() >= 4,
        lifetime_of(attrs) is Some ==> ({
            let v = first_of(attrs, 0x000D)->0;
            lifetime_of(attrs)->0 == v[3] + 0x100 * v[2] + 0x1_0000 * v[1] + 0x100_0000 * v[0]
        }),
        error_code_of(attrs) is Some <==> first_of(attrs, 0x0009) is Some && first_of(
            attrs,
            0x0009,
        )->0.len() >= 4,
        error_code_of(attrs) is Some ==> error_code_of(attrs)->0 == 100 * first_of(
            attrs,
            0x0009,
        )->0[2] + first_of(attrs, 0x0009)->0[3],
{
}

/// An address under a type is the first attribute of that type, unmasked.
pub proof fn law_masked_attribute_is_unmasked(
    before: Seq<(u16, Seq<u8>)>,
    typ: u16,
    a: Address,
    after: Seq<(u16, Seq<u8>)>,
    tid: Seq<u8>,
)
    requires
        is_address(a),
        tid.len() == 12,
        forall|i: int| 0 <= i < before.len() ==> (#[trigger] before[i]).0 != typ,
    ensures
        xor_addr_of(before + seq![(typ, xor_address(a, tid))] + after, typ, tid) == Some(a),
{
    law_first_attribute_counts(before, typ, xor_address(a, tid), after);
    law_xor_address_reads_back(a, tid);
}

/// Only a message of type 0x0101 maps this socket to an address, and a list of
/// attributes maps it only by number 0x0020, masked, or 0x0001, plain.
pub proof fn law_only_mappings_map(buf: Seq<u8>, list: Seq<(u16, Seq<u8>)>, tid: Seq<u8>)
    ensures
        buf.len() < 20 ==> mapped_in(buf, tid) is None,
        buf.len() >= 20 && buf[1] + 0x100 * buf[0] != 0x0101 ==> mapped_in(buf, tid) is None,
        (forall|i: int|
            0 <= i < list.len() ==> (#[trigger] list[i]).0 != 0x0020 && list[i].0 != 0x0001)
            ==> mapped_of(list, tid) is None,
{
    if forall|i: int|
        0 <= i < list.len() ==> (#[trigger] list[i]).0 != 0x0020 && list[i].0 != 0x0001 {
        lemma_nothing_masked(list, tid);
        lemma_nothing_plain(list, tid);
    }
}

proof fn lemma_nothing_masked(list: Seq<(u16, Seq<u8>)>, tid: Seq<u8>)
    requires
        forall|i: int| 0 <= i < list.len() ==> (#[trigger] list[i]).0 != 0x0020,
    ensures
        first_masked(list, tid) is None,
    decreases list.len(),
{
    if list.len() > 0 {
        assert(list[0].0 != 0x0020);
        lemma_nothing_masked(list.skip(1), tid);
    }
}

proof fn lemma_nothing_plain(list: Seq<(u16, Seq<u8>)>, tid: Seq<u8>)
    requires
        forall|i: int| 0 <= i < list.len() ==> (#[trigger] list[i]).0 != 0x0001,
    ensures
        last_plain(list, tid) is None,
    decreases list.len(),
{
    if list.len() > 0 {
        assert(list.last() == list[list.len() - 1]);
        lemma_nothing_plain(list.drop_last(), tid);
    }
}

proof fn lemma_last_plain(
    before: Seq<(u16, Seq<u8>)>,
    val: Seq<u8>,
    after: Seq<(u16, Seq<u8>)>,
    tid: Seq<u8>,
)
    requires
        address_in(val, false, tid) is Some,
        forall|i: int| 0 <= i < after.len() ==> (#[trigger] after[i]).0 != 0x0001,
    ensures
        last_plain(before + seq![(0x0001u16, val)] + after, tid) == address_in(val, false, tid),
    decreases after.len(),
{
    let whole = before + seq![(0x0001u16, val)] + after;
    if after.len() == 0 {
        assert(whole.last() == (0x0001u16, val));
    } else {
        assert(whole.last() == after[after.len() - 1]);
        assert(whole.drop_last() =~= before + seq![(0x0001u16, val)] + after.drop_last());
        lemma_last_plain(before, val, after.drop_last(), tid);
    }
}

/// An answer of type 0x0101 maps this socket to the masked address under
/// number 0x0020, or, without one, to the last plain address under 0x0001.
pub proof fn law_answers_map_this_socket(
    tid: Seq<u8>,
    before: Seq<(u16, Seq<u8>)>,
    val: Seq<u8>,
    after: Seq<(u16, Seq<u8>)>,
)
    requires
        tid.len() == 12,
        address_in(val, false, tid) is Some,
        ({
            let list = before + seq![(0x0001u16, val)] + after;
            &&& forall|i: int| 0 <= i < list.len() ==> (#[trigger] list[i]).0 != 0x0020
            &&& forall|i: int| 0 <= i < after.len() ==> (#[trigger] after[i]).0 != 0x0001
            &&& values_fit(list)
            &&& attributes(list).len() < 65536
        }),
    ensures
        mapped_in(
            message(0x0101, tid, attributes(before + seq![(0x0001u16, val)] + after), 0),
            tid,
        ) == address_in(val, false, tid),
{
    let list = before + seq![(0x0001u16, val)] + after;
    law_message_parses_back(0x0101, tid, list);
    lemma_header_reads_back(0x0101, tid, attributes(list), 0);
    lemma_nothing_masked(list, tid);
    lemma_last_plain(before, val, after, tid);
}

/// The numbers that messages and attributes go by are those of the protocol.
pub proof fn law_protocol_numbers()
    ensures
        BINDING_REQ == 0x0001,
        BINDING_OK == 0x0101,
        ATTR_MAPPED_ADDRESS == 0x0001,
        ATTR_USERNAME == 0x0006,
        ATTR_MESSAGE_INTEGRITY == 0x0008,
        ATTR_ERROR_CODE == 0x0009,
        ATTR_LIFETIME == 0x000D,
        ATTR_XOR_PEER_ADDRESS == 0x0012,
        ATTR_DATA == 0x0013,
        ATTR_REALM == 0x0014,
        ATTR_NONCE == 0x0015,
        ATTR_XOR_RELAYED_ADDRESS == 0x0016,
        ATTR_REQUESTED_TRANSPORT == 0x0019,
        ATTR_XOR_MAPPED_ADDRESS == 0x0020,
{
}

/// A signed message is the message whose header counts 24 bytes more, and
/// then, under number 0x0008, the keyed hash of exactly that message.
pub proof fn law_signed_messages_end_in_their_hash(
    mtype: u16,
    tid: Seq<u8>,
    body: Seq<u8>,
    key: Seq<u8>,
)
    ensures
        ({
            let m = message(mtype, tid, body, 24);
            signed_message(mtype, tid, body, key) == m + attribute(0x0008, hmac_sha1(key, m)@)
        }),
{
}

/// Addresses are seen as they are: octets and port.
pub proof fn law_addresses_are_seen_as_they_are(four: [u8; 4], sixteen: [u8; 16], port: u16)
    ensures
        (Endpoint { ip: IpAddress::V4(four), port })@ == (Address { octets: four@, port }),
        (Endpoint { ip: IpAddress::V6(sixteen), port })@ == (Address { octets: sixteen@, port }),
{
}

/// Attributes are read one after the other, each from the next multiple of
/// four bytes behind the one before, until one does not fit: what has been read
/// until then stays.
pub proof fn law_attributes_are_read_in_turn(buf: Seq<u8>, at: int, end: int)
    requires
        0 <= at,
        end <= buf.len(),
    ensures
        at + 4 > end ==> attributes_in(buf, at, end).len() == 0,
        at + 4 <= end ==> ({
            let len = buf[at + 3] + 0x100 * buf[at + 2];
            let list = attributes_in(buf, at, end);
            let next = at + 4 + 4 * ((len + 3) / 4);
            &&& at + 4 + len > end ==> list.len() == 0
            &&& at + 4 + len <= end ==> {
                &&& list.len() == 1 + attributes_in(buf, next, end).len()
                &&& list[0].0 == buf[at + 1] + 0x100 * buf[at]
                &&& list[0].1 == buf.subrange(at + 4, at + 4 + len)
                &&& list.skip(1) == attributes_in(buf, next, end)
            }
        }),
{
    if at + 4 <= end {
        let len = be16_at(buf, at + 2);
        let next = at + 4 + 4 * ((len + 3) / 4);
        assert(next == at + 4 + len + padding(len as int));
        let list = attributes_in(buf, at, end);
        if at + 4 + len <= end {
            assert(list.skip(1) =~= attributes_in(buf, next, end));
        }
    }
}

/// A message's attributes lie behind its twenty bytes of header and end where
/// the header says, or where the datagram ends before that.
pub proof fn law_attributes_lie_behind_the_header(buf: Seq<u8>)
    requires
        parsed(buf) is Some,
    ensures
        ({
            let len = buf[3] + 0x100 * buf[2];
            parsed(buf)->0.attrs == attributes_in(
                buf,
                20,
                if 20 + len < buf.len() {
                    20 + len
                } else {
                    buf.len() as int
                },
            )
        }),
{
}

} // verus!
