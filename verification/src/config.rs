//! The settings of a machine, and the challenge and response that let a
//! viewer in by password without sending it.

use vstd::prelude::*;
use vstd::utf8::{encode_utf8, is_ascii_chars, is_ascii_chars_encode_utf8};

use crate::bytes::append_bytes;
use crate::ids::{fits_uuid, is_uuid, new_uuid};
use crate::secret::{hex_bytes, hex_digit, hex_text, is_hex, law_hex_reads_back};
use crate::text::{chars_of, owned, same_text, string_of, trim_space, trimmed};

verus! {

/// How many machines the list of recent ones holds.
pub const MAX_RECENTS: usize = 10;

/// How a host lets viewers in.
#[derive(Debug, Clone, Copy, PartialEq, Eq, Structural)]
pub enum Mode {
    Approve,
    Password,
}

impl Default for Mode {
    fn default() -> (m: Mode)
        ensures
            m == Mode::Approve,
    {
        Mode::Approve
    }
}

/// What a viewer may do.
#[derive(Debug, Clone, Copy, PartialEq, Eq, Structural)]
pub enum Permission {
    View,
    Control,
}

impl Default for Permission {
    fn default() -> (p: Permission)
        ensures
            p == Permission::View,
    {
        Permission::View
    }
}

/// The name of a permission.
pub open spec fn permission_name(p: Permission) -> Seq<char> {
    match p {
        Permission::View => "view"@,
        Permission::Control => "control"@,
    }
}

/// The permission of a name. Anything but `control` is `view`.
pub open spec fn permission_of(name: Seq<char>) -> Permission {
    if name == "control"@ {
        Permission::Control
    } else {
        Permission::View
    }
}

impl Permission {
    /// The name of the permission.
    pub fn as_str(self) -> (name: &'static str)
        ensures
            name@ == permission_name(self),
    {
        match self {
            Permission::View => "view",
            Permission::Control => "control",
        }
    }

    /// The permission of a name.
    pub fn parse(name: &str) -> (p: Permission)
        ensures
            p == permission_of(name@),
    {
        if same_text(name, "control") {
            Permission::Control
        } else {
            Permission::View
        }
    }
}

/// A permission is told apart by its name.
pub proof fn law_permission_names(p: Permission)
    ensures
        permission_of(permission_name(p)) == p,
{
    reveal_strlit("view");
    reveal_strlit("control");
    assert("view"@.len() == 4);
    assert("control"@.len() == 7);
}

/// A STUN or TURN server.
#[derive(Debug)]
pub struct IceServer {
    pub urls: String,
    pub username: Option<String>,
    pub credential: Option<String>,
}

/// The settings of a machine.
#[derive(Debug)]
pub struct Config {
    /// Generated once, never changes: the machine's address.
    pub uuid: String,
    pub server_url: String,
    pub mode: Mode,
    /// The hexadecimal SHA-256 of the password, if one is set.
    pub password_hash: Option<String>,
    /// What the password lets in to.
    pub password_permission: Permission,
    pub ice_servers: Vec<IceServer>,
    pub share_audio: bool,
    pub share_display_id: Option<String>,
    /// The machines connected to, most recent first.
    pub recent_ids: Vec<String>,
    /// Whether a viewer keeps reserved shortcuts from its own machine.
    pub capture_shortcuts: bool,
    /// Whether clipboard text is mirrored during a session.
    pub clipboard_sync: bool,
    /// Whether a dropped file is pasted where it was dropped.
    pub paste_dropped_files: bool,
}

/// The contents of a list of strings.
pub open spec fn texts(v: Seq<String>) -> Seq<Seq<char>> {
    v.map_values(|s: String| s@)
}

/// How many bytes a text takes.
pub open spec fn byte_len(s: Seq<char>) -> nat {
    encode_utf8(s).len()
}

/// The first members of a list, as many as fit.
pub open spec fn capped(list: Seq<Seq<char>>) -> Seq<Seq<char>> {
    if list.len() > MAX_RECENTS {
        list.take(MAX_RECENTS as int)
    } else {
        list
    }
}

/// The list of recent machines once another one is added: it stands in front,
/// and once only. A name that is empty or over 64 bytes long is not added.
pub open spec fn with_recent(list: Seq<Seq<char>>, id: Seq<char>) -> Seq<Seq<char>> {
    let clean = trimmed(id);
    if clean.len() == 0 || byte_len(clean) > 64 {
        list
    } else {
        capped(seq![clean] + others_of(list, clean))
    }
}

/// The members of a list that differ from a name.
pub open spec fn others_of(list: Seq<Seq<char>>, name: Seq<char>) -> Seq<Seq<char>> {
    list.filter(|x: Seq<char>| x != name)
}

/// The SHA-256 digest of a message, as the crate `sha2` computes it.
pub uninterp spec fn sha256(msg: Seq<u8>) -> [u8; 32];

/// Calls `sha2::Sha256::digest`, which hashes the whole message.
#[verifier::external_body]
fn hash_sha256(msg: &[u8]) -> (digest: [u8; 32])
    ensures
        digest == sha256(msg@),
{
    <sha2::Sha256 as sha2::Digest>::digest(msg).into()
}

/// Calls `hex::encode`: two lower-case digits per byte.
#[verifier::external_body]
pub(crate) fn encode_hex(bytes: &[u8]) -> (s: String)
    ensures
        s@ == hex_text(bytes@),
{
    hex::encode(bytes)
}

/// Calls `hex::decode`, which takes an even number of digits of either case
/// and fails on anything else.
#[verifier::external_body]
fn decode_hex(s: &str) -> (r: Option<Vec<u8>>)
    ensures
        r is Some <==> is_hex(s@),
        r is Some ==> r->0@ == hex_bytes(s@),
{
    hex::decode(s).ok()
}

/// What `str::to_lowercase` makes of text that is not all ASCII.
pub uninterp spec fn unicode_lowercase(s: Seq<char>) -> Seq<char>;

/// The lower-case letter of an ASCII capital; any other character as it is.
pub open spec fn lower(c: char) -> char {
    if 'A' <= c <= 'Z' {
        ((c as u32 + 32) as u8) as char
    } else {
        c
    }
}

/// A text in lower case.
pub open spec fn lowercase(s: Seq<char>) -> Seq<char> {
    if is_ascii_chars(s) {
        s.map_values(|c: char| lower(c))
    } else {
        unicode_lowercase(s)
    }
}

/// Calls `str::to_lowercase`: ASCII letters become their lower-case ones, and
/// what becomes of other text depends on that text alone. That other text in
/// lower case stays as it is when this is done again is not claimed.
#[verifier::external_body]
fn to_lowercase(s: &str) -> (out: String)
    ensures
        is_ascii_chars(s@) ==> out@ == s@.map_values(|c: char| lower(c)),
        !is_ascii_chars(s@) ==> out@ == unicode_lowercase(s@),
{
    s.to_lowercase()
}

/// The hexadecimal SHA-256 of a text.
pub open spec fn hashed(plain: Seq<char>) -> Seq<char> {
    hex_text(sha256(encode_utf8(plain))@)
}

/// What proves knowledge of a password's hash to somebody who has asked with
/// a nonce.
pub open spec fn proof_bytes(hash: Seq<char>, nonce: Seq<char>) -> Seq<u8> {
    sha256(encode_utf8(hash) + seq![58u8] + encode_utf8(nonce))@
}

/// Whether two texts are hexadecimal and stand for the same bytes, of which
/// there are some.
pub open spec fn same_hex(a: Seq<char>, b: Seq<char>) -> bool {
    is_hex(a) && is_hex(b) && hex_bytes(a) == hex_bytes(b) && hex_bytes(a).len() > 0
}

/// Whether a proof answers a nonce, for somebody whose password has this hash.
pub open spec fn proves(stored: Option<Seq<char>>, nonce: Seq<char>, given: Seq<char>) -> bool {
    stored is Some && 0 < byte_len(given) <= 128 && same_hex(
        hex_text(proof_bytes(stored->0, nonce)),
        given,
    )
}

/// Compares two hexadecimal texts in a time that does not depend on where
/// they differ. `false` if one of them is malformed or their lengths differ.
fn ct_eq_hex(a: &str, b: &str) -> (same: bool)
    ensures
        same == same_hex(a@, b@),
{
    let (ab, bb) = match (decode_hex(a), decode_hex(b)) {
        (Some(ab), Some(bb)) => (ab, bb),
        _ => {
            return false;
        },
    };
    if ab.len() != bb.len() || ab.len() == 0 {
        return false;
    }
    let n: usize = ab.len();
    let mut diff: u8 = 0;
    let mut i: usize = 0;
    assert(ab@.take(0) =~= bb@.take(0));
    while i < n
        invariant
            i <= n == ab@.len() == bb@.len(),
            diff == 0 <==> ab@.take(i as int) == bb@.take(i as int),
        decreases n - i,
    {
        let x: u8 = ab[i];
        let y: u8 = bb[i];
        let was: u8 = diff;
        diff = diff | (x ^ y);
        assert(diff == 0 <==> was == 0 && x == y) by (bit_vector)
            requires
                diff == was | (x ^ y),
        ;
        i += 1;
        proof {
            let a1 = ab@.take(i as int);
            let b1 = bb@.take(i as int);
            assert(a1 =~= ab@.take(i - 1).push(x));
            assert(b1 =~= bb@.take(i - 1).push(y));
            if a1 == b1 {
                assert(a1.drop_last() =~= ab@.take(i - 1));
                assert(b1.drop_last() =~= bb@.take(i - 1));
                assert(a1.last() == x && b1.last() == y);
            }
        }
    }
    assert(ab@.take(n as int) =~= ab@);
    assert(bb@.take(n as int) =~= bb@);
    diff == 0
}

fn copy_option(s: &Option<String>) -> (out: Option<String>)
    ensures
        out == *s,
{
    match s {
        Some(t) => Some(t.clone()),
        None => None,
    }
}

impl Clone for IceServer {
    fn clone(&self) -> (out: IceServer)
        ensures
            out == *self,
    {
        IceServer {
            urls: self.urls.clone(),
            username: copy_option(&self.username),
            credential: copy_option(&self.credential),
        }
    }
}

/// The servers that a new machine asks for its own address.
pub open spec fn is_default_ice(v: Seq<IceServer>) -> bool {
    v.len() == 1 && v[0].urls@ == "stun:stun.l.google.com:19302"@ && v[0].username is None
        && v[0].credential is None
}

/// Whether these are the settings of a machine that has none yet.
pub open spec fn is_default(c: Config) -> bool {
    &&& is_uuid(c.uuid@)
    &&& c.server_url@ == "wss://sharectrl-signal.netameta.workers.dev/ws"@
    &&& c.mode == Mode::Approve
    &&& c.password_hash is None
    &&& c.password_permission == Permission::View
    &&& is_default_ice(c.ice_servers@)
    &&& c.share_audio
    &&& c.share_display_id is None
    &&& c.recent_ids@.len() == 0
    &&& !c.capture_shortcuts
    &&& c.clipboard_sync
    &&& c.paste_dropped_files
}

impl Default for Config {
    fn default() -> (c: Config)
        ensures
            is_default(c),
    {
        let mut ice_servers: Vec<IceServer> = Vec::new();
        ice_servers.push(
            IceServer {
                urls: owned("stun:stun.l.google.com:19302"),
                username: None,
                credential: None,
            },
        );
        Config {
            uuid: new_uuid(),
            server_url: owned("wss://sharectrl-signal.netameta.workers.dev/ws"),
            mode: Mode::Approve,
            password_hash: None,
            password_permission: Permission::View,
            ice_servers,
            share_audio: true,
            share_display_id: None,
            recent_ids: Vec::new(),
            capture_shortcuts: false,
            clipboard_sync: true,
            paste_dropped_files: true,
        }
    }
}

/// The stored hash as a sequence.
pub open spec fn stored_hash(c: Config) -> Option<Seq<char>> {
    match c.password_hash {
        Some(h) => Some(h@),
        None => None,
    }
}

/// The mode that counts: without a password, asking for one means asking for
/// approval.
pub open spec fn counting_mode(c: Config) -> Mode {
    if c.password_hash is None {
        Mode::Approve
    } else {
        c.mode
    }
}

/// What is left of a list once the names of over 64 bytes are gone.
pub open spec fn short_names(list: Seq<Seq<char>>) -> Seq<Seq<char>> {
    list.filter(|x: Seq<char>| byte_len(x) <= 64)
}

/// Keeps the names of a list that differ from `clean`.
fn others(list: &Vec<String>, clean: &str, out: &mut Vec<String>)
    ensures
        texts(final(out)@) == texts(old(out)@) + others_of(texts(list@), clean@),
{
    let keep = Ghost(|x: Seq<char>| x != clean@);
    let n: usize = list.len();
    let mut i: usize = 0;
    proof {
        reveal(Seq::filter);
    }
    assert(texts(list@).take(0) =~= seq![]);
    assert(texts(out@) =~= texts(old(out)@) + seq![]);
    while i < n
        invariant
            i <= n == list@.len(),
            keep@ == (|x: Seq<char>| x != clean@),
            texts(out@) == texts(old(out)@) + texts(list@).take(i as int).filter(keep@),
        decreases n - i,
    {
        proof {
            let longer = texts(list@).take(i + 1);
            assert(longer.drop_last() =~= texts(list@).take(i as int));
            reveal(Seq::filter);
        }
        let ghost before = out@;
        if !same_text(list[i].as_str(), clean) {
            out.push(list[i].clone());
            assert(texts(out@) =~= texts(before).push(texts(list@)[i as int]));
        }
        i += 1;
        assert(texts(out@) =~= texts(old(out)@) + texts(list@).take(i as int).filter(keep@));
    }
    assert(texts(list@).take(n as int) =~= texts(list@));
}

impl Config {
    /// The hexadecimal SHA-256 of a text.
    pub fn hash(plain: &str) -> (h: String)
        ensures
            h@ == hashed(plain@),
    {
        let digest: [u8; 32] = hash_sha256(plain.as_bytes());
        encode_hex(digest.as_slice())
    }

    /// Whether this is the password.
    pub fn verify_password(&self, plain: &str) -> (ok: bool)
        ensures
            ok == (self.password_hash is Some && same_hex(
                hashed(plain@),
                self.password_hash->0@,
            )),
    {
        match &self.password_hash {
            Some(stored) => {
                let h: String = Self::hash(plain);
                ct_eq_hex(h.as_str(), stored.as_str())
            },
            None => false,
        }
    }

    /// Whether a proof shows knowledge of the password. The viewer sends the
    /// hash of the password's hash and of the nonce that it was asked with, so
    /// the password itself never travels.
    pub fn verify_proof(&self, nonce: &str, given: &str) -> (ok: bool)
        ensures
            ok == proves(stored_hash(*self), nonce@, given@),
    {
        let stored: &String = match &self.password_hash {
            Some(s) => s,
            None => {
                return false;
            },
        };
        let n: usize = given.as_bytes().len();
        if n == 0 || n > 128 {
            return false;
        }
        let expected: String = prove(stored.as_str(), nonce);
        ct_eq_hex(expected.as_str(), given)
    }

    /// Sets or clears the password. Only its hash is kept.
    pub fn set_password(&mut self, plain: Option<&str>)
        ensures
            *final(self) == (Config {
                password_hash: final(self).password_hash,
                ..*old(self)
            }),
            final(self).password_hash is Some <==> plain is Some,
            plain is Some ==> final(self).password_hash->0@ == hashed(plain->0@),
    {
        self.password_hash = match plain {
            Some(p) => Some(Self::hash(p)),
            None => None,
        };
    }

    /// Puts a machine in front of the recent ones, once.
    pub fn add_recent(&mut self, id: &str)
        ensures
            *final(self) == (Config { recent_ids: final(self).recent_ids, ..*old(self) }),
            texts(final(self).recent_ids@) == with_recent(texts(old(self).recent_ids@), id@),
    {
        let all: Vec<char> = chars_of(id);
        let clean_chars: Vec<char> = trim_space(all.as_slice());
        let clean: String = string_of(clean_chars.as_slice());
        if clean_chars.len() == 0 || clean.as_str().as_bytes().len() > 64 {
            return;
        }
        let mut out: Vec<String> = Vec::new();
        out.push(clean.clone());
        others(&self.recent_ids, clean.as_str(), &mut out);
        let ghost whole = seq![clean@] + others_of(texts(self.recent_ids@), clean@);
        assert(texts(out@) =~= whole);
        out.truncate(MAX_RECENTS);
        assert(texts(out@) =~= capped(whole));
        self.recent_ids = out;
    }

    /// Empties the list of recent machines.
    pub fn clear_recents(&mut self)
        ensures
            *final(self) == (Config { recent_ids: final(self).recent_ids, ..*old(self) }),
            final(self).recent_ids@.len() == 0,
    {
        self.recent_ids = Vec::new();
    }

    /// Repairs settings that were read from a file: the identifier in lower
    /// case, no overlong names among the recent machines, and not too many.
    pub fn normalize(&mut self)
        ensures
            *final(self) == (Config {
                uuid: final(self).uuid,
                recent_ids: final(self).recent_ids,
                ..*old(self)
            }),
            final(self).uuid@ == lowercase(old(self).uuid@),
            texts(final(self).recent_ids@) == capped(short_names(texts(old(self).recent_ids@))),
    {
        self.uuid = to_lowercase(self.uuid.as_str());
        let keep = Ghost(|x: Seq<char>| byte_len(x) <= 64);
        let mut out: Vec<String> = Vec::new();
        let n: usize = self.recent_ids.len();
        let ghost list = texts(self.recent_ids@);
        let mut i: usize = 0;
        proof {
            reveal(Seq::filter);
        }
        assert(list.take(0) =~= seq![]);
        assert(texts(out@) =~= seq![]);
        while i < n
            invariant
                i <= n == self.recent_ids@.len(),
                list == texts(self.recent_ids@),
                keep@ == (|x: Seq<char>| byte_len(x) <= 64),
                texts(out@) == list.take(i as int).filter(keep@),
            decreases n - i,
        {
            proof {
                assert(list.take(i + 1).drop_last() =~= list.take(i as int));
                reveal(Seq::filter);
            }
            let ghost before = out@;
            if self.recent_ids[i].as_str().as_bytes().len() <= 64 {
                out.push(self.recent_ids[i].clone());
                assert(texts(out@) =~= texts(before).push(list[i as int]));
            }
            i += 1;
        }
        assert(list.take(n as int) =~= list);
        let ghost whole = out@;
        out.truncate(MAX_RECENTS);
        assert(texts(out@) =~= capped(texts(whole)));
        self.recent_ids = out;
    }

    /// The mode that counts.
    pub fn effective_mode(&self) -> (m: Mode)
        ensures
            m == counting_mode(*self),
    {
        match (&self.password_hash, self.mode) {
            (Some(_), m) => m,
            (None, _) => Mode::Approve,
        }
    }

    /// The settings to start with, given what the settings file holds, and
    /// what must happen to the file.
    pub fn load(stored: Stored) -> (r: (Config, FileAction))
        ensures
            loaded(stored, r.0, r.1),
    {
        match stored {
            Stored::Missing => (Config::default(), FileAction::Write),
            Stored::Corrupt => (Config::default(), FileAction::BackUpAndWrite),
            Stored::Good { config, has_uuid } => {
                let mut cfg: Config = config;
                cfg.normalize();
                if has_uuid {
                    (cfg, FileAction::Keep)
                } else {
                    cfg.uuid = new_uuid();
                    (cfg, FileAction::Write)
                }
            },
        }
    }

    /// Changes the settings that a patch names, and no others.
    pub fn apply(&mut self, patch: SettingsPatch)
        ensures
            patched(*old(self), patch, *final(self)),
    {
        self.mode = match &patch.mode {
            Some(name) => mode_of(name.as_str()),
            None => self.mode,
        };
        self.password_hash = match patch.password {
            Some(pw) => hash_unless_empty(pw.as_str()),
            None => copy_option(&self.password_hash),
        };
        self.password_permission = match &patch.password_permission {
            Some(name) => Permission::parse(name.as_str()),
            None => self.password_permission,
        };
        self.server_url = match patch.server_url {
            Some(url) => url,
            None => self.server_url.clone(),
        };
        self.share_audio = patch.share_audio.unwrap_or(self.share_audio);
        self.capture_shortcuts = patch.capture_shortcuts.unwrap_or(self.capture_shortcuts);
        self.share_display_id = match patch.share_display_id {
            Some(id) => unless_empty(id),
            None => copy_option(&self.share_display_id),
        };
    }
}

/// The mode of a name. Anything but `password` is `approve`.
pub open spec fn named_mode(name: Seq<char>) -> Mode {
    if name == "password"@ {
        Mode::Password
    } else {
        Mode::Approve
    }
}

fn mode_of(name: &str) -> (m: Mode)
    ensures
        m == named_mode(name@),
{
    if same_text(name, "password") {
        Mode::Password
    } else {
        Mode::Approve
    }
}

fn hash_unless_empty(plain: &str) -> (h: Option<String>)
    ensures
        h is Some <==> plain@.len() > 0,
        h is Some ==> h->0@ == hashed(plain@),
{
    if plain.is_empty() {
        None
    } else {
        Some(Config::hash(plain))
    }
}

fn unless_empty(s: Option<String>) -> (r: Option<String>)
    ensures
        r == (if s is Some && s->0@.len() > 0 {
            s
        } else {
            None
        }),
{
    match s {
        Some(t) => if t.as_str().is_empty() {
            None
        } else {
            Some(t)
        },
        None => None,
    }
}

/// What the settings file holds.
#[derive(Debug)]
pub enum Stored {
    /// There is none, or it cannot be read.
    Missing,
    /// It does not make sense.
    Corrupt,
    /// It holds settings. One that names no identifier leaves `uuid` open, and
    /// then what stands there does not count.
    Good { config: Config, has_uuid: bool },
}

/// What must happen to the settings file.
#[derive(Debug, Clone, Copy, PartialEq, Eq, Structural)]
pub enum FileAction {
    Keep,
    Write,
    /// Set it aside, then write a new one.
    BackUpAndWrite,
}

/// Whether a machine starts with the settings `c`, given what its settings file
/// holds, and `action` is what must happen to the file. A machine without an
/// identifier gets one, and then it is written down at once.
pub open spec fn loaded(stored: Stored, c: Config, action: FileAction) -> bool {
    match stored {
        Stored::Missing => is_default(c) && action == FileAction::Write,
        Stored::Corrupt => is_default(c) && action == FileAction::BackUpAndWrite,
        Stored::Good { config, has_uuid } => {
            &&& c == (Config { uuid: c.uuid, recent_ids: c.recent_ids, ..config })
            &&& texts(c.recent_ids@) == capped(short_names(texts(config.recent_ids@)))
            &&& has_uuid ==> c.uuid@ == lowercase(config.uuid@) && action == FileAction::Keep
            &&& !has_uuid ==> is_uuid(c.uuid@) && action == FileAction::Write
        },
    }
}

/// Changes to the settings; what is `None` stays. An empty password clears it.
#[derive(Debug)]
pub struct SettingsPatch {
    pub mode: Option<String>,
    pub password: Option<String>,
    pub password_permission: Option<String>,
    pub server_url: Option<String>,
    pub share_audio: Option<bool>,
    pub capture_shortcuts: Option<bool>,
    /// `Some(None)`, like an empty name, means the primary display.
    pub share_display_id: Option<Option<String>>,
}

/// Whether `after` is `before` with the changes of a patch.
pub open spec fn patched(before: Config, patch: SettingsPatch, after: Config) -> bool {
    &&& after == (Config {
        mode: after.mode,
        password_hash: after.password_hash,
        password_permission: after.password_permission,
        server_url: after.server_url,
        share_audio: after.share_audio,
        capture_shortcuts: after.capture_shortcuts,
        share_display_id: after.share_display_id,
        ..before
    })
    &&& after.mode == (match patch.mode {
        Some(m) => named_mode(m@),
        None => before.mode,
    })
    &&& stored_hash(after) == (match patch.password {
        Some(pw) => if pw@.len() == 0 {
            None
        } else {
            Some(hashed(pw@))
        },
        None => stored_hash(before),
    })
    &&& after.password_permission == (match patch.password_permission {
        Some(p) => permission_of(p@),
        None => before.password_permission,
    })
    &&& after.server_url@ == (match patch.server_url {
        Some(url) => url@,
        None => before.server_url@,
    })
    &&& after.share_audio == (match patch.share_audio {
        Some(b) => b,
        None => before.share_audio,
    })
    &&& after.capture_shortcuts == (match patch.capture_shortcuts {
        Some(b) => b,
        None => before.capture_shortcuts,
    })
    &&& after.share_display_id == (match patch.share_display_id {
        Some(Some(id)) => if id@.len() == 0 {
            None
        } else {
            Some(id)
        },
        Some(None) => None,
        None => before.share_display_id,
    })
}

/// The proof that answers a nonce, for a password of this hash.
pub(crate) fn prove(hash: &str, nonce: &str) -> (out: String)
    ensures
        out@ == hex_text(proof_bytes(hash@, nonce@)),
{
    let mut msg: Vec<u8> = Vec::new();
    append_bytes(&mut msg, hash.as_bytes());
    msg.push(58);
    append_bytes(&mut msg, nonce.as_bytes());
    assert(msg@ =~= encode_utf8(hash@) + seq![58u8] + encode_utf8(nonce@));
    let digest: [u8; 32] = hash_sha256(msg.as_slice());
    encode_hex(digest.as_slice())
}

proof fn lemma_hex_is_ascii(bytes: Seq<u8>)
    ensures
        byte_len(hex_text(bytes)) == 2 * bytes.len(),
{
    let s = hex_text(bytes);
    assert forall|i: int| 0 <= i < s.len() implies (#[trigger] s[i]) as u32 <= 127 by {
        assert(s[i] == hex_digit(
            if i % 2 == 0 {
                bytes[i / 2] as int / 16
            } else {
                bytes[i / 2] as int % 16
            },
        ));
    }
    assert(is_ascii_chars(s));
    is_ascii_chars_encode_utf8(s);
}

/// Whoever knows the password gets in: the proof that is computed from it
/// answers any nonce.
pub proof fn law_password_lets_in(plain: Seq<char>, nonce: Seq<char>)
    ensures
        proves(Some(hashed(plain)), nonce, hex_text(proof_bytes(hashed(plain), nonce))),
{
    let b = proof_bytes(hashed(plain), nonce);
    law_hex_reads_back(b);
    lemma_hex_is_ascii(b);
}

/// The password itself is recognised as well.
pub proof fn law_password_is_recognised(plain: Seq<char>)
    ensures
        same_hex(hashed(plain), hashed(plain)),
{
    law_hex_reads_back(sha256(encode_utf8(plain))@);
}

/// A proof is accepted exactly if it is the digest that is expected, written
/// in hexadecimal of either case.
pub proof fn law_proof_must_be_the_digest(hash: Seq<char>, nonce: Seq<char>, given: Seq<char>)
    requires
        proves(Some(hash), nonce, given),
    ensures
        hex_bytes(given) == proof_bytes(hash, nonce),
{
    law_hex_reads_back(proof_bytes(hash, nonce));
}

/// Without a password nobody gets in by one.
pub proof fn law_no_password_no_entry(nonce: Seq<char>, given: Seq<char>)
    ensures
        !proves(None, nonce, given),
{
}

proof fn lemma_filter_bound(list: Seq<Seq<char>>, clean: Seq<char>)
    ensures
        !others_of(list, clean).contains(clean),
        others_of(list, clean).len() <= list.len(),
        list.no_duplicates() ==> others_of(list, clean).no_duplicates(),
        forall|x: Seq<char>|
            others_of(list, clean).contains(x) ==> #[trigger] list.contains(x),
    decreases list.len(),
{
    reveal(Seq::filter);
    if list.len() > 0 {
        let rest = list.drop_last();
        lemma_filter_bound(rest, clean);
        let kept = others_of(rest, clean);
        let all = others_of(list, clean);
        assert forall|x: Seq<char>| all.contains(x) implies #[trigger] list.contains(x) by {
            let i = all.index_of(x);
            if i < kept.len() {
                assert(kept[i] == x);
                assert(kept.contains(x));
                assert(rest.contains(x));
                assert(list[rest.index_of(x)] == x);
            } else {
                assert(list[list.len() - 1] == x);
            }
        }
        if list.last() != clean {
            assert(all == kept.push(list.last()));
            if all.contains(clean) {
                let i = all.index_of(clean);
                assert(i < kept.len());
                assert(kept[i] == clean);
            }
            if list.no_duplicates() {
                assert(rest.no_duplicates());
                if kept.contains(list.last()) {
                    assert(rest.contains(list.last()));
                    let i = rest.index_of(list.last());
                    assert(list[i] == list[list.len() - 1]);
                }
                assert forall|i: int, j: int| 0 <= i < j < all.len() implies all[i] != all[j] by {
                    if j < kept.len() {
                        assert(kept[i] == all[i] && kept[j] == all[j]);
                    } else {
                        assert(kept[i] == all[i]);
                        assert(kept.contains(kept[i]));
                    }
                }
            }
        }
    }
}

/// The list of recent machines never names one twice and never grows over its
/// limit, and the newest stands in front.
pub proof fn law_recents_stay_distinct_and_few(list: Seq<Seq<char>>, id: Seq<char>)
    requires
        list.no_duplicates(),
        list.len() <= MAX_RECENTS,
    ensures
        with_recent(list, id).no_duplicates(),
        with_recent(list, id).len() <= MAX_RECENTS,
        0 < trimmed(id).len() && byte_len(trimmed(id)) <= 64 ==> with_recent(list, id)[0]
            == trimmed(id),
{
    let clean = trimmed(id);
    lemma_filter_bound(list, clean);
    let kept = others_of(list, clean);
    let whole = seq![clean] + kept;
    assert forall|i: int, j: int| 0 <= i < j < whole.len() implies whole[i] != whole[j] by {
        if i == 0 {
            assert(whole[j] == kept[j - 1]);
            assert(kept.contains(kept[j - 1]));
        } else {
            assert(whole[i] == kept[i - 1] && whole[j] == kept[j - 1]);
        }
    }
    assert(whole.no_duplicates());
    assert(capped(whole).no_duplicates());
}

/// Repairing settings leaves a valid identifier as it is.
pub proof fn law_normalizing_keeps_valid_ids(id: Seq<char>)
    requires
        is_uuid(id),
    ensures
        lowercase(id) == id,
{
    assert forall|i: int| 0 <= i < id.len() implies (#[trigger] id[i]) as u32 <= 127 && lower(
        id[i],
    ) == id[i] by {
        assert(fits_uuid(i, id[i]));
    }
    assert(is_ascii_chars(id));
    assert(id.map_values(|c: char| lower(c)) =~= id);
}

/// The machine's address never changes. If the settings file is kept, starting
/// again from it gives the same identifier; if it is written, starting again
/// from what was written does.
pub proof fn law_address_never_changes(
    stored: Stored,
    first: Config,
    action: FileAction,
    again: Config,
    next: FileAction,
)
    requires
        loaded(stored, first, action),
        loaded(
            if action == FileAction::Keep {
                stored
            } else {
                Stored::Good { config: first, has_uuid: true }
            },
            again,
            next,
        ),
    ensures
        again.uuid@ == first.uuid@,
        next == FileAction::Keep,
{
    if action != FileAction::Keep {
        law_normalizing_keeps_valid_ids(first.uuid@);
    }
}

proof fn lemma_short_names_are_short(list: Seq<Seq<char>>)
    ensures
        forall|i: int|
            0 <= i < short_names(list).len() ==> byte_len(#[trigger] short_names(list)[i]) <= 64,
    decreases list.len(),
{
    reveal(Seq::filter);
    if list.len() > 0 {
        lemma_short_names_are_short(list.drop_last());
    }
}

proof fn lemma_short_names_stay(list: Seq<Seq<char>>)
    requires
        forall|i: int| 0 <= i < list.len() ==> byte_len(#[trigger] list[i]) <= 64,
    ensures
        short_names(list) == list,
    decreases list.len(),
{
    reveal(Seq::filter);
    if list.len() > 0 {
        let rest = list.drop_last();
        assert forall|i: int| 0 <= i < rest.len() implies byte_len(#[trigger] rest[i]) <= 64 by {
            assert(rest[i] == list[i]);
        }
        lemma_short_names_stay(rest);
        assert(byte_len(list[list.len() - 1]) <= 64);
        assert(rest.push(list.last()) =~= list);
    } else {
        assert(short_names(list) =~= list);
    }
}

/// Repairing settings twice is repairing them once: the list of recent
/// machines stays as it is, and so does an identifier in ASCII.
pub proof fn law_normalizing_twice_is_once(id: Seq<char>, list: Seq<Seq<char>>)
    ensures
        is_ascii_chars(id) ==> lowercase(lowercase(id)) == lowercase(id),
        capped(short_names(capped(short_names(list)))) == capped(short_names(list)),
{
    if is_ascii_chars(id) {
        let low = id.map_values(|c: char| lower(c));
        assert forall|i: int| 0 <= i < low.len() implies (#[trigger] low[i]) as u32 <= 127
            && lower(low[i]) == low[i] by {
            assert(low[i] == lower(id[i]));
            assert(id[i] as u32 <= 127);
        }
        assert(is_ascii_chars(low));
        assert(low.map_values(|c: char| lower(c)) =~= low);
    }
    let short = short_names(list);
    lemma_short_names_are_short(list);
    let kept = capped(short);
    assert forall|i: int| 0 <= i < kept.len() implies byte_len(#[trigger] kept[i]) <= 64 by {
        assert(kept[i] == short[i]);
    }
    lemma_short_names_stay(kept);
}

/// Permissions and modes go by one word each; any other word means the one that
/// lets less happen.
pub proof fn law_only_these_words_grant(name: Seq<char>)
    ensures
        permission_of(name) == Permission::Control <==> name == seq![
            'c',
            'o',
            'n',
            't',
            'r',
            'o',
            'l',
        ],
        permission_name(Permission::Control) == seq!['c', 'o', 'n', 't', 'r', 'o', 'l'],
        permission_name(Permission::View) == seq!['v', 'i', 'e', 'w'],
        named_mode(name) == Mode::Password <==> name == seq![
            'p',
            'a',
            's',
            's',
            'w',
            'o',
            'r',
            'd',
        ],
{
    reveal_strlit("control");
    reveal_strlit("view");
    reveal_strlit("password");
    assert("control"@ =~= seq!['c', 'o', 'n', 't', 'r', 'o', 'l']);
    assert("view"@ =~= seq!['v', 'i', 'e', 'w']);
    assert("password"@ =~= seq!['p', 'a', 's', 's', 'w', 'o', 'r', 'd']);
}

/// What is kept of a password is its SHA-256 digest, in 64 digits.
pub proof fn law_only_the_digest_is_kept(plain: Seq<char>)
    ensures
        hashed(plain).len() == 64,
        is_hex(hashed(plain)),
        hex_bytes(hashed(plain)) == sha256(encode_utf8(plain))@,
{
    law_hex_reads_back(sha256(encode_utf8(plain))@);
}

/// A proof gets in exactly if it is the digest of the stored hash, a colon and
/// the nonce, in hexadecimal of either case. Nothing else does: not the hash
/// itself, not a proof for another nonce, and nothing at all without a password.
pub proof fn law_only_the_right_proof_gets_in(
    stored: Option<Seq<char>>,
    nonce: Seq<char>,
    given: Seq<char>,
)
    ensures
        stored is None ==> !proves(stored, nonce, given),
        stored is Some ==> (proves(stored, nonce, given) <==> is_hex(given) && hex_bytes(given)
            == sha256(encode_utf8(stored->0) + seq![0x3au8] + encode_utf8(nonce))@),
{
    if stored is Some {
        let digest = sha256(encode_utf8(stored->0) + seq![0x3au8] + encode_utf8(nonce))@;
        law_hex_reads_back(digest);
        if is_hex(given) && hex_bytes(given) == digest {
            assert(given.len() == 64);
            assert forall|i: int| 0 <= i < given.len() implies (#[trigger] given[i]) as u32
                <= 127 by {
                crate::secret::law_hex_reads_either_case(given, 0);
            }
            assert(is_ascii_chars(given));
            is_ascii_chars_encode_utf8(given);
        }
    }
}

/// Asking for a password counts only where there is one.
pub proof fn law_password_mode_needs_a_password(c: Config)
    ensures
        counting_mode(c) == Mode::Password <==> c.mode == Mode::Password && c.password_hash is Some,
{
}

/// A machine that has no settings yet asks for each viewer, has no password,
/// would let viewers in to watch only, asks the public server for its address,
/// mirrors the clipboard, pastes what is dropped, shares its sound, and leaves
/// shortcuts to itself. Its file is written, and a bad one is set aside first.
pub proof fn law_new_machines_are_careful(stored: Stored, c: Config, action: FileAction)
    requires
        loaded(stored, c, action),
        stored is Missing || stored is Corrupt,
    ensures
        is_uuid(c.uuid@),
        c.mode == Mode::Approve,
        c.password_hash is None,
        c.password_permission == Permission::View,
        c.server_url@ == "wss://sharectrl-signal.netameta.workers.dev/ws"@,
        c.ice_servers@.len() == 1,
        c.ice_servers@[0].urls@ == "stun:stun.l.google.com:19302"@,
        c.ice_servers@[0].username is None && c.ice_servers@[0].credential is None,
        c.recent_ids@.len() == 0,
        c.share_display_id is None,
        c.share_audio && c.clipboard_sync && c.paste_dropped_files && !c.capture_shortcuts,
        action == (if stored is Missing {
            FileAction::Write
        } else {
            FileAction::BackUpAndWrite
        }),
{
}

/// Settings that were read are the settings: nothing is changed but what needs
/// repair. A good identifier is kept and the file too; a missing one is made up
/// and written down.
pub proof fn law_read_settings_are_kept(
    config: Config,
    has_uuid: bool,
    c: Config,
    action: FileAction,
)
    requires
        loaded(Stored::Good { config, has_uuid }, c, action),
    ensures
        c.server_url == config.server_url,
        c.mode == config.mode,
        c.password_hash == config.password_hash,
        c.password_permission == config.password_permission,
        c.ice_servers == config.ice_servers,
        c.share_audio == config.share_audio,
        c.share_display_id == config.share_display_id,
        c.capture_shortcuts == config.capture_shortcuts,
        c.clipboard_sync == config.clipboard_sync,
        c.paste_dropped_files == config.paste_dropped_files,
        has_uuid ==> action == FileAction::Keep,
        has_uuid && is_uuid(config.uuid@) ==> c.uuid@ == config.uuid@,
        !has_uuid ==> action == FileAction::Write && is_uuid(c.uuid@),
        config.recent_ids@.len() <= 10 && (forall|i: int|
            0 <= i < config.recent_ids@.len() ==> byte_len((#[trigger] config.recent_ids@[i])@)
                <= 64) ==> texts(c.recent_ids@) == texts(config.recent_ids@),
{
    if has_uuid && is_uuid(config.uuid@) {
        law_normalizing_keeps_valid_ids(config.uuid@);
    }
    let list = texts(config.recent_ids@);
    if forall|i: int|
        0 <= i < config.recent_ids@.len() ==> byte_len((#[trigger] config.recent_ids@[i])@) <= 64 {
        assert forall|i: int| 0 <= i < list.len() implies byte_len(#[trigger] list[i]) <= 64 by {
            assert(list[i] == config.recent_ids@[i]@);
        }
        lemma_short_names_stay(list);
    }
}

/// Repairing puts capital ASCII letters of an identifier in lower case and
/// leaves every other character.
pub proof fn law_identifiers_go_to_lower_case(id: Seq<char>, i: int)
    requires
        is_ascii_chars(id),
        0 <= i < id.len(),
    ensures
        lowercase(id).len() == id.len(),
        'A' <= id[i] <= 'Z' ==> lowercase(id)[i] as u32 == id[i] as u32 + 32,
        !('A' <= id[i] <= 'Z') ==> lowercase(id)[i] == id[i],
{
    lemma_lower(id[i]);
}

proof fn lemma_lower(c: char)
    ensures
        'A' <= c <= 'Z' ==> lower(c) as u32 == c as u32 + 32,
{
}

/// Repairing a list of recent machines keeps its order, drops the names of over
/// 64 bytes and no others, and keeps the first ten of the rest.
pub proof fn law_recents_are_repaired(a: Seq<Seq<char>>, name: Seq<char>, b: Seq<Seq<char>>)
    ensures
        byte_len(name) > 64 ==> short_names(a + seq![name] + b) == short_names(a) + short_names(b),
        byte_len(name) <= 64 ==> short_names(a + seq![name] + b) == short_names(a) + seq![name]
            + short_names(b),
        short_names(Seq::<Seq<char>>::empty()).len() == 0,
        a.len() <= 10 ==> capped(a) == a,
        a.len() > 10 ==> capped(a) == a.take(10),
{
    let short = |x: Seq<char>| byte_len(x) <= 64;
    let one = seq![name];
    Seq::filter_distributes_over_add(a + one, b, short);
    Seq::filter_distributes_over_add(a, one, short);
    reveal(Seq::filter);
    assert(one.drop_last().len() == 0);
    assert(one.drop_last().filter(short) =~= seq![]);
    if byte_len(name) > 64 {
        assert(one.filter(short) =~= seq![]);
        assert(short_names(a + one + b) =~= short_names(a) + short_names(b));
    } else {
        assert(one.filter(short) =~= one);
        assert(short_names(a + one + b) =~= short_names(a) + one + short_names(b));
    }
    assert(Seq::<Seq<char>>::empty().filter(short).len() == 0);
}

/// Whoever was connected to goes to the front of the recent machines, and the
/// others keep their order behind, as many as there is room for.
pub proof fn law_newest_goes_to_the_front(a: Seq<Seq<char>>, id: Seq<char>, b: Seq<Seq<char>>)
    requires
        id.len() > 0,
        '!' <= id[0] <= '~',
        '!' <= id.last() <= '~',
        byte_len(id) <= 64,
        !a.contains(id),
        !b.contains(id),
        a.len() + b.len() <= 9,
    ensures
        with_recent(a + b, id) == seq![id] + a + b,
        with_recent(a + seq![id] + b, id) == seq![id] + a + b,
{
    crate::text::law_only_white_space_is_trimmed(seq![], id, seq![]);
    assert(seq![] + id + seq![] =~= id);
    let one = seq![id];
    lemma_others_all(a, id);
    lemma_others_all(b, id);
    lemma_others_split(a, b, id);
    lemma_others_split(a + one, b, id);
    lemma_others_split(a, one, id);
    assert(others_of(one, id) =~= seq![]) by {
        reveal(Seq::filter);
        assert(one.drop_last() =~= seq![]);
    }
    assert(seq![id] + (a + b) =~= seq![id] + a + b);
    assert(others_of(a + one + b, id) =~= a + b);
}

proof fn lemma_others_split(a: Seq<Seq<char>>, b: Seq<Seq<char>>, name: Seq<char>)
    ensures
        others_of(a + b, name) == others_of(a, name) + others_of(b, name),
    decreases b.len(),
{
    reveal(Seq::filter);
    if b.len() == 0 {
        assert(a + b =~= a);
        assert(others_of(a, name) + others_of(b, name) =~= others_of(a, name));
    } else {
        lemma_others_split(a, b.drop_last(), name);
        assert((a + b).drop_last() =~= a + b.drop_last());
        assert(others_of(a + b, name) =~= others_of(a, name) + others_of(b, name));
    }
}

proof fn lemma_others_all(list: Seq<Seq<char>>, name: Seq<char>)
    requires
        !list.contains(name),
    ensures
        others_of(list, name) == list,
    decreases list.len(),
{
    reveal(Seq::filter);
    if list.len() > 0 {
        let rest = list.drop_last();
        assert forall|i: int| 0 <= i < rest.len() implies #[trigger] rest[i] != name by {
            assert(rest[i] == list[i]);
        }
        lemma_others_all(rest, name);
        assert(list[list.len() - 1] != name);
        assert(rest.push(list.last()) =~= list);
    } else {
        assert(others_of(list, name) =~= list);
    }
}

/// A name that is empty, or only white space, or over 64 bytes long is not
/// remembered.
pub proof fn law_some_names_are_not_remembered(list: Seq<Seq<char>>, id: Seq<char>)
    requires
        (forall|i: int| 0 <= i < id.len() ==> #[trigger] id[i] == ' ') || id.len() > 0 && '!'
            <= id[0] <= '~' && '!' <= id.last() <= '~' && byte_len(id) > 64,
    ensures
        with_recent(list, id) == list,
{
    if forall|i: int| 0 <= i < id.len() ==> #[trigger] id[i] == ' ' {
        crate::text::law_only_white_space_is_trimmed(id, seq!['x'], seq![]);
    } else {
        crate::text::law_only_white_space_is_trimmed(seq![], id, seq![]);
        assert(seq![] + id + seq![] =~= id);
    }
}

/// A change of settings changes what it names, to what it names, and nothing
/// else. An empty password takes the password away, and an empty display means
/// the primary one.
pub proof fn law_changes_are_what_they_name(before: Config, patch: SettingsPatch, after: Config)
    requires
        patched(before, patch, after),
    ensures
        after.uuid == before.uuid,
        after.ice_servers == before.ice_servers,
        after.recent_ids == before.recent_ids,
        after.clipboard_sync == before.clipboard_sync,
        after.paste_dropped_files == before.paste_dropped_files,
        patch.mode is None ==> after.mode == before.mode,
        patch.mode is Some ==> (after.mode == Mode::Password <==> patch.mode->0@ == "password"@),
        patch.password is None ==> stored_hash(after) == stored_hash(before),
        patch.password is Some && patch.password->0@.len() == 0 ==> after.password_hash is None,
        patch.password is Some && patch.password->0@.len() > 0 ==> after.password_hash is Some
            && after.password_hash->0@ == hashed(patch.password->0@),
        patch.password_permission is None ==> after.password_permission
            == before.password_permission,
        patch.password_permission is Some ==> (after.password_permission == Permission::Control
            <==> patch.password_permission->0@ == "control"@),
        patch.server_url is None ==> after.server_url@ == before.server_url@,
        patch.server_url is Some ==> after.server_url@ == patch.server_url->0@,
        after.share_audio == (if patch.share_audio is Some {
            patch.share_audio->0
        } else {
            before.share_audio
        }),
        after.capture_shortcuts == (if patch.capture_shortcuts is Some {
            patch.capture_shortcuts->0
        } else {
            before.capture_shortcuts
        }),
        patch.share_display_id is None ==> after.share_display_id == before.share_display_id,
        patch.share_display_id is Some && patch.share_display_id->0 is None
            ==> after.share_display_id is None,
        patch.share_display_id matches Some(Some(id)) ==> after.share_display_id == (if id@.len()
            > 0 {
            Some(id)
        } else {
            None
        }),
{
    if patch.password is Some && patch.password->0@.len() > 0 {
        assert(stored_hash(after) is Some);
    }
}

} // verus!
