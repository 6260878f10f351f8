//! Approval, and the challenge and response, of a connection request.

use vstd::prelude::*;

use crate::config::{hashed, proof_bytes, prove, Config, Permission};
use crate::config::encode_hex;
use crate::random::random_bytes;
use crate::secret::hex_text;
use crate::text::same_text;

verus! {

/// What the user of the host says to a viewer who wants in.
#[derive(Debug, Clone, Copy, PartialEq, Eq, Structural)]
pub enum ApprovalDecision {
    Deny,
    /// Nobody answered in time, which counts as a refusal.
    TimedOut,
    Allow(Permission),
}

/// How long the user of the host has to answer.
pub const APPROVAL_TIMEOUT_MS: u64 = 30_000;

/// Answers for the user of the host, who may take their time.
pub trait Decider {
    fn decide(&self, from: &str) -> ApprovalDecision;
}

/// Denies everything: the safe default while nobody can be asked.
#[derive(Debug, Clone, Copy)]
pub struct DenyAll;

impl Decider for DenyAll {
    fn decide(&self, from: &str) -> (d: ApprovalDecision)
        ensures
            d == ApprovalDecision::Deny,
    {
        ApprovalDecision::Deny
    }
}

/// The decision that a name stands for. Anything unknown is a refusal.
pub open spec fn named_decision(name: Seq<char>) -> ApprovalDecision {
    if name == "control"@ {
        ApprovalDecision::Allow(Permission::Control)
    } else if name == "view"@ {
        ApprovalDecision::Allow(Permission::View)
    } else {
        ApprovalDecision::Deny
    }
}

impl ApprovalDecision {
    /// The decision that a name stands for.
    pub fn parse(name: &str) -> (d: ApprovalDecision)
        ensures
            d == named_decision(name@),
    {
        if same_text(name, "control") {
            ApprovalDecision::Allow(Permission::Control)
        } else if same_text(name, "view") {
            ApprovalDecision::Allow(Permission::View)
        } else {
            ApprovalDecision::Deny
        }
    }
}

/// Sixteen random bytes as lower-case hexadecimal text.
pub fn random_nonce() -> (nonce: String)
    ensures
        nonce@.len() == 32,
        exists|bytes: Seq<u8>| bytes.len() == 16 && nonce@ == #[trigger] hex_text(bytes),
{
    let bytes: Vec<u8> = random_bytes(16);
    let nonce: String = encode_hex(bytes.as_slice());
    assert(nonce@ == hex_text(bytes@));
    nonce
}

/// The proof by which a viewer shows that it knows the password.
pub fn compute_proof(plaintext: &str, nonce: &str) -> (out: String)
    ensures
        out@ == hex_text(proof_bytes(hashed(plaintext@), nonce@)),
{
    let hash: String = Config::hash(plaintext);
    prove(hash.as_str(), nonce)
}

/// Only the words `control` and `view` let a viewer in, each to what it says.
pub proof fn law_only_two_words_let_in(name: Seq<char>)
    ensures
        named_decision(name) == ApprovalDecision::Allow(Permission::Control) <==> name == seq![
            'c',
            'o',
            'n',
            't',
            'r',
            'o',
            'l',
        ],
        named_decision(name) == ApprovalDecision::Allow(Permission::View) <==> name == seq![
            'v',
            'i',
            'e',
            'w',
        ],
        named_decision(name) is Allow || named_decision(name) == ApprovalDecision::Deny,
{
    reveal_strlit("control");
    reveal_strlit("view");
    assert("control"@ =~= seq!['c', 'o', 'n', 't', 'r', 'o', 'l']);
    assert("view"@ =~= seq!['v', 'i', 'e', 'w']);
    assert("control"@.len() == 7 && "view"@.len() == 4);
}

/// A user has half a minute to answer, which is as long as a viewer waits.
pub proof fn law_users_have_half_a_minute()
    ensures
        APPROVAL_TIMEOUT_MS == 30 * 1_000,
        APPROVAL_TIMEOUT_MS == crate::engine::ANSWER_TIMEOUT_MS,
{
}

} // verus!
