//! Admission-proof decoding and the entry validator.
//!
//! The validator is a pure function of (operation, entry, committing agent):
//! every peer applies it independently to every entry it learns about, and
//! determinism is mandatory because disagreement on validity breaks
//! convergence of the shared dataset. Nothing here reads live local state.

use vstd::prelude::*;
use crate::error::ChatError;

verus! {

/// Longest accepted channel category, in characters.
pub const MAX_CATEGORY_LEN: usize = 64;

/// Longest accepted channel or message content, in characters.
pub const MAX_CONTENT_LEN: usize = 1024;

/// Leading byte of a proof that marks a read-only membership.
pub const READ_ONLY_TAG: u8 = 1;

/// Leading byte of a proof that carries a join code.
pub const JOIN_CODE_TAG: u8 = 0;

/// An admission proof decodes to a read-only marker, a join code, or nothing.
#[derive(Debug, PartialEq, Eq)]
pub enum ProofPayload {
    /// The agent joins as a read-only member and needs no unique code.
    ReadOnly,
    /// The agent presents this join code, derived from the proof content.
    Code(Vec<u8>),
    /// The proof bytes fit neither shape.
    Malformed,
}

/// The proof bytes are exactly the read-only marker.
pub open spec fn is_read_only_payload(b: Seq<u8>) -> bool {
    b.len() == 1 && b[0] == READ_ONLY_TAG
}

/// The proof bytes carry a non-empty join code.
pub open spec fn is_code_payload(b: Seq<u8>) -> bool {
    b.len() >= 2 && b[0] == JOIN_CODE_TAG
}

/// The join code a proof derives to: everything after the tag byte.
pub open spec fn code_of(b: Seq<u8>) -> Seq<u8>
    recommends
        is_code_payload(b),
{
    b.subrange(1, b.len() as int)
}

/// Decodes admission-proof bytes. A malformed proof yields
/// `ProofPayload::Malformed`, never a panic.
pub fn decode_proof(b: &Vec<u8>) -> (p: ProofPayload)
    ensures
        p == ProofPayload::ReadOnly <==> is_read_only_payload(b@),
        p is Code <==> is_code_payload(b@),
        p matches ProofPayload::Code(c) ==> c@ == code_of(b@),
{
    if b.len() == 1 && b[0] == READ_ONLY_TAG {
        ProofPayload::ReadOnly
    } else if b.len() >= 2 && b[0] == JOIN_CODE_TAG {
        let mut code: Vec<u8> = Vec::new();
        let mut i: usize = 1;
        while i < b.len()
            invariant
                1 <= i <= b@.len(),
                is_code_payload(b@),
                code@ == b@.subrange(1, i as int),
            decreases b@.len() - i,
        {
            code.push(b[i]);
            i = i + 1;
            proof {
                assert(code@ =~= b@.subrange(1, i as int));
            }
        }
        proof {
            assert(code@ =~= code_of(b@));
        }
        ProofPayload::Code(code)
    } else {
        ProofPayload::Malformed
    }
}

/// The proof marks a read-only membership.
pub fn is_read_only_proof(proof: &Vec<u8>) -> (r: bool)
    ensures
        r == is_read_only_payload(proof@),
{
    proof.len() == 1 && proof[0] == READ_ONLY_TAG
}

/// Why the validator or the admission gate rejected.
#[derive(Clone, Copy, Debug, PartialEq, Eq, Structural)]
pub enum RejectReason {
    /// No admission proof was supplied.
    MissingProof,
    /// The admission proof bytes decode to nothing.
    MalformedProof,
    /// The entry payload could not be decoded.
    MalformedEntry,
    /// Neither channels nor messages support update or delete.
    MutationNotAllowed,
    /// A channel category must be non-empty.
    EmptyCategory,
    /// A channel category exceeds `MAX_CATEGORY_LEN`.
    OversizedCategory,
    /// A message must have non-empty content.
    EmptyContent,
    /// Content exceeds `MAX_CONTENT_LEN`.
    OversizedContent,
    /// A message's recorded author differs from the committing agent.
    WrongAuthor,
    /// A join-code marker must carry a non-empty code.
    EmptyJoinCode,
}

/// Outcome of a validation callback: accept, or reject with a reason.
#[derive(Clone, Copy, Debug, PartialEq, Eq, Structural)]
pub enum ValidateCallbackResult {
    Valid,
    Invalid(RejectReason),
}

/// What the ledger engine hands to the genesis self-check: the prospective
/// agent and the proof it presented, if any.
pub struct GenesisSelfCheckData {
    pub agent_key: u64,
    pub membrane_proof: Option<Vec<u8>>,
}

/// Structural admission check, shared by the genesis self-check (pre-chain,
/// no network access) and initialization.
pub open spec fn spec_joining_code(membrane_proof: Option<Seq<u8>>) -> ValidateCallbackResult {
    match membrane_proof {
        Option::None => ValidateCallbackResult::Invalid(RejectReason::MissingProof),
        Option::Some(b) => if is_read_only_payload(b) || is_code_payload(b) {
            ValidateCallbackResult::Valid
        } else {
            ValidateCallbackResult::Invalid(RejectReason::MalformedProof)
        },
    }
}

/// Checks an admission proof for structural well-formedness. Uniqueness of
/// the derived join code cannot be checked here: pre-chain there is no
/// network access, so that check belongs to initialization.
pub fn joining_code(membrane_proof: &Option<Vec<u8>>) -> (r: ValidateCallbackResult)
    ensures
        r == spec_joining_code(match *membrane_proof {
            Option::Some(b) => Option::Some(b@),
            Option::None => Option::<Seq<u8>>::None,
        }),
{
    match membrane_proof {
        Option::None => ValidateCallbackResult::Invalid(RejectReason::MissingProof),
        Option::Some(b) => {
            match decode_proof(b) {
                ProofPayload::Malformed => ValidateCallbackResult::Invalid(
                    RejectReason::MalformedProof,
                ),
                _ => ValidateCallbackResult::Valid,
            }
        },
    }
}

/// Operation kind an entry arrives under.
#[derive(Clone, Copy, Debug, PartialEq, Eq, Structural)]
pub enum EntryOp {
    Create,
    Update,
    Delete,
}

/// An entry payload as the validator sees it, after structural decoding.
/// `Malformed` stands for a payload whose bytes decode to no known shape.
pub enum AppEntry {
    /// A new channel: a category plus arbitrary content.
    ChannelEntry { category: String, content: String },
    /// A new message: its parent channel reference, content, and the author
    /// the entry itself records.
    MessageEntry { channel: usize, content: String, author: u64 },
    /// A claim marker for a join code in the shared namespace.
    JoinMarker { code: Vec<u8> },
    /// Undecodable payload.
    Malformed,
}

/// Everything the validator may look at: the operation, the entry, and the
/// agent that committed it.
pub struct ValidateData {
    pub op: EntryOp,
    pub entry: AppEntry,
    pub author: u64,
}

/// The validator's full decision, as a function of its input alone.
pub open spec fn spec_validate(d: ValidateData) -> ValidateCallbackResult {
    if d.op != EntryOp::Create {
        ValidateCallbackResult::Invalid(RejectReason::MutationNotAllowed)
    } else {
        match d.entry {
            AppEntry::ChannelEntry { category, content } => {
                if category@.len() == 0 {
                    ValidateCallbackResult::Invalid(RejectReason::EmptyCategory)
                } else if category@.len() > MAX_CATEGORY_LEN {
                    ValidateCallbackResult::Invalid(RejectReason::OversizedCategory)
                } else if content@.len() > MAX_CONTENT_LEN {
                    ValidateCallbackResult::Invalid(RejectReason::OversizedContent)
                } else {
                    ValidateCallbackResult::Valid
                }
            },
            AppEntry::MessageEntry { channel, content, author } => {
                if content@.len() == 0 {
                    ValidateCallbackResult::Invalid(RejectReason::EmptyContent)
                } else if content@.len() > MAX_CONTENT_LEN {
                    ValidateCallbackResult::Invalid(RejectReason::OversizedContent)
                } else if author != d.author {
                    ValidateCallbackResult::Invalid(RejectReason::WrongAuthor)
                } else {
                    ValidateCallbackResult::Valid
                }
            },
            AppEntry::JoinMarker { code } => {
                if code@.len() == 0 {
                    ValidateCallbackResult::Invalid(RejectReason::EmptyJoinCode)
                } else {
                    ValidateCallbackResult::Valid
                }
            },
            AppEntry::Malformed => ValidateCallbackResult::Invalid(RejectReason::MalformedEntry),
        }
    }
}

/// Validates one entry. Pure and deterministic: the result equals
/// `spec_validate` of the input, so identical inputs decide identically on
/// every peer, and a malformed payload is rejected, never a crash.
pub fn common_validation(data: &ValidateData) -> (r: ValidateCallbackResult)
    ensures
        r == spec_validate(*data),
{
    if !matches!(data.op, EntryOp::Create) {
        return ValidateCallbackResult::Invalid(RejectReason::MutationNotAllowed);
    }
    match &data.entry {
        AppEntry::ChannelEntry { category, content } => {
            let cat_len = category.as_str().unicode_len();
            let content_len = content.as_str().unicode_len();
            if cat_len == 0 {
                ValidateCallbackResult::Invalid(RejectReason::EmptyCategory)
            } else if cat_len > MAX_CATEGORY_LEN {
                ValidateCallbackResult::Invalid(RejectReason::OversizedCategory)
            } else if content_len > MAX_CONTENT_LEN {
                ValidateCallbackResult::Invalid(RejectReason::OversizedContent)
            } else {
                ValidateCallbackResult::Valid
            }
        },
        AppEntry::MessageEntry { channel: _, content, author } => {
            let content_len = content.as_str().unicode_len();
            if content_len == 0 {
                ValidateCallbackResult::Invalid(RejectReason::EmptyContent)
            } else if content_len > MAX_CONTENT_LEN {
                ValidateCallbackResult::Invalid(RejectReason::OversizedContent)
            } else if *author != data.author {
                ValidateCallbackResult::Invalid(RejectReason::WrongAuthor)
            } else {
                ValidateCallbackResult::Valid
            }
        },
        AppEntry::JoinMarker { code } => {
            if code.len() == 0 {
                ValidateCallbackResult::Invalid(RejectReason::EmptyJoinCode)
            } else {
                ValidateCallbackResult::Valid
            }
        },
        AppEntry::Malformed => ValidateCallbackResult::Invalid(RejectReason::MalformedEntry),
    }
}

/// The validator is deterministic: equal inputs decide equally, on one peer
/// across repeated calls and across peers.
pub proof fn lemma_validate_deterministic(d1: ValidateData, d2: ValidateData)
    requires
        d1 == d2,
    ensures
        spec_validate(d1) == spec_validate(d2),
{
}

} // verus!
