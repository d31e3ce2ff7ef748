//! Error taxonomy of the chat backend.
//!
//! Fatal conditions are restricted to admission time; every steady-state
//! operation degrades to a per-call error or a partial result.

use vstd::prelude::*;

verus! {

/// Every way an operation of this library can fail.
#[derive(Clone, Copy, Debug, PartialEq, Eq, Structural)]
pub enum ChatError {
    /// The admission gate cannot complete: no proof was supplied, or the
    /// supplied proof cannot be decoded at initialization time. Fatal: the
    /// process does not become a participant.
    InitFailure,
    /// The join code derived from the proof was already claimed by another
    /// agent. Fatal for this agent, harmless for the network.
    AlreadyUsed,
    /// A mutating operation was attempted by a read-only instance.
    ReadOnly,
    /// An entry was rejected by the entry validator.
    ValidationFailure,
    /// A signal could not be delivered to a recipient.
    DeliveryFailure,
    /// A payload received at a process boundary could not be decoded.
    DecodeFailure,
}

} // verus!
