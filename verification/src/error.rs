//! The error kinds that the persistence layer and the lifecycle logic
//! surface.  Every failure propagates unchanged to the entry-point boundary;
//! nothing is retried or swallowed.

use vstd::prelude::*;

verus! {

/// Why a call failed.
#[derive(Debug, PartialEq, Eq)]
pub enum ContractError {
    /// The singleton config slot was read before initialization ever ran.
    ConfigMissing,
    /// A keyed read found nothing under the requested key.
    NotFound { key: Vec<u8> },
    /// A proposal query named an identifier with no stored proposal.
    ProposalNotFound { id: u64 },
    /// A mutation was attempted by a caller other than the owner.
    Unauthorized,
    /// Stored bytes do not match the expected record layout.
    DecodeError,
}

} // verus!
