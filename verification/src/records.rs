//! The typed records that the store and its collaborators speak of.
//!
//! A number that is not whole is kept as the bits of a 64-bit IEEE 754 value:
//! nothing here computes with it, and nothing is lost in handing it on.

use vstd::prelude::*;

verus! {

/// What is known about the making of a claim.
#[derive(Debug, Clone, PartialEq, Eq)]
pub struct ClaimMetadata {
    pub language: Option<String>,
    pub tags: Option<Vec<String>>,
    pub created_at: Option<String>,
    pub created_by: Option<String>,
}

/// A claim as the store holds it.
#[derive(Debug, Clone, PartialEq, Eq)]
pub struct Claim {
    pub content: String,
    /// Confidence between 0 and 1, as the bits of a 64-bit IEEE 754 number.
    pub confidence: u64,
    pub category: String,
    pub domain: String,
    pub state: String,
    /// The content hash under which the claim is stored.
    pub hash: String,
    /// The type discriminator of the object.
    pub claim_type: String,
    pub metadata: ClaimMetadata,
}

/// The verdict of the verification service on one claim.
#[derive(Debug, Clone, PartialEq, Eq)]
pub struct GovernanceResult {
    pub status: String,
    pub action: String,
    /// Confidence of the verdict, as the bits of a 64-bit IEEE 754 number.
    pub confidence: u64,
    pub reason: String,
    pub audit_ref: String,
    pub ontological_type: Option<String>,
}

} // verus!
