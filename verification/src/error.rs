//! The error surface of the program.
//!
//! The program's own rule violations carry stable integer codes for the
//! host's custom-error channel; failures that the host itself would raise
//! (missing signer, bad seeds, bad argument, short or corrupt slot data)
//! are passed through as their own variants.

use vstd::prelude::*;

verus! {

/// A rule of this program that a transition violated.
#[derive(Clone, Copy, Debug, PartialEq, Eq, Structural)]
pub enum BlueprintError {
    /// The command bytes do not parse to a well-formed variant.
    InvalidInstruction,
    /// The approver is not in the blueprint's approver set.
    Unauthorized,
    /// The approver already appears in the proposal's approvals.
    AlreadyApproved,
    /// Fewer approvals than the blueprint's threshold.
    NotEnoughApprovals,
    /// The proposal is already in its terminal executed state.
    AlreadyExecuted,
}

impl BlueprintError {
    /// The stable integer code of this error.
    pub open spec fn spec_code(self) -> u32 {
        match self {
            BlueprintError::InvalidInstruction => 0,
            BlueprintError::Unauthorized => 1,
            BlueprintError::AlreadyApproved => 2,
            BlueprintError::NotEnoughApprovals => 3,
            BlueprintError::AlreadyExecuted => 4,
        }
    }

    /// The integer code routed through the host's custom-error channel.
    pub fn code(&self) -> (r: u32)
        ensures
            r == self.spec_code(),
    {
        match self {
            BlueprintError::InvalidInstruction => 0,
            BlueprintError::Unauthorized => 1,
            BlueprintError::AlreadyApproved => 2,
            BlueprintError::NotEnoughApprovals => 3,
            BlueprintError::AlreadyExecuted => 4,
        }
    }
}

/// Everything a handler can fail with: the program's own errors, wrapped as
/// custom codes, and the failures the host raises on the program's behalf.
#[derive(Clone, Copy, Debug, PartialEq, Eq, Structural)]
pub enum ProgramFailure {
    /// A rule of this program was violated; carries the custom code's error.
    Custom(BlueprintError),
    /// A required signer did not sign.
    MissingRequiredSignature,
    /// A slot address does not equal the derivation of its defining seeds.
    InvalidSeeds,
    /// The threshold is zero, exceeds the approver count, or the approver
    /// list is longer than a blueprint admits.
    InvalidArgument,
    /// Fewer account slots were supplied than the handler needs.
    NotEnoughAccountKeys,
    /// A slot's bytes do not parse as the expected record.
    InvalidAccountData,
    /// A re-encoded record would not fit its slot.
    AccountDataTooSmall,
}

impl From<BlueprintError> for ProgramFailure {
    fn from(e: BlueprintError) -> (r: Self) {
        ProgramFailure::Custom(e)
    }
}

impl vstd::std_specs::convert::FromSpecImpl<BlueprintError> for ProgramFailure {
    open spec fn obeys_from_spec() -> bool {
        true
    }

    open spec fn from_spec(e: BlueprintError) -> Self {
        ProgramFailure::Custom(e)
    }
}

} // verus!
