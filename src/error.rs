use vstd::prelude::*;

verus! {

/// The arithmetic operation that left the range of its integer type.
#[derive(Clone, Copy, Debug, PartialEq, Eq, Structural)]
pub enum OverflowOperation {
    Add,
    Sub,
}

/// Every way an escrow operation can be refused.
///
/// An error aborts the whole operation: no entry and no counter is changed.
#[derive(Clone, Copy, Debug, PartialEq, Eq, Structural)]
pub enum ContractError {
    /// An accounting sum or difference left the range of its type.
    OverFlowError { operation: OverflowOperation, operand1: u128, operand2: u128 },
    /// The caller has no right to the action.
    Unauthorized {},
    /// The trigger has already fired where a fresh entry is required.
    LockboxExpired {},
    /// A base-asset deposit was sent to an entry that holds the second asset.
    SendNativeTokens {},
    /// The asset selector is invalid, or the asset sent does not match it.
    NotSupportDenom {},
    /// The entry was cancelled by its owner.
    Reset {},
    /// The trigger has not fired yet where maturity is required.
    LockboxUnexpired {},
    /// The payout exceeds what is held.
    InsufficientBalance {},
}

/// Subtraction that reports the operands when the result would be negative.
pub fn checked_sub(a: u128, b: u128) -> (r: Result<u128, ContractError>)
    ensures
        b <= a ==> r == Ok::<u128, ContractError>((a - b) as u128),
        b > a ==> r == Err::<u128, ContractError>(
            ContractError::OverFlowError { operation: OverflowOperation::Sub, operand1: a, operand2: b },
        ),
{
    if b <= a {
        Ok(a - b)
    } else {
        Err(ContractError::OverFlowError { operation: OverflowOperation::Sub, operand1: a, operand2: b })
    }
}

} // verus!
