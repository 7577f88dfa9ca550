use vstd::prelude::*;

verus! {

/// The host's clock as seen by one call: block height and block time in nanoseconds.
#[derive(Clone, Copy, Debug, PartialEq, Eq, Structural)]
pub struct BlockInfo {
    pub height: u64,
    pub time: u64,
}

/// A trigger condition: a block height, or a block time in nanoseconds,
/// from which on the condition holds.
#[derive(Clone, Copy, Debug, PartialEq, Eq, Structural)]
pub enum Scheduled {
    AtHeight(u64),
    AtTime(u64),
}

impl Scheduled {
    /// The trigger has fired at `block`.
    pub open spec fn triggered(self, block: BlockInfo) -> bool {
        match self {
            Scheduled::AtHeight(h) => block.height >= h,
            Scheduled::AtTime(t) => block.time >= t,
        }
    }

    pub fn is_triggered(&self, block: &BlockInfo) -> (r: bool)
        ensures
            r == self.triggered(*block),
    {
        match self {
            Scheduled::AtHeight(h) => block.height >= *h,
            Scheduled::AtTime(t) => block.time >= *t,
        }
    }
}

/// The contract's configuration record; it carries no settings.
#[derive(Clone, Copy, Debug, PartialEq, Eq, Structural)]
pub struct Config {}

/// One beneficiary of an entry and the amount set aside for it.
#[derive(Clone, Debug, PartialEq, Eq)]
pub struct Claim {
    pub addr: String,
    pub amount: u128,
}

/// An amount of one base-asset denomination attached to a call.
#[derive(Clone, Debug, PartialEq, Eq)]
pub struct Coin {
    pub denom: String,
    pub amount: u128,
}

/// One escrow entry.
///
/// Exactly one of `native_denom` and `cw20_addr` is set on an entry that was
/// created by `execute_create_lockbox` (see `has_one_asset`).
#[derive(Clone, Debug, PartialEq, Eq)]
pub struct Lockbox {
    pub id: u64,
    /// The identity that may cancel the entry.
    pub owner: String,
    /// The beneficiaries, in the order they were given. A beneficiary may be
    /// named twice; a claim then pays the first of its amounts.
    pub claims: Vec<Claim>,
    /// From when on the claims may be paid.
    pub expiration: Scheduled,
    /// The funding still outstanding: the sum of the claims less the deposits.
    pub total_amount: u128,
    /// Whether the owner cancelled the entry.
    pub reset: bool,
    /// The base-asset denomination, where the entry holds the base asset.
    pub native_denom: Option<String>,
    /// The second asset's contract, where the entry holds the second asset.
    pub cw20_addr: Option<String>,
}

impl Lockbox {
    /// Exactly one asset selector is set.
    pub open spec fn has_one_asset(self) -> bool {
        self.native_denom is Some != self.cw20_addr is Some
    }
}

/// The sum of the amounts of `claims`.
pub open spec fn claims_total(claims: Seq<Claim>) -> int
    decreases claims.len(),
{
    if claims.len() == 0 {
        0
    } else {
        claims_total(claims.drop_last()) + claims.last().amount
    }
}

} // verus!
