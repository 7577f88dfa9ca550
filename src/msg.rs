use vstd::prelude::*;

use crate::state::{Claim, Lockbox, Scheduled};

verus! {

/// The message that sets the contract up.
#[derive(Clone, Debug, PartialEq, Eq)]
pub struct InstantiateMsg {
    pub admin: String,
}

/// A transfer notification from the second asset's contract.
#[derive(Clone, Debug, PartialEq, Eq)]
pub struct Cw20ReceiveMsg {
    /// Who sent the tokens to this contract.
    pub sender: String,
    pub amount: u128,
    /// The encoded `ReceiveMsg` that came with the transfer.
    pub msg: Vec<u8>,
}

/// The operations that change the ledger.
#[derive(Clone, Debug, PartialEq, Eq)]
pub enum ExecuteMsg {
    /// Create an entry.
    CreateLockbox {
        owner: String,
        claims: Vec<Claim>,
        expiration: Scheduled,
        native_token: Option<String>,
        cw20_addr: Option<String>,
    },
    /// Cancel the claims of entry `id`.
    Reset { id: u64 },
    /// Deposit the attached base asset into entry `id`.
    Deposit { id: u64 },
    /// Pay the caller's claim on entry `id`.
    Claim { id: u64 },
    /// A second-asset transfer into this contract.
    Receive(Cw20ReceiveMsg),
}

/// What a second-asset transfer asks of the ledger.
#[derive(Clone, Copy, Debug, PartialEq, Eq, Structural)]
pub enum ReceiveMsg {
    Deposit { id: u64 },
}

/// The read-only queries.
#[derive(Clone, Copy, Debug, PartialEq, Eq, Structural)]
pub enum QueryMsg {
    GetLockBox { id: u64 },
    ListLockBox { start_after: Option<u64>, limit: Option<u32> },
}

/// The projection of one entry that queries return.
#[derive(Clone, Debug, PartialEq, Eq)]
pub struct LockboxResponse {
    pub id: u64,
    pub owner: String,
    pub claims: Vec<Claim>,
    pub expiration: Scheduled,
    pub total_amount: u128,
    pub resetted: bool,
}

/// The projection of `l`: every field but the asset selectors.
pub open spec fn response_of(l: Lockbox) -> LockboxResponse {
    LockboxResponse {
        id: l.id,
        owner: l.owner,
        claims: l.claims,
        expiration: l.expiration,
        total_amount: l.total_amount,
        resetted: l.reset,
    }
}

impl From<Lockbox> for LockboxResponse {
    fn from(l: Lockbox) -> LockboxResponse {
        LockboxResponse {
            id: l.id,
            owner: l.owner,
            claims: l.claims,
            expiration: l.expiration,
            total_amount: l.total_amount,
            resetted: l.reset,
        }
    }
}

impl vstd::std_specs::convert::FromSpecImpl<Lockbox> for LockboxResponse {
    open spec fn obeys_from_spec() -> bool {
        true
    }

    open spec fn from_spec(l: Lockbox) -> LockboxResponse {
        response_of(l)
    }
}

/// One page of entries, ascending by id.
#[derive(Clone, Debug, PartialEq, Eq)]
pub struct ListLockboxResponse {
    pub lockboxes: Vec<LockboxResponse>,
}

} // verus!
