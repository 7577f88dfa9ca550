use vstd::prelude::*;

use crate::contract::{
    claim_index, claim_outcome, counter_after, deposit_cw20_outcome,
    deposit_native_outcome, first_amount_of, reset_outcome,
};
use crate::error::ContractError;
use crate::state::{BlockInfo, Coin, Lockbox, Scheduled};

verus! {

/// The id counter after the creation results `results`, in order, starting at `seq`.
pub open spec fn counter_after_run(seq: u64, results: Seq<Result<Lockbox, ContractError>>) -> u64
    decreases results.len(),
{
    if results.len() == 0 {
        seq
    } else {
        counter_after(counter_after_run(seq, results.drop_last()), results.last())
    }
}

/// Each successful creation of the run got the id that follows the counter it
/// found, as `execute_create_lockbox` promises.
pub open spec fn creation_run(seq: u64, results: Seq<Result<Lockbox, ContractError>>) -> bool {
    forall|i: int|
        0 <= i < results.len() && (#[trigger] results[i]) is Ok ==> results[i]->Ok_0.id == counter_after_run(
            seq,
            results.take(i),
        ) + 1
}

/// The ids of the entries that the run created, in order.
pub open spec fn issued_ids(results: Seq<Result<Lockbox, ContractError>>) -> Seq<u64>
    decreases results.len(),
{
    if results.len() == 0 {
        Seq::empty()
    } else {
        let before = issued_ids(results.drop_last());
        match results.last() {
            Ok(lb) => before.push(lb.id),
            Err(_) => before,
        }
    }
}

/// Over any run of creations, successful or not, the ids handed out are the
/// counter's start plus one, plus two, and so on: strictly increasing, unique,
/// with no gap, and a failed creation uses up no id.
pub proof fn lemma_ids_sequential(seq: u64, results: Seq<Result<Lockbox, ContractError>>)
    requires
        creation_run(seq, results),
    ensures
        counter_after_run(seq, results) == seq + issued_ids(results).len(),
        forall|i: int| 0 <= i < issued_ids(results).len() ==> #[trigger] issued_ids(results)[i] == seq + 1 + i,
    decreases results.len(),
{
    if results.len() > 0 {
        let init = results.drop_last();
        assert forall|i: int| 0 <= i < init.len() && (#[trigger] init[i]) is Ok implies init[i]->Ok_0.id
            == counter_after_run(seq, init.take(i)) + 1 by {
            assert(init.take(i) =~= results.take(i));
            assert(results[i] == init[i]);
        }
        lemma_ids_sequential(seq, init);
        let last = results.len() - 1;
        assert(results.take(last) =~= init);
        assert(results[last] == results.last());
    }
}

/// A fired trigger stays fired at every later block.
pub proof fn lemma_trigger_monotone(s: Scheduled, early: BlockInfo, late: BlockInfo)
    requires
        s.triggered(early),
        early.height <= late.height,
        early.time <= late.time,
    ensures
        s.triggered(late),
{
}

/// The claim of a beneficiary of an entry that was not reset is refused as
/// unexpired before the trigger fires, and pays out once it has fired, where
/// the entry names one asset and, for the base asset, enough is held.
pub proof fn lemma_claim_matures(
    lb: Lockbox,
    early: BlockInfo,
    late: BlockInfo,
    sender: Seq<char>,
    balance: u128,
)
    requires
        !lb.reset,
        !lb.expiration.triggered(early),
        lb.expiration.triggered(late),
        claim_index(lb.claims@, sender) is Some,
        lb.has_one_asset(),
        lb.native_denom is Some ==> balance >= lb.claims@[claim_index(lb.claims@, sender)->Some_0].amount,
    ensures
        claim_outcome(lb, early, sender, balance) == Err::<crate::contract::PayoutMsg, ContractError>(
            ContractError::LockboxUnexpired {},
        ),
        claim_outcome(lb, late, sender, balance) is Ok,
{
}

/// Once a reset has succeeded, every claim on the entry is refused as reset,
/// whoever asks and whenever; and the same reset again changes nothing.
pub proof fn lemma_reset_is_terminal(
    lb: Lockbox,
    owner: Seq<char>,
    block: BlockInfo,
    claimant: Seq<char>,
    balance: u128,
)
    requires
        reset_outcome(lb, owner) is Ok,
    ensures
        claim_outcome(reset_outcome(lb, owner)->Ok_0, block, claimant, balance) == Err::<
            crate::contract::PayoutMsg,
            ContractError,
        >(ContractError::Reset {}),
        reset_outcome(reset_outcome(lb, owner)->Ok_0, owner) == reset_outcome(lb, owner),
{
}

/// A deposit in an asset that the entry does not hold is refused: a base-asset
/// deposit on a second-asset entry with `SendNativeTokens`, a base-asset
/// deposit with no coin of the entry's denomination and a second-asset deposit
/// on a base-asset entry with `NotSupportDenom`. The outstanding funding is
/// then unchanged.
pub proof fn lemma_mismatched_deposit(lb: Lockbox, block: BlockInfo, funds: Seq<Coin>, sender: Seq<char>, amount: u128)
    requires
        !lb.expiration.triggered(block),
    ensures
        lb.native_denom is None ==> deposit_native_outcome(lb, block, funds) == Err::<Lockbox, ContractError>(
            ContractError::SendNativeTokens {},
        ),
        lb.native_denom is Some && first_amount_of(funds, lb.native_denom->Some_0@) is None
            ==> deposit_native_outcome(lb, block, funds) == Err::<Lockbox, ContractError>(
            ContractError::NotSupportDenom {},
        ),
        lb.cw20_addr is None ==> deposit_cw20_outcome(lb, sender, amount) == Err::<Lockbox, ContractError>(
            ContractError::NotSupportDenom {},
        ),
{
}

} // verus!
