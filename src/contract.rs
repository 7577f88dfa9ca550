use vstd::prelude::*;

use crate::error::{checked_sub, ContractError, OverflowOperation};
use crate::msg::{response_of, ListLockboxResponse, LockboxResponse};
use crate::state::{claims_total, BlockInfo, Claim, Coin, Lockbox, Scheduled};

verus! {

/// The sum of a prefix of the claims never exceeds the sum of all of them.
proof fn lemma_prefix_total_le(claims: Seq<Claim>, j: int)
    requires
        0 <= j <= claims.len(),
    ensures
        claims_total(claims.take(j)) <= claims_total(claims),
    decreases claims.len(),
{
    if j < claims.len() {
        lemma_prefix_total_le(claims.drop_last(), j);
        assert(claims.drop_last().take(j) =~= claims.take(j));
    } else {
        assert(claims.take(j) =~= claims);
    }
}

/// The identifier that follows the last one issued.
pub fn next_id(seq: u64) -> (r: Result<u64, ContractError>)
    ensures
        seq < u64::MAX ==> r == Ok::<u64, ContractError>((seq + 1) as u64),
        seq == u64::MAX ==> r == Err::<u64, ContractError>(
            ContractError::OverFlowError {
                operation: OverflowOperation::Add,
                operand1: seq as u128,
                operand2: 1,
            },
        ),
{
    if seq < u64::MAX {
        Ok(seq + 1)
    } else {
        Err(ContractError::OverFlowError { operation: OverflowOperation::Add, operand1: seq as u128, operand2: 1 })
    }
}

/// The sum of the claim amounts: the funding target of a new entry.
pub fn sum_claims(claims: &Vec<Claim>) -> (r: Result<u128, ContractError>)
    ensures
        claims_total(claims@) <= u128::MAX ==> r == Ok::<u128, ContractError>(claims_total(claims@) as u128),
        claims_total(claims@) > u128::MAX ==> r matches Err(ContractError::OverFlowError { operation: OverflowOperation::Add, .. }),
{
    let mut total: u128 = 0;
    let mut i: usize = 0;
    while i < claims.len()
        invariant
            i <= claims.len(),
            total == claims_total(claims@.take(i as int)),
        decreases claims.len() - i,
    {
        let a = claims[i].amount;
        assert(claims@.take(i + 1).drop_last() =~= claims@.take(i as int));
        if total > u128::MAX - a {
            proof {
                lemma_prefix_total_le(claims@, i + 1);
            }
            return Err(ContractError::OverFlowError { operation: OverflowOperation::Add, operand1: total, operand2: a });
        }
        total = total + a;
        i = i + 1;
    }
    assert(claims@.take(i as int) =~= claims@);
    Ok(total)
}

/// Whether the two optional asset selectors name exactly one asset.
pub open spec fn one_asset(native_token: Option<String>, cw20_addr: Option<String>) -> bool {
    native_token is Some != cw20_addr is Some
}

/// The id counter after a creation from counter `seq` that returned `r`:
/// the new entry's id on success, `seq` itself on an error.
pub open spec fn counter_after(seq: u64, r: Result<Lockbox, ContractError>) -> u64 {
    match r {
        Ok(lb) => lb.id,
        Err(_) => seq,
    }
}

/// Creates an entry whose id follows `*seq`, and advances `*seq` to it.
///
/// `owner` is an identity the host has already validated. The entry's
/// outstanding funding starts at the sum of the claims; no transfer is made.
/// On an error `*seq` is left as it was, so no id is used up.
pub fn execute_create_lockbox(
    seq: &mut u64,
    block: &BlockInfo,
    owner: String,
    claims: Vec<Claim>,
    expiration: Scheduled,
    native_token: Option<String>,
    cw20_addr: Option<String>,
) -> (r: Result<Lockbox, ContractError>)
    ensures
        expiration.triggered(*block) ==> r == Err::<Lockbox, ContractError>(ContractError::LockboxExpired {}),
        !expiration.triggered(*block) && !one_asset(native_token, cw20_addr)
            ==> r == Err::<Lockbox, ContractError>(ContractError::NotSupportDenom {}),
        !expiration.triggered(*block) && one_asset(native_token, cw20_addr) && claims_total(claims@) > u128::MAX
            ==> r matches Err(ContractError::OverFlowError { operation: OverflowOperation::Add, .. }),
        !expiration.triggered(*block) && one_asset(native_token, cw20_addr) && claims_total(claims@) <= u128::MAX
            && *old(seq) == u64::MAX
            ==> r matches Err(ContractError::OverFlowError { operation: OverflowOperation::Add, .. }),
        !expiration.triggered(*block) && one_asset(native_token, cw20_addr) && claims_total(claims@) <= u128::MAX
            && *old(seq) < u64::MAX
            ==> r == Ok::<Lockbox, ContractError>(
                Lockbox {
                    id: (*old(seq) + 1) as u64,
                    owner,
                    claims,
                    expiration,
                    total_amount: claims_total(claims@) as u128,
                    reset: false,
                    native_denom: native_token,
                    cw20_addr,
                },
            ),
        r is Ok ==> r->Ok_0.id == *old(seq) + 1 && r->Ok_0.has_one_asset() && !r->Ok_0.reset,
        *final(seq) == counter_after(*old(seq), r),
{
    if expiration.is_triggered(block) {
        return Err(ContractError::LockboxExpired {});
    }
    if native_token.is_some() == cw20_addr.is_some() {
        return Err(ContractError::NotSupportDenom {});
    }
    let total_amount = match sum_claims(&claims) {
        Ok(t) => t,
        Err(e) => return Err(e),
    };
    let id = match next_id(*seq) {
        Ok(id) => id,
        Err(e) => return Err(e),
    };
    *seq = id;
    Ok(Lockbox {
        id,
        owner,
        claims,
        expiration,
        total_amount,
        reset: false,
        native_denom: native_token,
        cw20_addr,
    })
}

/// The amount of the first coin of `funds` in denomination `denom`, if any.
pub open spec fn first_amount_of(funds: Seq<Coin>, denom: Seq<char>) -> Option<u128>
    decreases funds.len(),
{
    if funds.len() == 0 {
        None
    } else if funds[0].denom@ == denom {
        Some(funds[0].amount)
    } else {
        first_amount_of(funds.drop_first(), denom)
    }
}

/// `lb` with its outstanding funding reduced by `amount`, or the underflow.
pub open spec fn after_deposit(lb: Lockbox, amount: u128) -> Result<Lockbox, ContractError> {
    if amount <= lb.total_amount {
        Ok(Lockbox { total_amount: (lb.total_amount - amount) as u128, ..lb })
    } else {
        Err(
            ContractError::OverFlowError {
                operation: OverflowOperation::Sub,
                operand1: lb.total_amount,
                operand2: amount,
            },
        )
    }
}

/// What a base-asset deposit of `funds` at `block` makes of `lb`.
pub open spec fn deposit_native_outcome(lb: Lockbox, block: BlockInfo, funds: Seq<Coin>) -> Result<
    Lockbox,
    ContractError,
> {
    if lb.expiration.triggered(block) {
        Err(ContractError::LockboxExpired {})
    } else {
        match lb.native_denom {
            None => Err(ContractError::SendNativeTokens {}),
            Some(d) => match first_amount_of(funds, d@) {
                None => Err(ContractError::NotSupportDenom {}),
                Some(a) => after_deposit(lb, a),
            },
        }
    }
}

/// What a second-asset deposit of `amount`, notified by `sender`, makes of `lb`.
pub open spec fn deposit_cw20_outcome(lb: Lockbox, sender: Seq<char>, amount: u128) -> Result<
    Lockbox,
    ContractError,
> {
    match lb.cw20_addr {
        None => Err(ContractError::NotSupportDenom {}),
        Some(a) => if sender != a@ {
            Err(ContractError::Unauthorized {})
        } else {
            after_deposit(lb, amount)
        },
    }
}

/// Whether `r` and the new value `new_lb` of an entry that was `old_lb` are
/// what `outcome` prescribes, with an entry left untouched on an error.
pub open spec fn applied(
    outcome: Result<Lockbox, ContractError>,
    old_lb: Lockbox,
    new_lb: Lockbox,
    r: Result<u128, ContractError>,
) -> bool {
    match outcome {
        Ok(n) => new_lb == n && r == Ok::<u128, ContractError>((old_lb.total_amount - n.total_amount) as u128),
        Err(e) => new_lb == old_lb && r == Err::<u128, ContractError>(e),
    }
}

/// The index of the first coin of `funds` in denomination `denom`.
fn find_coin(funds: &Vec<Coin>, denom: &String) -> (r: Option<usize>)
    ensures
        match r {
            Some(i) => i < funds@.len() && first_amount_of(funds@, denom@) == Some(funds@[i as int].amount),
            None => first_amount_of(funds@, denom@) is None,
        },
{
    let mut i: usize = 0;
    assert(funds@.subrange(0, funds@.len() as int) =~= funds@);
    while i < funds.len()
        invariant
            i <= funds.len(),
            first_amount_of(funds@, denom@) == first_amount_of(funds@.subrange(i as int, funds@.len() as int), denom@),
        decreases funds.len() - i,
    {
        let ghost rest = funds@.subrange(i as int, funds@.len() as int);
        assert(rest.drop_first() =~= funds@.subrange(i + 1, funds@.len() as int));
        if funds[i].denom == *denom {
            return Some(i);
        }
        i = i + 1;
    }
    None
}

/// Records a base-asset deposit of `funds` on the entry and returns the amount
/// taken from them: that of the first coin in the entry's denomination.
pub fn execute_deposit_native(lockbox: &mut Lockbox, block: &BlockInfo, funds: &Vec<Coin>) -> (r: Result<
    u128,
    ContractError,
>)
    ensures
        applied(deposit_native_outcome(*old(lockbox), *block, funds@), *old(lockbox), *final(lockbox), r),
{
    if lockbox.expiration.is_triggered(block) {
        return Err(ContractError::LockboxExpired {});
    }
    let i = match &lockbox.native_denom {
        None => return Err(ContractError::SendNativeTokens {}),
        Some(denom) => match find_coin(funds, denom) {
            None => return Err(ContractError::NotSupportDenom {}),
            Some(i) => i,
        },
    };
    let amount = funds[i].amount;
    lockbox.total_amount = match checked_sub(lockbox.total_amount, amount) {
        Ok(t) => t,
        Err(e) => return Err(e),
    };
    Ok(amount)
}

/// Records a second-asset deposit of `amount`, notified by `sender`, on the entry.
pub fn execute_deposit(lockbox: &mut Lockbox, sender: &String, amount: u128) -> (r: Result<
    u128,
    ContractError,
>)
    ensures
        applied(deposit_cw20_outcome(*old(lockbox), sender@, amount), *old(lockbox), *final(lockbox), r),
{
    match &lockbox.cw20_addr {
        None => return Err(ContractError::NotSupportDenom {}),
        Some(addr) => {
            if *sender != *addr {
                return Err(ContractError::Unauthorized {});
            }
        },
    }
    lockbox.total_amount = match checked_sub(lockbox.total_amount, amount) {
        Ok(t) => t,
        Err(e) => return Err(e),
    };
    Ok(amount)
}

/// What a reset of `lb` requested by `sender` gives.
pub open spec fn reset_outcome(lb: Lockbox, sender: Seq<char>) -> Result<Lockbox, ContractError> {
    if sender == lb.owner@ {
        Ok(Lockbox { reset: true, ..lb })
    } else {
        Err(ContractError::Unauthorized {})
    }
}

/// Cancels the entry's claims for good; only its owner may do so.
pub fn execute_reset(lockbox: &mut Lockbox, sender: &String) -> (r: Result<(), ContractError>)
    ensures
        match reset_outcome(*old(lockbox), sender@) {
            Ok(n) => *final(lockbox) == n && r is Ok,
            Err(e) => *final(lockbox) == *old(lockbox) && r == Err::<(), ContractError>(e),
        },
{
    if *sender != lockbox.owner {
        return Err(ContractError::Unauthorized {});
    }
    lockbox.reset = true;
    Ok(())
}

/// The transfer instruction that pays a claim out.
#[derive(Clone, Debug, PartialEq, Eq)]
pub enum PayoutMsg {
    /// Send `amount` of the base asset `denom` to `to_address`.
    BankSend { to_address: String, denom: String, amount: u128 },
    /// Ask the second asset's contract to transfer `amount` to `recipient`.
    Cw20Transfer { contract_addr: String, recipient: String, amount: u128 },
}

/// The index of the first claim of `claims` whose beneficiary is `sender`.
pub open spec fn claim_index(claims: Seq<Claim>, sender: Seq<char>) -> Option<int>
    decreases claims.len(),
{
    if claims.len() == 0 {
        None
    } else if claims[0].addr@ == sender {
        Some(0)
    } else {
        match claim_index(claims.drop_first(), sender) {
            Some(i) => Some(i + 1),
            None => None,
        }
    }
}

/// The payout of `claim` from `lb`, where `balance` is the available balance,
/// in the entry's base-asset denomination, that a base-asset payout is checked
/// against.
pub open spec fn payout_of(lb: Lockbox, claim: Claim, balance: u128) -> Result<PayoutMsg, ContractError> {
    match (lb.cw20_addr, lb.native_denom) {
        (Some(a), None) => Ok(
            PayoutMsg::Cw20Transfer { contract_addr: a, recipient: claim.addr, amount: claim.amount },
        ),
        (None, Some(d)) => if balance < claim.amount {
            Err(ContractError::InsufficientBalance {})
        } else {
            Ok(PayoutMsg::BankSend { to_address: claim.addr, denom: d, amount: claim.amount })
        },
        _ => Err(ContractError::Unauthorized {}),
    }
}

/// What a claim on `lb` by `sender` at `block` gives.
pub open spec fn claim_outcome(lb: Lockbox, block: BlockInfo, sender: Seq<char>, balance: u128) -> Result<
    PayoutMsg,
    ContractError,
> {
    if lb.reset {
        Err(ContractError::Reset {})
    } else if !lb.expiration.triggered(block) {
        Err(ContractError::LockboxUnexpired {})
    } else {
        match claim_index(lb.claims@, sender) {
            None => Err(ContractError::Unauthorized {}),
            Some(i) => payout_of(lb, lb.claims@[i], balance),
        }
    }
}

/// The index of the first claim whose beneficiary is `sender`.
fn find_claim(claims: &Vec<Claim>, sender: &String) -> (r: Option<usize>)
    ensures
        match r {
            Some(i) => claim_index(claims@, sender@) == Some(i as int) && i < claims@.len(),
            None => claim_index(claims@, sender@) is None,
        },
{
    let mut i: usize = 0;
    assert(claims@.subrange(0, claims@.len() as int) =~= claims@);
    while i < claims.len()
        invariant
            i <= claims.len(),
            claim_index(claims@, sender@) == match claim_index(claims@.subrange(i as int, claims@.len() as int), sender@) {
                Some(j) => Some(j + i),
                None => None::<int>,
            },
        decreases claims.len() - i,
    {
        let ghost rest = claims@.subrange(i as int, claims@.len() as int);
        assert(rest.drop_first() =~= claims@.subrange(i + 1, claims@.len() as int));
        if claims[i].addr == *sender {
            return Some(i);
        }
        i = i + 1;
    }
    None
}

/// Authorizes a claim on the entry by `sender` at `block` and returns the
/// transfer that pays it. `balance` is the entry owner's available balance in
/// the entry's base-asset denomination, as the host reports it; it is not read
/// for a second-asset entry.
///
/// The entry is not changed: a claim is neither marked as paid nor taken from
/// the outstanding funding.
pub fn execute_claim(lockbox: &Lockbox, block: &BlockInfo, sender: &String, balance: u128) -> (r: Result<
    PayoutMsg,
    ContractError,
>)
    ensures
        r == claim_outcome(*lockbox, *block, sender@, balance),
{
    if lockbox.reset {
        return Err(ContractError::Reset {});
    }
    if !lockbox.expiration.is_triggered(block) {
        return Err(ContractError::LockboxUnexpired {});
    }
    let i = match find_claim(&lockbox.claims, sender) {
        None => return Err(ContractError::Unauthorized {}),
        Some(i) => i,
    };
    let claim = &lockbox.claims[i];
    match (&lockbox.cw20_addr, &lockbox.native_denom) {
        (Some(addr), None) => Ok(
            PayoutMsg::Cw20Transfer {
                contract_addr: addr.clone(),
                recipient: claim.addr.clone(),
                amount: claim.amount,
            },
        ),
        (None, Some(denom)) => {
            if balance < claim.amount {
                return Err(ContractError::InsufficientBalance {});
            }
            Ok(PayoutMsg::BankSend { to_address: claim.addr.clone(), denom: denom.clone(), amount: claim.amount })
        },
        _ => Err(ContractError::Unauthorized {}),
    }
}

/// The page size of a listing when none is asked for.
pub const DEFAULT_LIMIT: u32 = 10;

/// The largest page size of a listing.
pub const MAX_LIMIT: u32 = 30;

/// The page size that a listing asked with `limit` gets.
pub open spec fn limit_of(limit: Option<u32>) -> nat {
    let asked: nat = match limit {
        None => DEFAULT_LIMIT as nat,
        Some(n) => n as nat,
    };
    if asked < MAX_LIMIT as nat {
        asked
    } else {
        MAX_LIMIT as nat
    }
}

/// The page size that a listing asked with `limit` gets.
pub fn list_limit(limit: Option<u32>) -> (r: usize)
    ensures
        r == limit_of(limit),
{
    let asked = match limit {
        None => DEFAULT_LIMIT,
        Some(n) => n,
    };
    if asked < MAX_LIMIT {
        asked as usize
    } else {
        MAX_LIMIT as usize
    }
}

/// Whether an entry with id `id` comes after the cursor `start_after`.
pub open spec fn after_start(id: u64, start_after: Option<u64>) -> bool {
    match start_after {
        None => true,
        Some(k) => id > k,
    }
}

/// The projections of the first `n` entries of `scan` that come after `start_after`.
pub open spec fn page(scan: Seq<Lockbox>, start_after: Option<u64>, n: nat) -> Seq<LockboxResponse>
    decreases scan.len(),
{
    if scan.len() == 0 || n == 0 {
        Seq::empty()
    } else if after_start(scan[0].id, start_after) {
        seq![response_of(scan[0])] + page(scan.drop_first(), start_after, (n - 1) as nat)
    } else {
        page(scan.drop_first(), start_after, n)
    }
}

/// The ids of `scan` strictly increase.
pub open spec fn ascending(scan: Seq<Lockbox>) -> bool {
    forall|i: int, j: int| 0 <= i < j < scan.len() ==> scan[i].id < scan[j].id
}

/// The ids of `page` strictly increase.
pub open spec fn ascending_responses(page: Seq<LockboxResponse>) -> bool {
    forall|i: int, j: int| 0 <= i < j < page.len() ==> page[i].id < page[j].id
}

/// A page holds at most `n` entries, all after the cursor, each one an entry
/// of the scan; and it keeps the scan's ascending order.
proof fn lemma_page(scan: Seq<Lockbox>, start_after: Option<u64>, n: nat)
    ensures
        page(scan, start_after, n).len() <= n,
        forall|i: int|
            0 <= i < page(scan, start_after, n).len() ==> after_start(
                #[trigger] page(scan, start_after, n)[i].id,
                start_after,
            ) && exists|j: int| 0 <= j < scan.len() && scan[j].id == page(scan, start_after, n)[i].id,
        ascending(scan) ==> ascending_responses(page(scan, start_after, n)),
    decreases scan.len(),
{
    if scan.len() == 0 || n == 0 {
    } else {
        let rest = scan.drop_first();
        let m: nat = if after_start(scan[0].id, start_after) { (n - 1) as nat } else { n };
        lemma_page(rest, start_after, m);
        let p = page(scan, start_after, n);
        let q = page(rest, start_after, m);
        assert forall|i: int| #![trigger q[i]] 0 <= i < q.len() implies exists|j: int| 0 <= j < scan.len() && scan[j].id == q[i].id by {
            let j = choose|j: int| 0 <= j < rest.len() && rest[j].id == q[i].id;
            assert(scan[j + 1].id == q[i].id);
        }
        if after_start(scan[0].id, start_after) {
            assert forall|i: int| 0 <= i < p.len() implies after_start(#[trigger] p[i].id, start_after)
                && exists|j: int| 0 <= j < scan.len() && scan[j].id == p[i].id by {
                if i == 0 {
                    assert(scan[0].id == p[0].id);
                } else {
                    assert(p[i] == q[i - 1]);
                }
            }
            if ascending(scan) {
                assert(ascending(rest));
                assert forall|i: int, j: int| 0 <= i < j < p.len() implies p[i].id < p[j].id by {
                    assert(p[j] == q[j - 1]);
                    if i == 0 {
                        let k = choose|k: int| 0 <= k < rest.len() && rest[k].id == q[j - 1].id;
                        assert(scan[k + 1].id == q[j - 1].id);
                    } else {
                        assert(p[i] == q[i - 1]);
                    }
                }
            }
        } else {
            if ascending(scan) {
                assert(ascending(rest));
            }
        }
    }
}

/// One page of a listing.
///
/// `scan` is what the entry store yields in its ascending walk of the ids;
/// the page holds the projections of its first entries with an id above
/// `start_after`, at most `limit` of them (ten where no limit is given, and
/// never more than thirty).
pub fn range_lockbox(scan: Vec<Lockbox>, start_after: Option<u64>, limit: Option<u32>) -> (r: ListLockboxResponse)
    ensures
        r.lockboxes@ == page(scan@, start_after, limit_of(limit)),
        r.lockboxes@.len() <= limit_of(limit) <= MAX_LIMIT,
        limit is None ==> r.lockboxes@.len() <= DEFAULT_LIMIT,
        forall|i: int| 0 <= i < r.lockboxes@.len() ==> after_start(#[trigger] r.lockboxes@[i].id, start_after),
        ascending(scan@) ==> ascending_responses(r.lockboxes@),
{
    let n = list_limit(limit);
    let mut rest = scan;
    let mut out: Vec<LockboxResponse> = Vec::new();
    while out.len() < n && rest.len() > 0
        invariant
            out@.len() <= n,
            n == limit_of(limit),
            out@ + page(rest@, start_after, (n - out@.len()) as nat) == page(scan@, start_after, n as nat),
        decreases rest@.len(),
    {
        let ghost before = rest@;
        let l = rest.remove(0);
        assert(before.drop_first() =~= rest@);
        if start_after.is_none() || l.id > start_after.unwrap() {
            let ghost o = out@;
            out.push(LockboxResponse::from(l));
            assert(o + (seq![response_of(l)] + page(rest@, start_after, (n - o.len() - 1) as nat)) =~= out@ + page(
                rest@,
                start_after,
                (n - out@.len()) as nat,
            ));
        }
    }
    assert(page(rest@, start_after, (n - out@.len()) as nat) =~= Seq::<LockboxResponse>::empty());
    assert(out@ =~= page(scan@, start_after, n as nat));
    proof {
        lemma_page(scan@, start_after, n as nat);
    }
    ListLockboxResponse { lockboxes: out }
}

} // verus!
