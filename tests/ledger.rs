use cw1_lockbox::contract::{
    execute_claim, execute_create_lockbox, execute_deposit, execute_deposit_native, execute_reset,
    list_limit, next_id, range_lockbox, sum_claims, PayoutMsg,
};
use cw1_lockbox::error::{checked_sub, ContractError, OverflowOperation};
use cw1_lockbox::msg::LockboxResponse;
use cw1_lockbox::state::{BlockInfo, Claim, Coin, Lockbox, Scheduled};

fn at_height(height: u64) -> BlockInfo {
    BlockInfo {
        height,
        time: 1_000,
    }
}

fn claims_a_b() -> Vec<Claim> {
    vec![
        Claim {
            addr: "A".to_string(),
            amount: 4,
        },
        Claim {
            addr: "B".to_string(),
            amount: 15,
        },
    ]
}

fn native_box(seq: &mut u64) -> Lockbox {
    execute_create_lockbox(
        seq,
        &at_height(1),
        "OWNER".to_string(),
        claims_a_b(),
        Scheduled::AtHeight(100_000),
        Some("test".to_string()),
        None,
    )
    .unwrap()
}

fn cw20_box(seq: &mut u64) -> Lockbox {
    execute_create_lockbox(
        seq,
        &at_height(1),
        "OWNER".to_string(),
        claims_a_b(),
        Scheduled::AtTime(5_000),
        None,
        Some("token".to_string()),
    )
    .unwrap()
}

fn coin(denom: &str, amount: u128) -> Coin {
    Coin {
        denom: denom.to_string(),
        amount,
    }
}

#[test]
fn full_lifecycle_scenario() {
    let mut seq: u64 = 0;
    let mut lb = native_box(&mut seq);
    assert_eq!(lb.total_amount, 19);
    assert_eq!(lb.id, 1);
    assert!(!lb.reset);

    let a = "A".to_string();
    let b = "B".to_string();
    assert_eq!(
        execute_claim(&lb, &at_height(1), &a, 100),
        Err(ContractError::LockboxUnexpired {})
    );
    assert_eq!(
        execute_claim(&lb, &at_height(100_000), &a, 100),
        Ok(PayoutMsg::BankSend {
            to_address: "A".to_string(),
            denom: "test".to_string(),
            amount: 4,
        })
    );

    let before = lb.clone();
    assert_eq!(
        execute_reset(&mut lb, &"someone".to_string()),
        Err(ContractError::Unauthorized {})
    );
    assert_eq!(lb, before);
    assert_eq!(execute_reset(&mut lb, &"OWNER".to_string()), Ok(()));
    assert!(lb.reset);
    assert_eq!(
        execute_claim(&lb, &at_height(100_000), &b, 100),
        Err(ContractError::Reset {})
    );
}

#[test]
fn create_already_expired_keeps_counter() {
    let mut seq: u64 = 7;
    let r = execute_create_lockbox(
        &mut seq,
        &at_height(50),
        "OWNER".to_string(),
        claims_a_b(),
        Scheduled::AtHeight(50),
        Some("test".to_string()),
        None,
    );
    assert_eq!(r, Err(ContractError::LockboxExpired {}));
    assert_eq!(seq, 7);
    let r = execute_create_lockbox(
        &mut seq,
        &BlockInfo { height: 1, time: 900 },
        "OWNER".to_string(),
        claims_a_b(),
        Scheduled::AtTime(900),
        Some("test".to_string()),
        None,
    );
    assert_eq!(r, Err(ContractError::LockboxExpired {}));
    assert_eq!(seq, 7);
}

#[test]
fn create_needs_exactly_one_asset() {
    let mut seq: u64 = 0;
    let both = execute_create_lockbox(
        &mut seq,
        &at_height(1),
        "OWNER".to_string(),
        claims_a_b(),
        Scheduled::AtHeight(10),
        Some("test".to_string()),
        Some("token".to_string()),
    );
    assert_eq!(both, Err(ContractError::NotSupportDenom {}));
    let neither = execute_create_lockbox(
        &mut seq,
        &at_height(1),
        "OWNER".to_string(),
        claims_a_b(),
        Scheduled::AtHeight(10),
        None,
        None,
    );
    assert_eq!(neither, Err(ContractError::NotSupportDenom {}));
    assert_eq!(seq, 0);
}

#[test]
fn create_keeps_second_asset_selector() {
    let mut seq: u64 = 0;
    let lb = cw20_box(&mut seq);
    assert_eq!(lb.cw20_addr, Some("token".to_string()));
    assert_eq!(lb.native_denom, None);
    assert_eq!(lb.claims, claims_a_b());
    assert_eq!(lb.owner, "OWNER".to_string());
}

#[test]
fn ids_increase_without_gaps_or_reuse() {
    let mut seq: u64 = 0;
    let first = native_box(&mut seq);
    let failed = execute_create_lockbox(
        &mut seq,
        &at_height(1),
        "OWNER".to_string(),
        claims_a_b(),
        Scheduled::AtHeight(10),
        None,
        None,
    );
    assert!(failed.is_err());
    let second = native_box(&mut seq);
    let third = cw20_box(&mut seq);
    assert_eq!((first.id, second.id, third.id), (1, 2, 3));
    assert_eq!(seq, 3);
}

#[test]
fn counter_overflow_is_an_error() {
    assert_eq!(next_id(41), Ok(42));
    assert_eq!(
        next_id(u64::MAX),
        Err(ContractError::OverFlowError {
            operation: OverflowOperation::Add,
            operand1: u64::MAX as u128,
            operand2: 1,
        })
    );
    let mut seq: u64 = u64::MAX;
    let r = execute_create_lockbox(
        &mut seq,
        &at_height(1),
        "OWNER".to_string(),
        claims_a_b(),
        Scheduled::AtHeight(10),
        Some("test".to_string()),
        None,
    );
    assert!(matches!(
        r,
        Err(ContractError::OverFlowError {
            operation: OverflowOperation::Add,
            ..
        })
    ));
    assert_eq!(seq, u64::MAX);
}

#[test]
fn claim_sum_overflow_is_an_error() {
    let claims = vec![
        Claim {
            addr: "A".to_string(),
            amount: u128::MAX,
        },
        Claim {
            addr: "B".to_string(),
            amount: 1,
        },
    ];
    assert_eq!(
        sum_claims(&claims),
        Err(ContractError::OverFlowError {
            operation: OverflowOperation::Add,
            operand1: u128::MAX,
            operand2: 1,
        })
    );
    assert_eq!(sum_claims(&claims_a_b()), Ok(19));
    assert_eq!(sum_claims(&vec![]), Ok(0));
}

#[test]
fn checked_sub_reports_operands() {
    assert_eq!(checked_sub(19, 4), Ok(15));
    assert_eq!(
        checked_sub(4, 19),
        Err(ContractError::OverFlowError {
            operation: OverflowOperation::Sub,
            operand1: 4,
            operand2: 19,
        })
    );
}

#[test]
fn deposit_native_takes_first_matching_coin() {
    let mut seq: u64 = 0;
    let mut lb = native_box(&mut seq);
    let funds = vec![coin("other", 3), coin("test", 5), coin("test", 7)];
    assert_eq!(execute_deposit_native(&mut lb, &at_height(2), &funds), Ok(5));
    assert_eq!(lb.total_amount, 14);
}

#[test]
fn deposit_native_errors_leave_entry_unchanged() {
    let mut seq: u64 = 0;
    let mut lb = native_box(&mut seq);
    let before = lb.clone();
    assert_eq!(
        execute_deposit_native(&mut lb, &at_height(2), &vec![coin("other", 3)]),
        Err(ContractError::NotSupportDenom {})
    );
    assert_eq!(
        execute_deposit_native(&mut lb, &at_height(2), &vec![]),
        Err(ContractError::NotSupportDenom {})
    );
    assert_eq!(
        execute_deposit_native(&mut lb, &at_height(100_000), &vec![coin("test", 1)]),
        Err(ContractError::LockboxExpired {})
    );
    assert_eq!(
        execute_deposit_native(&mut lb, &at_height(2), &vec![coin("test", 20)]),
        Err(ContractError::OverFlowError {
            operation: OverflowOperation::Sub,
            operand1: 19,
            operand2: 20,
        })
    );
    assert_eq!(lb, before);

    let mut token_box = cw20_box(&mut seq);
    let before = token_box.clone();
    assert_eq!(
        execute_deposit_native(&mut token_box, &at_height(2), &vec![coin("test", 1)]),
        Err(ContractError::SendNativeTokens {})
    );
    assert_eq!(token_box, before);
}

#[test]
fn deposit_second_asset() {
    let mut seq: u64 = 0;
    let mut lb = cw20_box(&mut seq);
    let token = "token".to_string();
    assert_eq!(execute_deposit(&mut lb, &token, 19), Ok(19));
    assert_eq!(lb.total_amount, 0);
    let before = lb.clone();
    assert_eq!(
        execute_deposit(&mut lb, &"forged".to_string(), 1),
        Err(ContractError::Unauthorized {})
    );
    assert_eq!(
        execute_deposit(&mut lb, &token, 1),
        Err(ContractError::OverFlowError {
            operation: OverflowOperation::Sub,
            operand1: 0,
            operand2: 1,
        })
    );
    assert_eq!(lb, before);

    let mut native = native_box(&mut seq);
    let before = native.clone();
    assert_eq!(
        execute_deposit(&mut native, &token, 1),
        Err(ContractError::NotSupportDenom {})
    );
    assert_eq!(native, before);
}

#[test]
fn claim_second_asset_and_errors() {
    let mut seq: u64 = 0;
    let lb = cw20_box(&mut seq);
    let late = BlockInfo {
        height: 2,
        time: 5_000,
    };
    assert_eq!(
        execute_claim(&lb, &late, &"B".to_string(), 0),
        Ok(PayoutMsg::Cw20Transfer {
            contract_addr: "token".to_string(),
            recipient: "B".to_string(),
            amount: 15,
        })
    );
    assert_eq!(
        execute_claim(&lb, &BlockInfo { height: 2, time: 4_999 }, &"B".to_string(), 0),
        Err(ContractError::LockboxUnexpired {})
    );
    assert_eq!(
        execute_claim(&lb, &late, &"C".to_string(), 0),
        Err(ContractError::Unauthorized {})
    );

    let native = native_box(&mut seq);
    assert_eq!(
        execute_claim(&native, &at_height(100_001), &"B".to_string(), 14),
        Err(ContractError::InsufficientBalance {})
    );
    assert!(execute_claim(&native, &at_height(100_001), &"B".to_string(), 15).is_ok());

    let mut broken = native.clone();
    broken.cw20_addr = Some("token".to_string());
    assert_eq!(
        execute_claim(&broken, &at_height(100_001), &"B".to_string(), 15),
        Err(ContractError::Unauthorized {})
    );
}

#[test]
fn claim_pays_first_entry_of_a_duplicate_beneficiary() {
    let mut seq: u64 = 0;
    let claims = vec![
        Claim {
            addr: "A".to_string(),
            amount: 2,
        },
        Claim {
            addr: "A".to_string(),
            amount: 9,
        },
    ];
    let lb = execute_create_lockbox(
        &mut seq,
        &at_height(1),
        "OWNER".to_string(),
        claims,
        Scheduled::AtHeight(3),
        Some("test".to_string()),
        None,
    )
    .unwrap();
    assert_eq!(lb.total_amount, 11);
    assert_eq!(
        execute_claim(&lb, &at_height(3), &"A".to_string(), 100),
        Ok(PayoutMsg::BankSend {
            to_address: "A".to_string(),
            denom: "test".to_string(),
            amount: 2,
        })
    );
}

#[test]
fn reset_twice_is_a_no_op() {
    let mut seq: u64 = 0;
    let mut lb = native_box(&mut seq);
    let owner = "OWNER".to_string();
    assert_eq!(execute_reset(&mut lb, &owner), Ok(()));
    let once = lb.clone();
    assert_eq!(execute_reset(&mut lb, &owner), Ok(()));
    assert_eq!(lb, once);
    assert_eq!(
        execute_claim(&lb, &at_height(1), &"A".to_string(), 100),
        Err(ContractError::Reset {})
    );
    assert_eq!(
        execute_claim(&lb, &at_height(200_000), &"A".to_string(), 100),
        Err(ContractError::Reset {})
    );
}

#[test]
fn list_limit_defaults_and_clamps() {
    assert_eq!(list_limit(None), 10);
    assert_eq!(list_limit(Some(1000)), 30);
    assert_eq!(list_limit(Some(30)), 30);
    assert_eq!(list_limit(Some(3)), 3);
    assert_eq!(list_limit(Some(0)), 0);
}

fn many_boxes(n: u64) -> Vec<Lockbox> {
    let mut seq: u64 = 0;
    let mut out = Vec::new();
    for _ in 0..n {
        out.push(native_box(&mut seq));
    }
    out
}

#[test]
fn list_pages() {
    let all = many_boxes(40);
    let ids = |r: Vec<LockboxResponse>| r.iter().map(|l| l.id).collect::<Vec<u64>>();

    let default_page = range_lockbox(all.clone(), None, None);
    assert_eq!(ids(default_page.lockboxes), (1..=10).collect::<Vec<u64>>());

    let big = range_lockbox(all.clone(), None, Some(1000));
    assert_eq!(ids(big.lockboxes), (1..=30).collect::<Vec<u64>>());

    let after = range_lockbox(all.clone(), Some(35), None);
    assert_eq!(ids(after.lockboxes), (36..=40).collect::<Vec<u64>>());

    let small = range_lockbox(all.clone(), Some(3), Some(2));
    assert_eq!(ids(small.lockboxes), vec![4, 5]);

    let empty = range_lockbox(vec![], None, None);
    assert!(empty.lockboxes.is_empty());
}

#[test]
fn projection_keeps_fields() {
    let mut seq: u64 = 0;
    let mut lb = native_box(&mut seq);
    execute_reset(&mut lb, &"OWNER".to_string()).unwrap();
    let r = LockboxResponse::from(lb.clone());
    assert_eq!(r.id, lb.id);
    assert_eq!(r.owner, lb.owner);
    assert_eq!(r.claims, lb.claims);
    assert_eq!(r.expiration, lb.expiration);
    assert_eq!(r.total_amount, 19);
    assert!(r.resetted);
}
