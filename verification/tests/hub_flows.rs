//! The bonding, unbonding, slashing and settlement flows on concrete
//! scenarios: conversion at the exchange rate, epoch batching, maturity,
//! and shortfall or surplus settlement.

use prism_hub::dec::Dec;
use prism_hub::hubconfig::InstantiateMsg;
use prism_hub::ledger::Hub;
use prism_hub::testing::set_validator_mock;
use prism_hub::types::{Coin, Delegation, HubError, Instruction};
use prism_hub::DEC_ONE;

const BASE: u64 = 1_571_797_419;
const DEFAULT_VALIDATOR: &str = "default-validator";
const DEFAULT_VALIDATOR2: &str = "default-validator2000";
const DEFAULT_VALIDATOR3: &str = "default-validator3000";
const MOCK_CONTRACT_ADDR: &str = "cosmos2contract";
const INITIAL_DEPOSIT_AMOUNT: u128 = 1_000_000;

fn coin(amount: u128, denom: &str) -> Coin {
    Coin { denom: denom.to_string(), amount }
}

fn del(validator: &str, amount: u128) -> Delegation {
    Delegation { validator: validator.to_string(), amount, denom: "uluna".to_string() }
}

fn s(x: &str) -> String {
    x.to_string()
}

fn init(owner: &str, token: &str, validator: &str) -> Hub {
    let msg = InstantiateMsg {
        epoch_period: 30,
        underlying_coin_denom: s("uluna"),
        unbonding_period: 2,
        peg_recovery_fee: Dec::zero(),
        er_threshold: Dec::one(),
        validator: s(validator),
        protocol_fee: Dec::zero(),
    };
    let (mut hub, _) =
        Hub::instantiate(msg, &s(owner), &vec![coin(INITIAL_DEPOSIT_AMOUNT, "uluna")], BASE)
            .unwrap();
    hub.execute_update_config(&s(owner), Some(s(token)), None).unwrap();
    hub
}

fn do_register_validator(hub: &mut Hub, validator: &str) {
    let mut known: Vec<String> = Vec::new();
    set_validator_mock(&mut known);
    hub.execute_register_validator(&s("owner1"), &s(MOCK_CONTRACT_ADDR), &s(validator), &known)
        .unwrap();
}

#[test]
fn proper_initialization() {
    let msg = InstantiateMsg {
        epoch_period: 30,
        underlying_coin_denom: s("uluna"),
        unbonding_period: 210,
        peg_recovery_fee: Dec::zero(),
        er_threshold: Dec::one(),
        validator: s(DEFAULT_VALIDATOR),
        protocol_fee: Dec::zero(),
    };
    let (hub, instrs) =
        Hub::instantiate(msg, &s("owner1"), &vec![coin(1_000_000, "uluna")], BASE).unwrap();
    assert_eq!(instrs.len(), 2);
    assert_eq!(
        instrs[0],
        Instruction::RegisterValidatorSelf { validator: s(DEFAULT_VALIDATOR) }
    );
    assert_eq!(
        instrs[1],
        Instruction::Delegate { validator: s(DEFAULT_VALIDATOR), amount: 1_000_000 }
    );

    let params = hub.query_parameters();
    assert_eq!(params.epoch_period, 30);
    assert_eq!(params.underlying_coin_denom, s("uluna"));
    assert_eq!(params.unbonding_period, 210);
    assert_eq!(params.peg_recovery_fee, Dec::zero());
    assert_eq!(params.er_threshold, Dec::one());

    let state = hub.query_state();
    assert_eq!(state.exchange_rate, Dec::one());
    assert_eq!(state.total_bond_amount, 1_000_000);
    assert_eq!(state.last_index_modification, BASE);
    assert_eq!(state.principle_balance_before_exchange_update, 0);
    assert_eq!(state.prev_hub_balance, 0);
    assert_eq!(state.actual_unbonded_amount, 0);
    assert_eq!(state.last_unbonded_time, BASE);
    assert_eq!(state.last_processed_batch, 0);

    let conf = hub.query_config();
    assert_eq!(conf.token_contract, None);
    assert_eq!(conf.protocol_fee_collector, None);
    assert_eq!(hub.config.admin, s("owner1"));

    let batch = hub.query_current_batch();
    assert_eq!(batch.id, 1);
    assert_eq!(batch.requested_with_fee, 0);

    // A deposit in the wrong denomination is refused outright.
    let msg2 = InstantiateMsg {
        epoch_period: 30,
        underlying_coin_denom: s("uluna"),
        unbonding_period: 210,
        peg_recovery_fee: Dec::zero(),
        er_threshold: Dec::one(),
        validator: s(DEFAULT_VALIDATOR),
        protocol_fee: Dec::zero(),
    };
    let err = Hub::instantiate(msg2, &s("owner1"), &vec![coin(5, "ukrt")], BASE).unwrap_err();
    assert_eq!(err, HubError::NoPayment);
}

#[test]
fn proper_register_validator() {
    let mut hub = init("owner1", "token", DEFAULT_VALIDATOR);
    let mut known: Vec<String> = Vec::new();
    set_validator_mock(&mut known);

    // invalid sender
    let err = hub
        .execute_register_validator(
            &s("invalid"),
            &s(MOCK_CONTRACT_ADDR),
            &s(DEFAULT_VALIDATOR),
            &known,
        )
        .unwrap_err();
    assert_eq!(err, HubError::NotAdmin);

    // a name the staking system does not know
    let err = hub
        .execute_register_validator(
            &s("owner1"),
            &s(MOCK_CONTRACT_ADDR),
            &s("fake validator"),
            &known,
        )
        .unwrap_err();
    assert_eq!(err, HubError::NotValidator);

    // successful call
    hub.execute_register_validator(
        &s("owner1"),
        &s(MOCK_CONTRACT_ADDR),
        &s(DEFAULT_VALIDATOR),
        &known,
    )
    .unwrap();
    let listed = hub.query_whitelisted_validators();
    assert_eq!(listed.validators[0], s(DEFAULT_VALIDATOR));

    hub.execute_register_validator(
        &s("owner1"),
        &s(MOCK_CONTRACT_ADDR),
        &s(DEFAULT_VALIDATOR2),
        &known,
    )
    .unwrap();
    let listed = hub.query_whitelisted_validators();
    assert_eq!(listed.validators[0], s(DEFAULT_VALIDATOR));
    assert_eq!(listed.validators[1], s(DEFAULT_VALIDATOR2));
}

#[test]
fn proper_bond() {
    let mut hub = init("owner1", "token", DEFAULT_VALIDATOR);
    do_register_validator(&mut hub, DEFAULT_VALIDATOR);
    let dels = vec![del(DEFAULT_VALIDATOR, INITIAL_DEPOSIT_AMOUNT)];

    let res = hub
        .execute_bond(
            &s("addr1000"),
            &vec![coin(10_000, "uluna")],
            &s(DEFAULT_VALIDATOR),
            &dels,
            INITIAL_DEPOSIT_AMOUNT,
        )
        .unwrap();
    assert_eq!(res.len(), 2);
    assert_eq!(
        res[0],
        Instruction::Delegate { validator: s(DEFAULT_VALIDATOR), amount: 10_000 }
    );
    assert_eq!(res[1], Instruction::Mint { recipient: s("addr1000"), amount: 10_000 });

    let state = hub.query_state();
    assert_eq!(state.total_bond_amount, 10_000 + INITIAL_DEPOSIT_AMOUNT);
    assert_eq!(state.exchange_rate, Dec::one());

    // unsupported validator
    let err = hub
        .execute_bond(&s("bob"), &vec![coin(10, "uluna")], &s("invalid"), &dels, 1_010_000)
        .unwrap_err();
    assert_eq!(err, HubError::UnsupportedValidator);

    // no funds
    let err = hub
        .execute_bond(&s("bob"), &vec![], &s(DEFAULT_VALIDATOR), &dels, 1_010_000)
        .unwrap_err();
    assert_eq!(err, HubError::NoPayment);

    // wrong denomination
    let err = hub
        .execute_bond(&s("bob"), &vec![coin(10, "ukrt")], &s(DEFAULT_VALIDATOR), &dels, 1_010_000)
        .unwrap_err();
    assert_eq!(err, HubError::NoPayment);

    // more than one coin
    let err = hub
        .execute_bond(
            &s("addr1000"),
            &vec![coin(10_000, "uluna"), coin(10_000, "uusd")],
            &s(DEFAULT_VALIDATOR),
            &dels,
            1_010_000,
        )
        .unwrap_err();
    assert_eq!(err, HubError::MultipleCoins);
}

#[test]
fn bond_million_at_par_mints_million() {
    // Bonding 1,000,000 at an exchange rate of one with zero fees yields
    // exactly 1,000,000 minted tokens and exactly two instructions.
    let mut hub = init("owner1", "token", DEFAULT_VALIDATOR);
    do_register_validator(&mut hub, DEFAULT_VALIDATOR);
    let dels = vec![del(DEFAULT_VALIDATOR, INITIAL_DEPOSIT_AMOUNT)];
    let res = hub
        .execute_bond(
            &s("bob"),
            &vec![coin(1_000_000, "uluna")],
            &s(DEFAULT_VALIDATOR),
            &dels,
            INITIAL_DEPOSIT_AMOUNT,
        )
        .unwrap();
    assert_eq!(res.len(), 2);
    assert_eq!(
        res[0],
        Instruction::Delegate { validator: s(DEFAULT_VALIDATOR), amount: 1_000_000 }
    );
    assert_eq!(res[1], Instruction::Mint { recipient: s("bob"), amount: 1_000_000 });
}

#[test]
fn proper_unbond() {
    let mut hub = init("owner1", "token", DEFAULT_VALIDATOR);
    do_register_validator(&mut hub, DEFAULT_VALIDATOR);

    let res = hub
        .execute_bond(&s("bob"), &vec![coin(10, "uluna")], &s(DEFAULT_VALIDATOR), &vec![], 10)
        .unwrap();
    assert_eq!(res.len(), 2);
    assert_eq!(res[0], Instruction::Delegate { validator: s(DEFAULT_VALIDATOR), amount: 10 });

    let dels = vec![del(DEFAULT_VALIDATOR, 10)];

    let batch = hub.query_current_batch();
    assert_eq!(batch.id, 1);
    assert_eq!(batch.requested_with_fee, 0);

    let state = hub.query_state();
    assert_eq!(state.last_unbonded_time, BASE);
    assert_eq!(state.total_bond_amount, 1_000_010);

    // first request
    let res = hub.execute_unbond(1, &s("bob"), BASE, &dels, 10).unwrap();
    assert_eq!(res.len(), 1);
    assert_eq!(res[0], Instruction::Burn { amount: 1 });
    assert_eq!(hub.read_wait_amount(1, &s("bob")), 1);

    // second request in the same epoch accumulates
    let res = hub.execute_unbond(5, &s("bob"), BASE, &dels, 9).unwrap();
    assert_eq!(res.len(), 1);
    assert_eq!(res[0], Instruction::Burn { amount: 5 });
    assert_eq!(hub.read_wait_amount(1, &s("bob")), 6);

    let batch = hub.query_current_batch();
    assert_eq!(batch.id, 1);
    assert_eq!(batch.requested_with_fee, 6);

    // once the epoch elapses, the next request finalizes the batch
    let res = hub.execute_unbond(2, &s("bob"), BASE + 31, &dels, 4).unwrap();
    assert_eq!(res.len(), 2);
    assert_eq!(
        res[0],
        Instruction::Undelegate { validator: s(DEFAULT_VALIDATOR), amount: 8 }
    );
    assert_eq!(res[1], Instruction::Burn { amount: 2 });

    let batch = hub.query_current_batch();
    assert_eq!(batch.id, 2);
    assert_eq!(batch.requested_with_fee, 0);

    let state = hub.query_state();
    assert_eq!(state.last_unbonded_time, BASE + 31);
    assert_eq!(state.total_bond_amount, 2);

    let requests = hub.query_unbond_requests(&s("bob"));
    assert_eq!(requests.requests[0].0, 1);
    assert_eq!(requests.requests[0].1, 8);

    let all = hub.query_all_history(None, None);
    assert_eq!(all.history[0].amount, 8);
    assert_eq!(all.history[0].applied_exchange_rate, Dec::one());
    assert!(!all.history[0].released);
    assert_eq!(all.history[0].batch_id, 1);
}

#[test]
fn proper_pick_validator() {
    let mut hub = init("owner1", "token", DEFAULT_VALIDATOR);
    do_register_validator(&mut hub, DEFAULT_VALIDATOR);
    do_register_validator(&mut hub, DEFAULT_VALIDATOR2);
    do_register_validator(&mut hub, DEFAULT_VALIDATOR3);

    for (addr, amount, validator) in [
        ("addr1000", 10u128, DEFAULT_VALIDATOR),
        ("addr2000", 300u128, DEFAULT_VALIDATOR2),
        ("addr3000", 200u128, DEFAULT_VALIDATOR3),
    ] {
        let res = hub
            .execute_bond(&s(addr), &vec![coin(amount, "uluna")], &s(validator), &vec![], 510)
            .unwrap();
        assert_eq!(res.len(), 2);
    }

    let dels = vec![
        del(DEFAULT_VALIDATOR, 10),
        del(DEFAULT_VALIDATOR2, 300),
        del(DEFAULT_VALIDATOR3, 200),
    ];

    // first burn stays in the open batch
    let res = hub.execute_unbond(50, &s("addr2000"), BASE, &dels, 510).unwrap();
    assert_eq!(res.len(), 1);

    // the second burn finalizes and undelegates across validators,
    // smallest delegations drained first
    let res = hub.execute_unbond(100, &s("addr2000"), BASE + 40, &dels, 460).unwrap();
    assert!(res.len() >= 2);
    assert_eq!(
        res[0],
        Instruction::Undelegate { validator: s(DEFAULT_VALIDATOR), amount: 10 }
    );
    assert_eq!(
        res[1],
        Instruction::Undelegate { validator: s(DEFAULT_VALIDATOR3), amount: 140 }
    );
    assert_eq!(res[2], Instruction::Burn { amount: 100 });
}

#[test]
fn proper_pick_validator_respect_distributed_delegation() {
    let mut hub = init("owner1", "token", DEFAULT_VALIDATOR);
    do_register_validator(&mut hub, DEFAULT_VALIDATOR);
    do_register_validator(&mut hub, DEFAULT_VALIDATOR2);
    do_register_validator(&mut hub, DEFAULT_VALIDATOR3);

    let res = hub
        .execute_bond(
            &s("addr1000"),
            &vec![coin(1_000, "uluna")],
            &s(DEFAULT_VALIDATOR),
            &vec![],
            0,
        )
        .unwrap();
    assert_eq!(res.len(), 2);
    let res = hub
        .execute_bond(
            &s("addr1000"),
            &vec![coin(1_500, "uluna")],
            &s(DEFAULT_VALIDATOR2),
            &vec![],
            0,
        )
        .unwrap();
    assert_eq!(res.len(), 2);

    let dels = vec![del(DEFAULT_VALIDATOR, 1_000), del(DEFAULT_VALIDATOR2, 1_500)];
    let res = hub.execute_unbond(2_000, &s("addr2000"), BASE + 40, &dels, 2_500).unwrap();
    assert_eq!(res.len(), 3);
    assert_eq!(
        res[0],
        Instruction::Undelegate { validator: s(DEFAULT_VALIDATOR), amount: 1_000 }
    );
    assert_eq!(
        res[1],
        Instruction::Undelegate { validator: s(DEFAULT_VALIDATOR2), amount: 1_000 }
    );
    assert_eq!(res[2], Instruction::Burn { amount: 2_000 });
}

#[test]
fn proper_slashing() {
    let mut hub = init("owner1", "token", DEFAULT_VALIDATOR);
    do_register_validator(&mut hub, DEFAULT_VALIDATOR);

    let res = hub
        .execute_bond(
            &s("addr1000"),
            &vec![coin(1_000, "uluna")],
            &s(DEFAULT_VALIDATOR),
            &vec![],
            1_000,
        )
        .unwrap();
    assert_eq!(res.len(), 2);

    // the observed delegation dropped: reconcile, the rate falls to 0.9
    // exactly, with no instructions emitted
    let dels = vec![del(DEFAULT_VALIDATOR, 900)];
    hub.slashing(&dels, 1_000).unwrap();
    assert_eq!(hub.query_state().exchange_rate.raw, 900_000_000_000_000_000);

    // bonding prices the slashing in
    let res = hub
        .execute_bond(&s("addr1000"), &vec![coin(1_000, "uluna")], &s(DEFAULT_VALIDATOR), &dels, 1_000)
        .unwrap();
    assert_eq!(res.len(), 2);
    assert_eq!(
        res[0],
        Instruction::Delegate { validator: s(DEFAULT_VALIDATOR), amount: 1_000 }
    );
    assert_eq!(res[1], Instruction::Mint { recipient: s("addr1000"), amount: 1_111 });
    // 1900 / 2111, rounded down at the eighteenth digit
    let expected_er: u128 = 900_047_370_914_258_645;
    assert_eq!(hub.query_state().exchange_rate.raw, expected_er);

    let dels = vec![del(DEFAULT_VALIDATOR, 100_900)];
    hub.execute_unbond(500, &s("addr1000"), BASE, &dels, 2_111).unwrap();
    let res = hub.execute_unbond(500, &s("addr1000"), BASE + 31, &dels, 1_611).unwrap();
    assert_eq!(
        res[0],
        Instruction::Undelegate { validator: s(DEFAULT_VALIDATOR), amount: 900 }
    );
    assert_eq!(hub.query_state().exchange_rate.raw, expected_er);

    let res = hub
        .execute_withdraw_unbonded(&s("addr1000"), BASE + 121, 900)
        .unwrap();
    assert_eq!(res.len(), 1);
    assert_eq!(res[0], Instruction::Send { recipient: s("addr1000"), amount: 900 });
    assert_eq!(hub.query_state().exchange_rate.raw, expected_er);
}

#[test]
fn proper_withdraw_unbonded() {
    let mut hub = init("owner1", "token", DEFAULT_VALIDATOR);
    do_register_validator(&mut hub, DEFAULT_VALIDATOR);

    let res = hub
        .execute_bond(&s("bob"), &vec![coin(100, "uluna")], &s(DEFAULT_VALIDATOR), &vec![], 100)
        .unwrap();
    assert_eq!(res.len(), 2);
    assert_eq!(
        res[0],
        Instruction::Delegate { validator: s(DEFAULT_VALIDATOR), amount: 100 }
    );

    let dels = vec![del(DEFAULT_VALIDATOR, 100)];
    let res = hub.execute_unbond(10, &s("bob"), BASE, &dels, 100).unwrap();
    assert_eq!(res.len(), 1);

    // nothing matured yet: the distinct condition, and no state change
    let err = hub.execute_withdraw_unbonded(&s("bob"), BASE + 31, 0).unwrap_err();
    assert_eq!(err, HubError::NothingWithdrawable);

    let res = hub.execute_unbond(10, &s("bob"), BASE + 31, &dels, 90).unwrap();
    assert_eq!(res.len(), 2);

    // before the unbonding period has passed, nothing is withdrawable
    let resp = hub.query_withdrawable_unbonded(&s("bob"), BASE).unwrap();
    assert_eq!(resp.withdrawable, 0);

    let requests = hub.query_unbond_requests(&s("bob"));
    assert_eq!(requests.requests.len(), 1);
    assert_eq!(requests.requests[0].0, 1);
    assert_eq!(requests.requests[0].1, 20);

    let all = hub.query_all_history(None, None);
    assert_eq!(all.history[0].amount, 20);
    assert_eq!(all.history[0].batch_id, 1);

    let resp = hub.query_withdrawable_unbonded(&s("bob"), BASE + 122).unwrap();
    assert_eq!(resp.withdrawable, 20);

    let res = hub.execute_withdraw_unbonded(&s("bob"), BASE + 122, 20).unwrap();
    assert_eq!(res.len(), 1);
    assert_eq!(res[0], Instruction::Send { recipient: s("bob"), amount: 20 });

    let resp = hub.query_withdrawable_unbonded(&s("bob"), BASE + 122).unwrap();
    assert_eq!(resp.withdrawable, 0);
    let requests = hub.query_unbond_requests(&s("bob"));
    assert_eq!(requests.requests.len(), 0);

    let state = hub.query_state();
    assert_eq!(state.prev_hub_balance, 0);
    assert_eq!(state.exchange_rate, Dec::one());
}

#[test]
fn proper_withdraw_unbonded_respect_slashing() {
    let mut hub = init("owner1", "token", DEFAULT_VALIDATOR);
    do_register_validator(&mut hub, DEFAULT_VALIDATOR);

    let res = hub
        .execute_bond(&s("bob"), &vec![coin(10_000, "uluna")], &s(DEFAULT_VALIDATOR), &vec![], 10_000)
        .unwrap();
    assert_eq!(res.len(), 2);

    let dels = vec![del(DEFAULT_VALIDATOR, 10_000)];
    let res = hub.execute_unbond(500, &s("bob"), BASE, &dels, 10_000).unwrap();
    assert_eq!(res.len(), 1);

    let err = hub.execute_withdraw_unbonded(&s("bob"), BASE + 31, 0).unwrap_err();
    assert_eq!(err, HubError::NothingWithdrawable);

    let res = hub.execute_unbond(500, &s("bob"), BASE + 31, &dels, 9_500).unwrap();
    assert_eq!(res.len(), 2);

    let resp = hub.query_withdrawable_unbonded(&s("bob"), BASE).unwrap();
    assert_eq!(resp.withdrawable, 0);

    let requests = hub.query_unbond_requests(&s("bob"));
    assert_eq!(requests.requests.len(), 1);
    assert_eq!(requests.requests[0].1, 1_000);

    // at the stored rates the claim previews as its nominal amount
    let resp = hub.query_withdrawable_unbonded(&s("bob"), BASE + 122).unwrap();
    assert_eq!(resp.withdrawable, 1_000);

    // the pool only holds 900: the batch's rate is fixed below one and the
    // payout never exceeds the available balance
    let res = hub.execute_withdraw_unbonded(&s("bob"), BASE + 122, 900).unwrap();
    assert_eq!(res.len(), 1);
    assert_eq!(res[0], Instruction::Send { recipient: s("bob"), amount: 899 });

    let resp = hub.query_withdrawable_unbonded(&s("bob"), BASE + 122).unwrap();
    assert_eq!(resp.withdrawable, 0);

    let all = hub.query_all_history(None, None);
    assert_eq!(all.history[0].amount, 1_000);
    assert_eq!(all.history[0].withdraw_rate.raw, 899_000_000_000_000_000);
    assert!(all.history[0].released);
}

#[test]
fn proper_withdraw_unbonded_respect_inactivity_slashing() {
    let mut hub = init("owner1", "token", DEFAULT_VALIDATOR);
    do_register_validator(&mut hub, DEFAULT_VALIDATOR);

    hub.execute_bond(&s("bob"), &vec![coin(10_000, "uluna")], &s(DEFAULT_VALIDATOR), &vec![], 10_000)
        .unwrap();

    let dels = vec![del(DEFAULT_VALIDATOR, 10_000)];
    let res = hub.execute_unbond(500, &s("bob"), BASE, &dels, 10_000).unwrap();
    assert_eq!(res.len(), 1);

    let batch = hub.query_current_batch();
    assert_eq!(batch.id, 1);
    assert_eq!(batch.requested_with_fee, 500);

    let err = hub.execute_withdraw_unbonded(&s("bob"), BASE + 1_000, 0).unwrap_err();
    assert_eq!(err, HubError::NothingWithdrawable);

    // a long-inactive batch still finalizes on the next request
    let res = hub.execute_unbond(500, &s("bob"), BASE + 1_000, &dels, 9_500).unwrap();
    assert_eq!(res.len(), 2);

    let batch = hub.query_current_batch();
    assert_eq!(batch.id, 2);
    assert_eq!(batch.requested_with_fee, 0);

    let all = hub.query_all_history(None, None);
    assert_eq!(all.history[0].amount, 1_000);
    assert_eq!(all.history[0].withdraw_rate, Dec::one());
    assert!(!all.history[0].released);
    assert_eq!(all.history[0].batch_id, 1);

    let resp = hub.query_withdrawable_unbonded(&s("bob"), BASE).unwrap();
    assert_eq!(resp.withdrawable, 0);

    let resp = hub.query_withdrawable_unbonded(&s("bob"), BASE + 2_091).unwrap();
    assert_eq!(resp.withdrawable, 1_000);

    let res = hub.execute_withdraw_unbonded(&s("bob"), BASE + 2_091, 900).unwrap();
    assert_eq!(res.len(), 1);
    assert_eq!(res[0], Instruction::Send { recipient: s("bob"), amount: 899 });

    let resp = hub.query_withdrawable_unbonded(&s("bob"), BASE + 2_091).unwrap();
    assert_eq!(resp.withdrawable, 0);

    let all = hub.query_all_history(None, None);
    assert_eq!(all.history[0].amount, 1_000);
    assert_eq!(all.history[0].applied_exchange_rate, Dec::one());
    assert_eq!(all.history[0].withdraw_rate.raw, 899_000_000_000_000_000);
    assert!(all.history[0].released);
    assert_eq!(all.history[0].batch_id, 1);
}

#[test]
fn proper_withdraw_unbond_with_dummies() {
    let mut hub = init("owner1", "token", DEFAULT_VALIDATOR);
    do_register_validator(&mut hub, DEFAULT_VALIDATOR);

    hub.execute_bond(&s("bob"), &vec![coin(10_000, "uluna")], &s(DEFAULT_VALIDATOR), &vec![], 10_000)
        .unwrap();

    let dels = vec![del(DEFAULT_VALIDATOR, 10_000)];
    let res = hub.execute_unbond(500, &s("bob"), BASE, &dels, 10_000).unwrap();
    assert_eq!(res.len(), 1);

    let res = hub.execute_unbond(500, &s("bob"), BASE + 31, &dels, 9_500).unwrap();
    assert_eq!(res.len(), 2);

    // stake is slashed while the second batch accumulates
    let dels2 = vec![del(DEFAULT_VALIDATOR, 8_000)];
    let res = hub.execute_unbond(500, &s("bob"), BASE + 31, &dels2, 9_000).unwrap();
    assert_eq!(res.len(), 1);

    let res = hub.execute_unbond(500, &s("bob"), BASE + 62, &dels2, 8_500).unwrap();
    assert_eq!(res.len(), 2);

    // the pool holds more than both batches are owed: the surplus is
    // spread over them and both rates rise above one
    let res = hub.execute_withdraw_unbonded(&s("bob"), BASE + 182, 2_200).unwrap();
    assert_eq!(res.len(), 1);

    let all = hub.query_all_history(None, None);
    assert_eq!(all.history[0].amount, 1_000);
    assert_eq!(all.history[0].withdraw_rate.raw, 1_164_000_000_000_000_000);
    assert!(all.history[0].released);
    assert_eq!(all.history[0].batch_id, 1);
    assert_eq!(all.history[1].amount, 1_000);
    assert_eq!(all.history[1].withdraw_rate.raw, 1_033_000_000_000_000_000);
    assert!(all.history[1].released);
    assert_eq!(all.history[1].batch_id, 2);

    assert_eq!(res[0], Instruction::Send { recipient: s("bob"), amount: 1_164 + 1_033 });

    let resp = hub.query_withdrawable_unbonded(&s("bob"), BASE + 182).unwrap();
    assert_eq!(resp.withdrawable, 0);
}

#[test]
fn proper_recovery_fee() {
    let mut hub = init("owner1", "token", DEFAULT_VALIDATOR);
    hub.execute_update_params(
        &s("owner1"),
        None,
        None,
        Some(Dec::ratio(1, 1000).unwrap()),
        Some(Dec::ratio(99, 100).unwrap()),
        None,
    )
    .unwrap();
    let params = hub.query_parameters();
    assert_eq!(params.epoch_period, 30);
    assert_eq!(params.underlying_coin_denom, s("uluna"));
    assert_eq!(params.unbonding_period, 2);
    assert_eq!(params.peg_recovery_fee.raw, 1_000_000_000_000_000);
    assert_eq!(params.er_threshold.raw, 990_000_000_000_000_000);

    do_register_validator(&mut hub, DEFAULT_VALIDATOR);

    let res = hub
        .execute_bond(
            &s("bob"),
            &vec![coin(1_000_000, "uluna")],
            &s(DEFAULT_VALIDATOR),
            &vec![],
            1_000_000,
        )
        .unwrap();
    assert_eq!(res.len(), 2);

    let dels = vec![del(DEFAULT_VALIDATOR, 900_000)];
    hub.slashing(&dels, 1_000_000).unwrap();
    assert_eq!(hub.query_state().exchange_rate.raw, 900_000_000_000_000_000);

    // bonding below the threshold withholds the recovery fee from the mint
    let res = hub
        .execute_bond(
            &s("bob"),
            &vec![coin(1_000_000, "uluna")],
            &s(DEFAULT_VALIDATOR),
            &dels,
            1_000_000,
        )
        .unwrap();
    // mint 1,111,111 less the 1,111 fee
    assert_eq!(res[1], Instruction::Mint { recipient: s("bob"), amount: 1_110_000 });

    // unbonding below the threshold withholds the fee from the batch
    let res = hub.execute_unbond(100_000, &s("token"), BASE, &dels, 1_000_000).unwrap();
    assert_eq!(res.len(), 1);
    let batch = hub.query_current_batch();
    assert_eq!(batch.id, 1);
    assert_eq!(batch.requested_with_fee, 99_900);

    let res = hub.execute_unbond(100_000, &s("token"), BASE + 60, &dels, 900_000).unwrap();
    assert_eq!(res.len(), 2);
    assert_eq!(
        res[0],
        Instruction::Undelegate { validator: s(DEFAULT_VALIDATOR), amount: 179_855 }
    );
    let new_exchange = hub.query_state().exchange_rate;
    assert_eq!(new_exchange.raw, 900_180_036_007_201_440);

    // slashed while unbonding: the matured batch settles below its nominal
    let res = hub.execute_withdraw_unbonded(&s("token"), BASE + 150, 161_870).unwrap();
    assert_eq!(res.len(), 1);
    assert_eq!(res[0], Instruction::Send { recipient: s("token"), amount: 161_868 });

    let all = hub.query_all_history(None, None);
    assert_eq!(all.history[0].amount, 199_800);
    assert_eq!(all.history[0].applied_exchange_rate, new_exchange);
    assert_eq!(all.history[0].withdraw_rate.raw, 810_155_155_155_155_155);
    assert!(all.history[0].released);
    assert_eq!(all.history[0].batch_id, 1);
}

#[test]
fn bond_overflow_is_fatal() {
    // A conversion whose intermediate leaves the numeric range aborts with
    // the arithmetic condition instead of saturating.
    let mut hub = init("owner1", "token", DEFAULT_VALIDATOR);
    do_register_validator(&mut hub, DEFAULT_VALIDATOR);
    let err = hub
        .execute_bond(
            &s("bob"),
            &vec![coin(u128::MAX, "uluna")],
            &s(DEFAULT_VALIDATOR),
            &vec![],
            0,
        )
        .unwrap_err();
    assert_eq!(err, HubError::Arithmetic);
}

#[test]
fn settlement_pays_less_than_available_single_batch() {
    // With one matured batch owed more than the pool holds, the payout is
    // strictly below the available balance.
    let mut hub = init("owner1", "token", DEFAULT_VALIDATOR);
    do_register_validator(&mut hub, DEFAULT_VALIDATOR);
    hub.execute_bond(&s("bob"), &vec![coin(10_000, "uluna")], &s(DEFAULT_VALIDATOR), &vec![], 10_000)
        .unwrap();
    let dels = vec![del(DEFAULT_VALIDATOR, 10_000)];
    hub.execute_unbond(1_000, &s("bob"), BASE + 31, &dels, 10_000).unwrap();

    let available: u128 = 600;
    let res = hub.execute_withdraw_unbonded(&s("bob"), BASE + 122, available).unwrap();
    match &res[0] {
        Instruction::Send { recipient, amount } => {
            assert_eq!(recipient, &s("bob"));
            assert!(*amount < available);
            assert_eq!(*amount, 599);
        }
        other => panic!("unexpected instruction: {:?}", other),
    }
}
