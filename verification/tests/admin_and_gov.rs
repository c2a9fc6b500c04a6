//! Admin-gated mutations, validator churn, reward compounding, the
//! governance tally translation, and each failure condition.

use prism_hub::dec::Dec;
use prism_hub::gov::{enforce_order_and_version, RelayError, TallyResult};
use prism_hub::hubconfig::InstantiateMsg;
use prism_hub::ledger::Hub;
use prism_hub::rewards::process_rewards;
use prism_hub::testing::set_validator_mock;
use prism_hub::types::{Coin, Delegation, HubError, Instruction};

const BASE: u64 = 1_571_797_419;
const DEFAULT_VALIDATOR: &str = "default-validator";
const DEFAULT_VALIDATOR2: &str = "default-validator2000";
const MOCK_CONTRACT_ADDR: &str = "cosmos2contract";

fn coin(amount: u128, denom: &str) -> Coin {
    Coin { denom: denom.to_string(), amount }
}

fn del(validator: &str, amount: u128) -> Delegation {
    Delegation { validator: validator.to_string(), amount, denom: "uluna".to_string() }
}

fn s(x: &str) -> String {
    x.to_string()
}

fn init(owner: &str, token: &str, validator: &str) -> Hub {
    let msg = InstantiateMsg {
        epoch_period: 30,
        underlying_coin_denom: s("uluna"),
        unbonding_period: 2,
        peg_recovery_fee: Dec::zero(),
        er_threshold: Dec::one(),
        validator: s(validator),
        protocol_fee: Dec::zero(),
    };
    let (mut hub, _) =
        Hub::instantiate(msg, &s(owner), &vec![coin(1_000_000, "uluna")], BASE).unwrap();
    hub.execute_update_config(&s(owner), Some(s(token)), None).unwrap();
    hub
}

fn do_register_validator(hub: &mut Hub, validator: &str) {
    let mut known: Vec<String> = Vec::new();
    set_validator_mock(&mut known);
    hub.execute_register_validator(&s("owner1"), &s(MOCK_CONTRACT_ADDR), &s(validator), &known)
        .unwrap();
}

#[test]
fn proper_deregister() {
    let mut hub = init("owner1", "token", DEFAULT_VALIDATOR);
    do_register_validator(&mut hub, DEFAULT_VALIDATOR);
    do_register_validator(&mut hub, DEFAULT_VALIDATOR2);

    // deregistering with no delegation emits nothing
    let res = hub
        .execute_deregister_validator(&s("owner1"), &s(DEFAULT_VALIDATOR), &None, BASE)
        .unwrap();
    assert_eq!(res.len(), 0);

    do_register_validator(&mut hub, DEFAULT_VALIDATOR);

    // invalid sender
    let err = hub
        .execute_deregister_validator(
            &s("invalid"),
            &s(DEFAULT_VALIDATOR),
            &Some(coin(10, "uluna")),
            BASE,
        )
        .unwrap_err();
    assert_eq!(err, HubError::NotAdmin);

    // an active delegation moves to the remaining validator, then the
    // self-addressed compounding trigger follows
    let res = hub
        .execute_deregister_validator(
            &s("owner1"),
            &s(DEFAULT_VALIDATOR),
            &Some(coin(10, "uluna")),
            BASE,
        )
        .unwrap();
    assert_eq!(res.len(), 2);
    assert_eq!(
        res[0],
        Instruction::Redelegate {
            src_validator: s(DEFAULT_VALIDATOR),
            dst_validator: s(DEFAULT_VALIDATOR2),
            amount: 10,
        }
    );
    assert_eq!(res[1], Instruction::TriggerGlobalIndex);

    let listed = hub.query_whitelisted_validators();
    assert_eq!(listed.validators, vec![s(DEFAULT_VALIDATOR2)]);

    // the last whitelisted validator cannot be removed
    let err = hub
        .execute_deregister_validator(&s("owner1"), &s(DEFAULT_VALIDATOR2), &None, BASE)
        .unwrap_err();
    assert_eq!(err, HubError::LastValidator);
}

#[test]
pub fn proper_update_global_index() {
    let mut hub = init("owner1", "token", DEFAULT_VALIDATOR);
    do_register_validator(&mut hub, DEFAULT_VALIDATOR);

    // with nothing delegated, only the self-addressed apply call goes out
    let res = hub.execute_update_global(&vec![], 0, BASE);
    assert_eq!(res.len(), 1);
    assert_eq!(res[0], Instruction::TriggerExchangeRateUpdate);

    hub.execute_bond(&s("addr1000"), &vec![coin(10, "uluna")], &s(DEFAULT_VALIDATOR), &vec![], 10)
        .unwrap();

    let dels = vec![del(DEFAULT_VALIDATOR, 10)];
    let res = hub.execute_update_global(&dels, 0, BASE);
    assert_eq!(res.len(), 2);
    assert_eq!(res[0], Instruction::WithdrawReward { validator: s(DEFAULT_VALIDATOR) });
    assert_eq!(res[1], Instruction::TriggerExchangeRateUpdate);
    assert_eq!(hub.query_state().last_index_modification, BASE);
}

#[test]
pub fn proper_update_global_index_two_validators() {
    let mut hub = init("owner1", "token", DEFAULT_VALIDATOR);
    do_register_validator(&mut hub, DEFAULT_VALIDATOR);
    hub.execute_bond(&s("addr1000"), &vec![coin(10, "uluna")], &s(DEFAULT_VALIDATOR), &vec![], 10)
        .unwrap();
    do_register_validator(&mut hub, DEFAULT_VALIDATOR2);
    hub.execute_bond(&s("addr1000"), &vec![coin(10, "uluna")], &s(DEFAULT_VALIDATOR2), &vec![], 20)
        .unwrap();

    let dels = vec![del(DEFAULT_VALIDATOR, 10), del(DEFAULT_VALIDATOR2, 10)];
    let res = hub.execute_update_global(&dels, 0, BASE);
    assert_eq!(res.len(), 3);
    assert_eq!(res[0], Instruction::WithdrawReward { validator: s(DEFAULT_VALIDATOR) });
    assert_eq!(res[1], Instruction::WithdrawReward { validator: s(DEFAULT_VALIDATOR2) });
}

#[test]
pub fn proper_update_global_index_respect_one_registered_validator() {
    let mut hub = init("owner1", "token", DEFAULT_VALIDATOR);
    do_register_validator(&mut hub, DEFAULT_VALIDATOR);
    hub.execute_bond(&s("addr1000"), &vec![coin(10, "uluna")], &s(DEFAULT_VALIDATOR), &vec![], 10)
        .unwrap();
    do_register_validator(&mut hub, DEFAULT_VALIDATOR2);

    // the second validator is whitelisted but holds no delegation
    let dels = vec![del(DEFAULT_VALIDATOR, 10)];
    let res = hub.execute_update_global(&dels, 0, BASE);
    assert_eq!(res.len(), 2);
    assert_eq!(res[0], Instruction::WithdrawReward { validator: s(DEFAULT_VALIDATOR) });
}

#[test]
pub fn proper_update_exchange_rate() {
    let mut hub = init("owner1", "token", DEFAULT_VALIDATOR);
    do_register_validator(&mut hub, DEFAULT_VALIDATOR);
    hub.execute_bond(&s("addr1000"), &vec![coin(10, "uluna")], &s(DEFAULT_VALIDATOR), &vec![], 10)
        .unwrap();
    let dels = vec![del(DEFAULT_VALIDATOR, 10)];

    // trigger records the pre-harvest balance
    let res = hub.execute_update_global(&dels, 0, BASE);
    assert_eq!(res.len(), 2);
    assert_eq!(res[1], Instruction::TriggerExchangeRateUpdate);

    // the apply phase refuses every caller but the hub itself
    let err = hub
        .execute_update_exchange_rate(
            &s("addr1000"),
            &s(MOCK_CONTRACT_ADDR),
            900,
            1_000_010,
            &dels,
            BASE,
        )
        .unwrap_err();
    assert_eq!(err, HubError::Unauthorized);

    // harvested rewards arrive; the apply re-delegates them
    let res = hub
        .execute_update_exchange_rate(
            &s(MOCK_CONTRACT_ADDR),
            &s(MOCK_CONTRACT_ADDR),
            900,
            1_000_010,
            &dels,
            BASE,
        )
        .unwrap();
    assert_eq!(res.len(), 1);
    assert_eq!(
        res[0],
        Instruction::Delegate { validator: s(DEFAULT_VALIDATOR), amount: 900 }
    );

    // a second round compounds only the fresh difference
    let res = hub.execute_update_global(&dels, 900, BASE);
    assert_eq!(res.len(), 2);
    assert_eq!(hub.query_state().principle_balance_before_exchange_update, 900);
    let res = hub
        .execute_update_exchange_rate(
            &s(MOCK_CONTRACT_ADDR),
            &s(MOCK_CONTRACT_ADDR),
            1_000,
            1_000_010,
            &dels,
            BASE,
        )
        .unwrap();
    assert_eq!(res.len(), 1);
    assert_eq!(
        res[0],
        Instruction::Delegate { validator: s(DEFAULT_VALIDATOR), amount: 100 }
    );
}

#[test]
pub fn proper_protocol_fee() {
    let mut hub = init("owner1", "token", DEFAULT_VALIDATOR);
    hub.execute_update_params(
        &s("owner1"),
        None,
        None,
        Some(Dec::ratio(1, 1000).unwrap()),
        Some(Dec::ratio(99, 100).unwrap()),
        Some(Dec::ratio(1, 100).unwrap()),
    )
    .unwrap();
    let params = hub.query_parameters();
    assert_eq!(params.protocol_fee.raw, 10_000_000_000_000_000);

    do_register_validator(&mut hub, DEFAULT_VALIDATOR);
    hub.execute_bond(
        &s("bob"),
        &vec![coin(1_000_000, "uluna")],
        &s(DEFAULT_VALIDATOR),
        &vec![],
        1_000_000,
    )
    .unwrap();

    let dels = vec![del(DEFAULT_VALIDATOR, 1_000_000)];
    let res = hub.execute_update_global(&dels, 0, BASE);
    assert_eq!(res.len(), 2);
    assert_eq!(res[0], Instruction::WithdrawReward { validator: s(DEFAULT_VALIDATOR) });
    assert_eq!(hub.query_state().last_index_modification, BASE);

    // a fee is due but no collector is set
    let err = hub
        .execute_update_exchange_rate(
            &s(MOCK_CONTRACT_ADDR),
            &s(MOCK_CONTRACT_ADDR),
            900,
            1_000_000,
            &dels,
            BASE,
        )
        .unwrap_err();
    assert_eq!(err, HubError::FeeCollectorUnset);

    hub.execute_update_config(&s("owner1"), None, Some(s("fee_collector"))).unwrap();
    let conf = hub.query_config();
    assert_eq!(conf.protocol_fee_collector, Some(s("fee_collector")));

    let res = hub
        .execute_update_exchange_rate(
            &s(MOCK_CONTRACT_ADDR),
            &s(MOCK_CONTRACT_ADDR),
            900,
            1_000_000,
            &dels,
            BASE,
        )
        .unwrap();
    assert_eq!(res.len(), 2);
    assert_eq!(res[0], Instruction::Send { recipient: s("fee_collector"), amount: 9 });
    assert_eq!(
        res[1],
        Instruction::Delegate { validator: s(DEFAULT_VALIDATOR), amount: 891 }
    );
}

#[test]
pub fn test_update_params() {
    let mut hub = init("owner1", "token", DEFAULT_VALIDATOR);

    let err = hub
        .execute_update_params(&s("invalid"), Some(20), None, None, None, None)
        .unwrap_err();
    assert_eq!(err, HubError::NotAdmin);

    hub.execute_update_params(&s("owner1"), Some(20), None, None, None, None).unwrap();
    let params = hub.query_parameters();
    assert_eq!(params.epoch_period, 20);
    assert_eq!(params.underlying_coin_denom, s("uluna"));
    assert_eq!(params.unbonding_period, 2);
    assert_eq!(params.peg_recovery_fee, Dec::zero());
    assert_eq!(params.er_threshold, Dec::one());

    hub.execute_update_params(
        &s("owner1"),
        None,
        Some(3),
        Some(Dec::one()),
        Some(Dec::zero()),
        None,
    )
    .unwrap();
    let params = hub.query_parameters();
    assert_eq!(params.epoch_period, 20);
    assert_eq!(params.underlying_coin_denom, s("uluna"));
    assert_eq!(params.unbonding_period, 3);
    assert_eq!(params.peg_recovery_fee, Dec::one());
    assert_eq!(params.er_threshold, Dec::zero());
}

#[test]
pub fn proper_update_config() {
    let mut hub = init("owner1", "token", DEFAULT_VALIDATOR);
    assert_eq!(hub.config.admin, s("owner1"));

    // only the admin can hand the admin identity over
    let err = hub.execute_update_admin(&s("invalid_owner"), &s("new_owner")).unwrap_err();
    assert_eq!(err, HubError::NotAdmin);

    hub.execute_update_admin(&s("owner1"), &s("new_owner")).unwrap();
    assert_eq!(hub.config.admin, s("new_owner"));

    // the new admin acts; the old one no longer can
    hub.execute_update_params(&s("new_owner"), None, None, None, None, None).unwrap();
    let err = hub
        .execute_update_params(&s("owner1"), None, None, None, None, None)
        .unwrap_err();
    assert_eq!(err, HubError::NotAdmin);

    // the receipt-token ledger was registered at setup and is immutable
    let err = hub
        .execute_update_config(&s("new_owner"), Some(s("new token")), None)
        .unwrap_err();
    assert_eq!(err, HubError::TokenRegistered);
    let conf = hub.query_config();
    assert_eq!(conf.token_contract, Some(s("token")));

    hub.execute_update_config(&s("new_owner"), None, Some(s("fee_collector"))).unwrap();
    let conf = hub.query_config();
    assert_eq!(conf.protocol_fee_collector, Some(s("fee_collector")));
    assert_eq!(hub.config.admin, s("new_owner"));
}

#[test]
fn proper_receive() {
    // The burn notification must come from the registered token ledger;
    // a valid one burns exactly the received amount.
    let mut hub = init("owner1", "token", DEFAULT_VALIDATOR);
    do_register_validator(&mut hub, DEFAULT_VALIDATOR);
    hub.execute_bond(&s("addr0001"), &vec![coin(10, "uluna")], &s(DEFAULT_VALIDATOR), &vec![], 10)
        .unwrap();

    let err = hub.assert_token_contract(&s("invalid")).unwrap_err();
    assert_eq!(err, HubError::Unauthorized);
    hub.assert_token_contract(&s("token")).unwrap();

    let dels = vec![del(DEFAULT_VALIDATOR, 10)];
    let res = hub.execute_unbond(10, &s("addr0001"), BASE, &dels, 10).unwrap();
    assert_eq!(res.len(), 1);
    assert_eq!(res[0], Instruction::Burn { amount: 10 });
}

#[test]
fn pause_gates_mutations() {
    let mut hub = init("owner1", "token", DEFAULT_VALIDATOR);
    let err = hub.execute_pause(&s("someone")).unwrap_err();
    assert_eq!(err, HubError::NotAdmin);

    hub.execute_pause(&s("owner1")).unwrap();
    assert_eq!(hub.is_contract_paused().unwrap_err(), HubError::Paused);

    hub.execute_unpause(&s("owner1")).unwrap();
    hub.is_contract_paused().unwrap();
}

#[test]
fn params_fee_bounds_are_enforced() {
    // instantiation rejects a recovery fee above one
    let msg = InstantiateMsg {
        epoch_period: 30,
        underlying_coin_denom: s("uluna"),
        unbonding_period: 2,
        peg_recovery_fee: Dec::ratio(2, 1).unwrap(),
        er_threshold: Dec::one(),
        validator: s(DEFAULT_VALIDATOR),
        protocol_fee: Dec::zero(),
    };
    let err =
        Hub::instantiate(msg, &s("owner1"), &vec![coin(1_000_000, "uluna")], BASE).unwrap_err();
    assert_eq!(err, HubError::InvalidParams);

    // and a missing payment is reported before any parameter problem
    let msg = InstantiateMsg {
        epoch_period: 30,
        underlying_coin_denom: s("uluna"),
        unbonding_period: 2,
        peg_recovery_fee: Dec::ratio(2, 1).unwrap(),
        er_threshold: Dec::one(),
        validator: s(DEFAULT_VALIDATOR),
        protocol_fee: Dec::zero(),
    };
    let err = Hub::instantiate(msg, &s("owner1"), &vec![], BASE).unwrap_err();
    assert_eq!(err, HubError::NoPayment);

    // the update path holds the same standing bounds
    let mut hub = init("owner1", "token", DEFAULT_VALIDATOR);
    let before = hub.query_parameters();
    let err = hub
        .execute_update_params(&s("owner1"), None, None, Some(Dec::ratio(2, 1).unwrap()), None, None)
        .unwrap_err();
    assert_eq!(err, HubError::InvalidParams);
    let err = hub
        .execute_update_params(&s("owner1"), None, None, None, None, Some(Dec::ratio(3, 2).unwrap()))
        .unwrap_err();
    assert_eq!(err, HubError::InvalidParams);
    assert_eq!(hub.query_parameters(), before);
}

#[test]
fn instantiate_rejects_bad_params() {
    let msg = InstantiateMsg {
        epoch_period: 30,
        underlying_coin_denom: s("uluna"),
        unbonding_period: 200_000_000,
        peg_recovery_fee: Dec::zero(),
        er_threshold: Dec::one(),
        validator: s(DEFAULT_VALIDATOR),
        protocol_fee: Dec::zero(),
    };
    let err =
        Hub::instantiate(msg, &s("owner1"), &vec![coin(1_000_000, "uluna")], BASE).unwrap_err();
    assert_eq!(err, HubError::InvalidParams);
}

#[test]
fn unbond_failure_conditions() {
    let mut hub = init("owner1", "token", DEFAULT_VALIDATOR);
    do_register_validator(&mut hub, DEFAULT_VALIDATOR);

    // burning more than the whole supply is a fatal accounting error
    let dels = vec![del(DEFAULT_VALIDATOR, 1_000_000)];
    let err = hub.execute_unbond(2_000_000, &s("bob"), BASE, &dels, 1_000_000).unwrap_err();
    assert_eq!(err, HubError::Arithmetic);

    // finalizing more than is actually delegated is a fatal precondition
    // violation
    let foreign = vec![Delegation {
        validator: s(DEFAULT_VALIDATOR),
        amount: 5,
        denom: s("ukrt"),
    }];
    let err = hub
        .execute_unbond(600_000, &s("bob"), BASE + 31, &foreign, 1_000_000)
        .unwrap_err();
    assert_eq!(err, HubError::InsufficientDelegations);
}

#[test]
fn apply_phase_failure_conditions() {
    let mut hub = init("owner1", "token", DEFAULT_VALIDATOR);
    do_register_validator(&mut hub, DEFAULT_VALIDATOR);

    // a harvest below the recorded balance never clamps to zero
    let _ = hub.execute_update_global(&vec![del(DEFAULT_VALIDATOR, 100)], 500, BASE);
    let err = hub
        .execute_update_exchange_rate(
            &s(MOCK_CONTRACT_ADDR),
            &s(MOCK_CONTRACT_ADDR),
            400,
            1_000_000,
            &vec![del(DEFAULT_VALIDATOR, 100)],
            BASE,
        )
        .unwrap_err();
    assert_eq!(err, HubError::Arithmetic);

    // nothing delegated: nowhere to re-delegate the rewards
    let err = hub
        .execute_update_exchange_rate(
            &s(MOCK_CONTRACT_ADDR),
            &s(MOCK_CONTRACT_ADDR),
            900,
            1_000_000,
            &vec![],
            BASE,
        )
        .unwrap_err();
    assert_eq!(err, HubError::NoDelegations);
}

#[test]
fn test_tally_result() {
    let tally = TallyResult {
        yes_count: s("0.9"),
        abstain_count: s(""),
        no_count: s("0"),
        no_with_veto_count: s("x"),
    };
    let options = tally.to_weighted_options();
    assert_eq!(options.len(), 1);
    assert_eq!(options[0].option, 1);
    assert_eq!(options[0].weight, s("0.9"));
}

#[test]
fn rewards_forward_only_for_hub() {
    let err = process_rewards(&s("someone"), &s("hub"), 123).unwrap_err();
    assert_eq!(err, HubError::Unauthorized);

    let fwd = process_rewards(&s("hub"), &s("hub"), 123).unwrap();
    assert_eq!(fwd.hub_contract, s("hub"));
    assert_eq!(fwd.amount, 123);
}

#[test]
fn history_pagination() {
    let mut hub = init("owner1", "token", DEFAULT_VALIDATOR);
    do_register_validator(&mut hub, DEFAULT_VALIDATOR);
    let dels = vec![del(DEFAULT_VALIDATOR, 1_000_000)];

    // roll three batches
    let mut t = BASE;
    for _ in 0..3 {
        t += 31;
        hub.execute_unbond(10, &s("bob"), t, &dels, 1_000_000).unwrap();
    }
    let all = hub.query_all_history(None, None);
    assert_eq!(all.history.len(), 3);
    assert_eq!(all.history[0].batch_id, 1);

    let page = hub.query_all_history(Some(1), Some(1));
    assert_eq!(page.history.len(), 1);
    assert_eq!(page.history[0].batch_id, 2);

    let page = hub.query_all_history(Some(3), None);
    assert_eq!(page.history.len(), 0);
}

#[test]
fn relay_channel_constraints() {
    let v = s("pgov-1");
    enforce_order_and_version(&v, &None, true).unwrap();
    enforce_order_and_version(&v, &Some(s("pgov-1")), true).unwrap();
    assert_eq!(
        enforce_order_and_version(&s("ics20-1"), &None, true).unwrap_err(),
        RelayError::InvalidIbcVersion
    );
    assert_eq!(
        enforce_order_and_version(&v, &Some(s("ics20-1")), true).unwrap_err(),
        RelayError::InvalidIbcVersion
    );
    assert_eq!(
        enforce_order_and_version(&v, &None, false).unwrap_err(),
        RelayError::OnlyUnorderedChannel
    );
}
