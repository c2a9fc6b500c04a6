//! Instantiation and the admin-gated mutations: parameters, wiring,
//! validator whitelist, pause, and admin transfer. Authorization compares
//! the caller to the single stored admin identity; registering a validator
//! also accepts the hub's own address, which the instantiation self-call
//! uses. Authorization failure is a distinct condition from validation
//! failure.

use vstd::prelude::*;
use crate::dec::Dec;
use crate::DEC_ONE;
use crate::bond::{coins_view, spec_find_payment};
use crate::compound::xorshift_pick;
use crate::ledger::{Hub, strings_view};
use crate::types::{State, Parameters, ParametersV, Config, CurrentBatch, Coin, CoinV, Instruction,
    InstructionV, HubError, instrs_view};

verus! {

/// The staking protocol's own unbonding time; periods beyond it are
/// meaningless.
pub const MAINNET_UNDELEGATION_TIME: u64 = 1814400;

/// What instantiation is given.
#[derive(Clone, PartialEq, Eq, Debug)]
pub struct InstantiateMsg {
    pub epoch_period: u64,
    pub underlying_coin_denom: String,
    pub unbonding_period: u64,
    pub peg_recovery_fee: Dec,
    pub er_threshold: Dec,
    pub validator: String,
    pub protocol_fee: Dec,
}

/// Whether the tunable parameters lie in their allowed ranges: periods no
/// longer than the staking protocol's own unbonding time, a recovery
/// threshold of at least one, both fee fractions at most one, and the
/// expected underlying denomination.
pub open spec fn spec_params_valid(msg: InstantiateMsg) -> bool {
    &&& msg.epoch_period <= MAINNET_UNDELEGATION_TIME
    &&& msg.er_threshold.raw >= DEC_ONE
    &&& msg.protocol_fee.raw <= DEC_ONE
    &&& msg.peg_recovery_fee.raw <= DEC_ONE
    &&& msg.unbonding_period <= MAINNET_UNDELEGATION_TIME
    &&& msg.underlying_coin_denom@ == "uluna"@
}

/// Validate the instantiation parameters.
pub fn validate_params(msg: &InstantiateMsg) -> (r: Result<(), HubError>)
    ensures
        r is Ok <==> spec_params_valid(*msg),
        r is Err ==> r == Result::<(), HubError>::Err(HubError::InvalidParams),
{
    if msg.epoch_period > MAINNET_UNDELEGATION_TIME {
        return Err(HubError::InvalidParams);
    }
    if msg.er_threshold.lt(&Dec::one()) {
        return Err(HubError::InvalidParams);
    }
    if Dec::one().lt(&msg.protocol_fee) {
        return Err(HubError::InvalidParams);
    }
    if Dec::one().lt(&msg.peg_recovery_fee) {
        return Err(HubError::InvalidParams);
    }
    if msg.unbonding_period > MAINNET_UNDELEGATION_TIME {
        return Err(HubError::InvalidParams);
    }
    let expected = "uluna".to_owned();
    if !(msg.underlying_coin_denom == expected) {
        return Err(HubError::InvalidParams);
    }
    Ok(())
}

/// Whether `v` holds `x`.
fn contains_string(v: &Vec<String>, x: &String) -> (r: bool)
    ensures
        r == strings_view(v@).contains(x@),
{
    let n = v.len();
    let mut i: usize = 0;
    while i < n
        invariant
            n == v.len(),
            0 <= i <= n,
            forall|j: int| 0 <= j < i ==> #[trigger] strings_view(v@)[j] != x@,
        decreases n - i,
    {
        if v[i] == *x {
            proof {
                assert(strings_view(v@)[i as int] == x@);
            }
            return true;
        }
        proof {
            assert(strings_view(v@)[i as int] == v@[i as int]@);
        }
        i += 1;
    }
    proof {
        if strings_view(v@).contains(x@) {
            let j = choose|j: int| 0 <= j < strings_view(v@).len() && strings_view(v@)[j] == x@;
            assert(false);
        }
    }
    false
}

impl Hub {
    /// Fails with the distinct paused condition while the ledger is paused.
    pub fn is_contract_paused(&self) -> (r: Result<(), HubError>)
        ensures
            self.paused ==> r == Result::<(), HubError>::Err(HubError::Paused),
            !self.paused ==> r is Ok,
    {
        if self.paused {
            Err(HubError::Paused)
        } else {
            Ok(())
        }
    }

    /// Fails with the distinct not-admin condition unless `sender` is the
    /// stored admin.
    pub fn unwrap_assert_admin(&self, sender: &String) -> (r: Result<(), HubError>)
        ensures
            sender@ == self@.config.admin ==> r is Ok,
            sender@ != self@.config.admin ==> r == Result::<(), HubError>::Err(HubError::NotAdmin),
    {
        if *sender == self.config.admin {
            Ok(())
        } else {
            Err(HubError::NotAdmin)
        }
    }

    /// Fails unless `sender` is the registered receipt-token ledger; only
    /// it may notify the hub of burns.
    pub fn assert_token_contract(&self, sender: &String) -> (r: Result<(), HubError>)
        ensures
            (match self@.config.token_contract {
                Some(t) => sender@ == t,
                None => false,
            }) ==> r is Ok,
            !(match self@.config.token_contract {
                Some(t) => sender@ == t,
                None => false,
            }) ==> r == Result::<(), HubError>::Err(HubError::Unauthorized),
    {
        match &self.config.token_contract {
            Some(t) => {
                if *sender == *t {
                    Ok(())
                } else {
                    Err(HubError::Unauthorized)
                }
            },
            None => Err(HubError::Unauthorized),
        }
    }

    /// Pause all mutations. Admin only.
    pub fn execute_pause(&mut self, sender: &String) -> (r: Result<(), HubError>)
        requires
            old(self)@.wf(),
        ensures
            final(self)@.wf(),
            sender@ != old(self)@.config.admin ==> (r == Result::<(), HubError>::Err(
                HubError::NotAdmin,
            ) && *final(self) == *old(self)),
            sender@ == old(self)@.config.admin ==> (r is Ok && *final(self) == (Hub {
                paused: true,
                ..*old(self)
            })),
    {
        match self.unwrap_assert_admin(sender) {
            Ok(()) => {
                self.paused = true;
                proof {
                    assert(self@.wait_list == old(self)@.wait_list);
                    assert(self@.histories == old(self)@.histories);
                    assert(self@.validators == old(self)@.validators);
                    assert(self@.wf());
                }
                Ok(())
            },
            Err(e) => Err(e),
        }
    }

    /// Resume after a pause. Admin only.
    pub fn execute_unpause(&mut self, sender: &String) -> (r: Result<(), HubError>)
        requires
            old(self)@.wf(),
        ensures
            final(self)@.wf(),
            sender@ != old(self)@.config.admin ==> (r == Result::<(), HubError>::Err(
                HubError::NotAdmin,
            ) && *final(self) == *old(self)),
            sender@ == old(self)@.config.admin ==> (r is Ok && *final(self) == (Hub {
                paused: false,
                ..*old(self)
            })),
    {
        match self.unwrap_assert_admin(sender) {
            Ok(()) => {
                self.paused = false;
                proof {
                    assert(self@.wait_list == old(self)@.wait_list);
                    assert(self@.histories == old(self)@.histories);
                    assert(self@.validators == old(self)@.validators);
                    assert(self@.wf());
                }
                Ok(())
            },
            Err(e) => Err(e),
        }
    }

    /// Hand the admin identity to `new_admin`. Admin only.
    pub fn execute_update_admin(&mut self, sender: &String, new_admin: &String) -> (r: Result<
        (),
        HubError,
    >)
        requires
            old(self)@.wf(),
        ensures
            final(self)@.wf(),
            sender@ != old(self)@.config.admin ==> (r == Result::<(), HubError>::Err(
                HubError::NotAdmin,
            ) && *final(self) == *old(self)),
            sender@ == old(self)@.config.admin ==> (r is Ok && final(self)@.config.admin
                == new_admin@ && final(self)@.config.token_contract
                == old(self)@.config.token_contract && final(self)@.config.token_contract_registered
                == old(self)@.config.token_contract_registered
                && final(self)@.config.protocol_fee_collector
                == old(self)@.config.protocol_fee_collector && final(self).state == old(self).state
                && final(self).parameters == old(self).parameters && final(self).current_batch
                == old(self).current_batch && final(self)@.validators == old(self)@.validators
                && final(self)@.wait_list == old(self)@.wait_list && final(self)@.histories
                == old(self)@.histories && final(self).paused == old(self).paused),
    {
        match self.unwrap_assert_admin(sender) {
            Ok(()) => {
                self.config.admin = new_admin.clone();
                proof {
                    assert(self@.wait_list == old(self)@.wait_list);
                    assert(self@.histories == old(self)@.histories);
                    assert(self@.validators == old(self)@.validators);
                    assert(self@.wf());
                }
                Ok(())
            },
            Err(e) => Err(e),
        }
    }

    /// Replace any subset of the tunable parameters. Admin only. The fee
    /// fractions are standing invariants of the ledger: a resulting recovery
    /// or protocol fee above one is rejected.
    pub fn execute_update_params(
        &mut self,
        sender: &String,
        epoch_period: Option<u64>,
        unbonding_period: Option<u64>,
        peg_recovery_fee: Option<Dec>,
        er_threshold: Option<Dec>,
        protocol_fee: Option<Dec>,
    ) -> (r: Result<(), HubError>)
        requires
            old(self)@.wf(),
        ensures
            final(self)@.wf(),
            sender@ != old(self)@.config.admin ==> (r == Result::<(), HubError>::Err(
                HubError::NotAdmin,
            ) && *final(self) == *old(self)),
            (sender@ == old(self)@.config.admin && ((match peg_recovery_fee {
                Some(v) => v,
                None => old(self).parameters.peg_recovery_fee,
            }).raw > crate::DEC_ONE || (match protocol_fee {
                Some(v) => v,
                None => old(self).parameters.protocol_fee,
            }).raw > crate::DEC_ONE)) ==> (r == Result::<(), HubError>::Err(
                HubError::InvalidParams,
            ) && *final(self) == *old(self)),
            (sender@ == old(self)@.config.admin && (match peg_recovery_fee {
                Some(v) => v,
                None => old(self).parameters.peg_recovery_fee,
            }).raw <= crate::DEC_ONE && (match protocol_fee {
                Some(v) => v,
                None => old(self).parameters.protocol_fee,
            }).raw <= crate::DEC_ONE) ==> (r is Ok && final(self).parameters@ == (
            ParametersV {
                epoch_period: (match epoch_period {
                    Some(v) => v,
                    None => old(self).parameters.epoch_period,
                }),
                underlying_coin_denom: old(self).parameters.underlying_coin_denom@,
                unbonding_period: (match unbonding_period {
                    Some(v) => v,
                    None => old(self).parameters.unbonding_period,
                }),
                peg_recovery_fee: (match peg_recovery_fee {
                    Some(v) => v,
                    None => old(self).parameters.peg_recovery_fee,
                }),
                er_threshold: (match er_threshold {
                    Some(v) => v,
                    None => old(self).parameters.er_threshold,
                }),
                protocol_fee: (match protocol_fee {
                    Some(v) => v,
                    None => old(self).parameters.protocol_fee,
                }),
            }) && final(self).state == old(self).state && final(self).config == old(self).config
                && final(self).current_batch == old(self).current_batch && final(self)@.validators
                == old(self)@.validators && final(self)@.wait_list == old(self)@.wait_list
                && final(self)@.histories == old(self)@.histories && final(self).paused == old(self).paused),
    {
        match self.unwrap_assert_admin(sender) {
            Ok(()) => {},
            Err(e) => {
                return Err(e);
            },
        }
        let new_params = Parameters {
            epoch_period: match epoch_period {
                Some(v) => v,
                None => self.parameters.epoch_period,
            },
            underlying_coin_denom: self.parameters.underlying_coin_denom.clone(),
            unbonding_period: match unbonding_period {
                Some(v) => v,
                None => self.parameters.unbonding_period,
            },
            peg_recovery_fee: match peg_recovery_fee {
                Some(v) => v,
                None => self.parameters.peg_recovery_fee,
            },
            er_threshold: match er_threshold {
                Some(v) => v,
                None => self.parameters.er_threshold,
            },
            protocol_fee: match protocol_fee {
                Some(v) => v,
                None => self.parameters.protocol_fee,
            },
        };
        if Dec::one().lt(&new_params.peg_recovery_fee) {
            return Err(HubError::InvalidParams);
        }
        if Dec::one().lt(&new_params.protocol_fee) {
            return Err(HubError::InvalidParams);
        }
        self.parameters = new_params;
        proof {
            assert(self@.wait_list == old(self)@.wait_list);
            assert(self@.histories == old(self)@.histories);
            assert(self@.validators == old(self)@.validators);
            assert(self@.wf());
        }
        Ok(())
    }

    /// Register the receipt-token ledger (once) and the fee collector.
    /// Admin only; the receipt-token address is immutable once set.
    pub fn execute_update_config(
        &mut self,
        sender: &String,
        token_contract: Option<String>,
        protocol_fee_collector: Option<String>,
    ) -> (r: Result<(), HubError>)
        requires
            old(self)@.wf(),
        ensures
            final(self)@.wf(),
            final(self).state == old(self).state,
            final(self).parameters == old(self).parameters,
            final(self).current_batch == old(self).current_batch,
            final(self)@.validators == old(self)@.validators,
            final(self)@.wait_list == old(self)@.wait_list,
            final(self)@.histories == old(self)@.histories,
            final(self).paused == old(self).paused,
            sender@ != old(self)@.config.admin ==> (r == Result::<(), HubError>::Err(
                HubError::NotAdmin,
            ) && *final(self) == *old(self)),
            (sender@ == old(self)@.config.admin && token_contract is Some
                && old(self).config.token_contract_registered) ==> (r == Result::<
                (),
                HubError,
            >::Err(HubError::TokenRegistered) && *final(self) == *old(self)),
            (sender@ == old(self)@.config.admin && !(token_contract is Some
                && old(self).config.token_contract_registered)) ==> (r is Ok
                && final(self)@.config.admin == old(self)@.config.admin && final(self)@.config.token_contract == (
            match token_contract {
                Some(ref t) => Some(t@),
                None => old(self)@.config.token_contract,
            }) && final(self)@.config.token_contract_registered == (old(self).config.token_contract_registered || token_contract is Some) && final(self)@.config.protocol_fee_collector == (match protocol_fee_collector {
                Some(ref c) => Some(c@),
                None => old(self)@.config.protocol_fee_collector,
            })),
    {
        match self.unwrap_assert_admin(sender) {
            Ok(()) => {},
            Err(e) => {
                return Err(e);
            },
        }
        match token_contract {
            Some(token) => {
                if self.config.token_contract_registered {
                    return Err(HubError::TokenRegistered);
                }
                self.config.token_contract = Some(token);
                self.config.token_contract_registered = true;
            },
            None => {},
        }
        match protocol_fee_collector {
            Some(collector) => {
                self.config.protocol_fee_collector = Some(collector);
            },
            None => {},
        }
        proof {
            assert(self@.wait_list == old(self)@.wait_list);
            assert(self@.histories == old(self)@.histories);
            assert(self@.validators == old(self)@.validators);
            assert(self@.wf());
        }
        Ok(())
    }

    /// Whitelist `validator`. Allowed for the admin and for the hub itself
    /// (the instantiation self-call); the name must be a validator the
    /// staking system knows.
    pub fn execute_register_validator(
        &mut self,
        sender: &String,
        contract: &String,
        validator: &String,
        known_validators: &Vec<String>,
    ) -> (r: Result<(), HubError>)
        requires
            old(self)@.wf(),
        ensures
            final(self)@.wf(),
            final(self).state == old(self).state,
            final(self).parameters == old(self).parameters,
            final(self).config == old(self).config,
            final(self).current_batch == old(self).current_batch,
            final(self)@.wait_list == old(self)@.wait_list,
            final(self)@.histories == old(self)@.histories,
            final(self).paused == old(self).paused,
            (sender@ != old(self)@.config.admin && sender@ != contract@) ==> (r == Result::<
                (),
                HubError,
            >::Err(HubError::NotAdmin) && *final(self) == *old(self)),
            (sender@ == old(self)@.config.admin || sender@ == contract@)
                ==> (if !strings_view(known_validators@).contains(validator@) {
                r == Result::<(), HubError>::Err(HubError::NotValidator) && *final(self) == *old(self)
            } else {
                r is Ok && final(self)@.validators == (if old(self)@.validators.contains(
                    validator@,
                ) {
                    old(self)@.validators
                } else {
                    old(self)@.validators.push(validator@)
                })
            }),
    {
        let is_admin = *sender == self.config.admin;
        let is_self = *sender == *contract;
        if !is_admin && !is_self {
            return Err(HubError::NotAdmin);
        }
        if !contains_string(known_validators, validator) {
            return Err(HubError::NotValidator);
        }
        if !self.has_validator(validator) {
            let ghost vals0 = self@.validators;
            self.validators.push(validator.clone());
            proof {
                assert(self@.validators =~= vals0.push(validator@));
                assert(forall|j: int| 0 <= j < vals0.len() ==> #[trigger] self@.validators[j]
                    == vals0[j]);
                assert(self@.validators[vals0.len() as int] == validator@);
                assert(self@.wait_list == old(self)@.wait_list);
                assert(self@.histories == old(self)@.histories);
                assert forall|i: int, j: int|
                    0 <= i < j < self@.validators.len() implies #[trigger] self@.validators[i]
                    != #[trigger] self@.validators[j] by {
                    if j < vals0.len() {
                    } else {
                        assert(self@.validators[j] == validator@);
                        assert(!vals0.contains(validator@));
                        assert(self@.validators[i] == vals0[i]);
                    }
                }
                assert(self@.wf());
            }
        }
        Ok(())
    }

    /// Remove `validator` from the whitelist. Admin only; the whitelist must
    /// keep at least one entry. An active delegation to the removed
    /// validator is moved to a pseudo-randomly picked remaining validator,
    /// followed by the self-addressed compounding trigger.
    pub fn execute_deregister_validator(
        &mut self,
        sender: &String,
        validator: &String,
        delegated: &Option<Coin>,
        block_height: u64,
    ) -> (r: Result<Vec<Instruction>, HubError>)
        requires
            old(self)@.wf(),
        ensures
            final(self)@.wf(),
            final(self).state == old(self).state,
            final(self).parameters == old(self).parameters,
            final(self).config == old(self).config,
            final(self).current_batch == old(self).current_batch,
            final(self)@.wait_list == old(self)@.wait_list,
            final(self)@.histories == old(self)@.histories,
            final(self).paused == old(self).paused,
            sender@ != old(self)@.config.admin ==> (r == Result::<Vec<Instruction>, HubError>::Err(
                HubError::NotAdmin,
            ) && *final(self) == *old(self)),
            (sender@ == old(self)@.config.admin && old(self)@.validators.len() <= 1) ==> (r
                == Result::<Vec<Instruction>, HubError>::Err(HubError::LastValidator) && *final(self) == *old(self)),
            (sender@ == old(self)@.config.admin && old(self)@.validators.len() > 1) ==> ({
                &&& r is Ok
                &&& final(self)@.validators == spec_without(old(self)@.validators, validator@)
                &&& (delegated matches Some(c) ==> ({
                    let ins = instrs_view(r->Ok_0@);
                    &&& ins.len() == 2
                    &&& (ins[0] matches InstructionV::Redelegate {
                        src_validator,
                        dst_validator,
                        amount,
                    } && src_validator == validator@ && amount == c.amount && final(self)@.validators.contains(dst_validator))
                    &&& ins[1] == InstructionV::TriggerGlobalIndex
                }))
                &&& (delegated is None ==> r->Ok_0@.len() == 0)
            }),
    {
        match self.unwrap_assert_admin(sender) {
            Ok(()) => {},
            Err(e) => {
                return Err(e);
            },
        }
        if self.validators.len() <= 1 {
            return Err(HubError::LastValidator);
        }
        let ghost vals0 = self@.validators;
        // Remove the validator, keeping everything else in order.
        let mut kept: Vec<String> = Vec::new();
        let n = self.validators.len();
        let mut i: usize = 0;
        proof {
            assert(vals0.take(0) =~= Seq::<Seq<char>>::empty());
            assert(kept@.map_values(|s: String| s@) =~= spec_without(
                vals0.take(0),
                validator@,
            ));
        }
        while i < n
            invariant
                *self == *old(self),
                old(self)@.wf(),
                n == self.validators.len(),
                vals0 == self@.validators,
                0 <= i <= n,
                kept@.map_values(|s: String| s@) == spec_without(vals0.take(i as int), validator@),
                kept@.len() >= i - 1,
                i - kept@.len() == 1 ==> vals0.take(i as int).contains(validator@),
            decreases n - i,
        {
            let ghost keptv = kept@.map_values(|s: String| s@);
            proof {
                assert(vals0.take(i as int + 1).drop_last() =~= vals0.take(i as int));
                assert(vals0.take(i as int + 1).last() == vals0[i as int]);
            }
            if self.validators[i] == *validator {
                proof {
                    assert(vals0[i as int] == validator@);
                    if i as int - keptv.len() == 1 {
                        let j = choose|j: int|
                            0 <= j < vals0.take(i as int).len() && vals0.take(i as int)[j]
                                == validator@;
                        assert(vals0[j] == validator@);
                        assert(vals0[j] == vals0[i as int]);
                        assert(false);
                    }
                    assert(spec_without(vals0.take(i as int + 1), validator@) == keptv);
                    assert(vals0.take(i as int + 1)[i as int] == validator@);
                    assert(vals0.take(i as int + 1).contains(validator@));
                }
            } else {
                let entry = self.validators[i].clone();
                kept.push(entry);
                proof {
                    assert(kept@.map_values(|s: String| s@) =~= keptv.push(vals0[i as int]));
                    assert(spec_without(vals0.take(i as int + 1), validator@) == keptv.push(
                        vals0[i as int],
                    ));
                }
            }
            i += 1;
        }
        proof {
            assert(vals0.take(n as int) =~= vals0);
        }
        let remaining = kept.len();
        proof {
            assert(remaining >= n - 1);
            assert(remaining >= 1);
        }
        self.validators = kept;
        proof {
            let keptv = self@.validators;
            assert(keptv == spec_without(vals0, validator@));
            lemma_without_unique(vals0, validator@);
            assert(self@.wait_list == old(self)@.wait_list);
            assert(self@.histories == old(self)@.histories);
            assert(self@.wf());
        }
        let mut out: Vec<Instruction> = Vec::new();
        match delegated {
            Some(coin) => {
                let idx = xorshift_pick(block_height, remaining);
                let dst = self.validators[idx].clone();
                proof {
                    assert(self@.validators[idx as int] == dst@);
                    assert(self@.validators.contains(dst@));
                }
                out.push(
                    Instruction::Redelegate {
                        src_validator: validator.clone(),
                        dst_validator: dst,
                        amount: coin.amount,
                    },
                );
                out.push(Instruction::TriggerGlobalIndex);
                proof {
                    assert(instrs_view(out@).len() == 2);
                    assert(instrs_view(out@)[1] == InstructionV::TriggerGlobalIndex);
                }
            },
            None => {},
        }
        Ok(out)
    }

    /// Create the ledger: record the initial deposit as the backing at a
    /// rate of one, open batch one, and emit the self-addressed registration
    /// of the initial validator followed by the delegation of the deposit.
    pub fn instantiate(msg: InstantiateMsg, sender: &String, funds: &Vec<Coin>, time: u64) -> (r:
        Result<(Hub, Vec<Instruction>), HubError>)
        ensures
            match r {
                Ok((hub, instrs)) => {
                    &&& hub@.wf()
                    &&& spec_find_payment(coins_view(funds@), msg.underlying_coin_denom@) is Some
                    &&& spec_params_valid(msg)
                    &&& hub.state == (State {
                        exchange_rate: Dec { raw: crate::DEC_ONE },
                        total_bond_amount: spec_find_payment(
                            coins_view(funds@),
                            msg.underlying_coin_denom@,
                        )->Some_0.amount,
                        principle_balance_before_exchange_update: 0,
                        prev_hub_balance: 0,
                        actual_unbonded_amount: 0,
                        last_index_modification: time,
                        last_unbonded_time: time,
                        last_processed_batch: 0,
                    })
                    &&& hub.parameters@ == (ParametersV {
                        epoch_period: msg.epoch_period,
                        underlying_coin_denom: msg.underlying_coin_denom@,
                        unbonding_period: msg.unbonding_period,
                        peg_recovery_fee: msg.peg_recovery_fee,
                        er_threshold: msg.er_threshold,
                        protocol_fee: msg.protocol_fee,
                    })
                    &&& hub@.config.admin == sender@
                    &&& hub@.config.token_contract is None
                    &&& !hub@.config.token_contract_registered
                    &&& hub@.config.protocol_fee_collector is None
                    &&& hub.current_batch == (CurrentBatch { id: 1, requested_with_fee: 0 })
                    &&& hub@.validators.len() == 0
                    &&& hub@.wait_list.len() == 0
                    &&& hub@.histories.len() == 0
                    &&& !hub.paused
                    &&& instrs_view(instrs@) == seq![
                        InstructionV::RegisterValidatorSelf { validator: msg.validator@ },
                        InstructionV::Delegate {
                            validator: msg.validator@,
                            amount: spec_find_payment(
                                coins_view(funds@),
                                msg.underlying_coin_denom@,
                            )->Some_0.amount,
                        },
                    ]
                },
                Err(e) => {
                    &&& (spec_find_payment(coins_view(funds@), msg.underlying_coin_denom@)
                        is None ==> e == HubError::NoPayment)
                    &&& (spec_find_payment(coins_view(funds@), msg.underlying_coin_denom@)
                        is Some ==> (e == HubError::InvalidParams && !spec_params_valid(msg)))
                },
            },
            (spec_find_payment(coins_view(funds@), msg.underlying_coin_denom@) is Some
                && spec_params_valid(msg)) ==> r is Ok,
    {
        let ghost fundsv = coins_view(funds@);
        let ghost denom = msg.underlying_coin_denom@;
        // Locate the initial deposit.
        let mut payment: u128 = 0;
        let mut found = false;
        let n = funds.len();
        let mut i: usize = 0;
        proof {
            assert(fundsv.skip(0) =~= fundsv);
        }
        while i < n && !found
            invariant
                n == funds.len(),
                fundsv == coins_view(funds@),
                denom == msg.underlying_coin_denom@,
                0 <= i <= n,
                !found ==> spec_find_payment(fundsv, denom) == spec_find_payment(
                    fundsv.skip(i as int),
                    denom,
                ),
                found ==> (spec_find_payment(fundsv, denom) matches Some(c) && c.amount
                    == payment),
            decreases n - i,
        {
            proof {
                assert(fundsv.skip(i as int)[0] == fundsv[i as int]);
                assert(fundsv.skip(i as int).drop_first() =~= fundsv.skip(i as int + 1));
            }
            if funds[i].denom == msg.underlying_coin_denom && funds[i].amount > 0 {
                payment = funds[i].amount;
                found = true;
                proof {
                    assert(fundsv[i as int] == funds@[i as int]@);
                    assert(spec_find_payment(fundsv.skip(i as int), denom) == Some(
                        fundsv[i as int],
                    ));
                }
            } else {
                proof {
                    assert(fundsv[i as int] == funds@[i as int]@);
                }
            }
            i += 1;
        }
        if !found {
            proof {
                assert(fundsv.skip(n as int) =~= Seq::<CoinV>::empty());
            }
            return Err(HubError::NoPayment);
        }
        match validate_params(&msg) {
            Ok(()) => {},
            Err(e) => {
                return Err(e);
            },
        }
        let validator_name = msg.validator.clone();
        let hub = Hub {
            state: State {
                exchange_rate: Dec::one(),
                total_bond_amount: payment,
                principle_balance_before_exchange_update: 0,
                prev_hub_balance: 0,
                actual_unbonded_amount: 0,
                last_index_modification: time,
                last_unbonded_time: time,
                last_processed_batch: 0,
            },
            parameters: Parameters {
                epoch_period: msg.epoch_period,
                underlying_coin_denom: msg.underlying_coin_denom,
                unbonding_period: msg.unbonding_period,
                peg_recovery_fee: msg.peg_recovery_fee,
                er_threshold: msg.er_threshold,
                protocol_fee: msg.protocol_fee,
            },
            config: Config {
                admin: sender.clone(),
                token_contract: None,
                token_contract_registered: false,
                protocol_fee_collector: None,
            },
            current_batch: CurrentBatch { id: 1, requested_with_fee: 0 },
            validators: Vec::new(),
            wait_list: Vec::new(),
            histories: Vec::new(),
            paused: false,
        };
        let mut instrs: Vec<Instruction> = Vec::new();
        instrs.push(Instruction::RegisterValidatorSelf { validator: validator_name.clone() });
        instrs.push(Instruction::Delegate { validator: validator_name, amount: payment });
        proof {
            assert(hub@.wf());
            assert(instrs_view(instrs@) =~= seq![
                InstructionV::RegisterValidatorSelf { validator: msg.validator@ },
                InstructionV::Delegate { validator: msg.validator@, amount: payment },
            ]);
        }
        Ok((hub, instrs))
    }
}

/// `vals` with every occurrence of `name` removed, in order.
pub open spec fn spec_without(vals: Seq<Seq<char>>, name: Seq<char>) -> Seq<Seq<char>>
    decreases vals.len(),
{
    if vals.len() == 0 {
        vals
    } else if vals.last() == name {
        spec_without(vals.drop_last(), name)
    } else {
        spec_without(vals.drop_last(), name).push(vals.last())
    }
}

/// Every element of the reduced list occurs in the original.
pub proof fn lemma_without_member(vals: Seq<Seq<char>>, name: Seq<char>, a: int)
    requires
        0 <= a < spec_without(vals, name).len(),
    ensures
        vals.contains(spec_without(vals, name)[a]),
    decreases vals.len(),
{
    if vals.len() == 0 {
    } else {
        let f = spec_without(vals, name);
        let fd = spec_without(vals.drop_last(), name);
        if vals.last() == name {
            lemma_without_member(vals.drop_last(), name, a);
            let j = choose|j: int|
                0 <= j < vals.drop_last().len() && vals.drop_last()[j] == fd[a];
            assert(vals[j] == fd[a]);
        } else {
            if a < fd.len() {
                assert(f[a] == fd[a]);
                lemma_without_member(vals.drop_last(), name, a);
                let j = choose|j: int|
                    0 <= j < vals.drop_last().len() && vals.drop_last()[j] == fd[a];
                assert(vals[j] == fd[a]);
            } else {
                assert(f[a] == vals.last());
                assert(vals[vals.len() - 1] == vals.last());
            }
        }
    }
}

/// Removing a name from a pairwise-distinct list keeps it pairwise distinct.
pub proof fn lemma_without_unique(vals: Seq<Seq<char>>, name: Seq<char>)
    requires
        forall|i: int, j: int|
            0 <= i < j < vals.len() ==> #[trigger] vals[i] != #[trigger] vals[j],
    ensures
        forall|a: int, b: int|
            0 <= a < b < spec_without(vals, name).len() ==> #[trigger] spec_without(vals, name)[a]
                != #[trigger] spec_without(vals, name)[b],
    decreases vals.len(),
{
    if vals.len() == 0 {
    } else {
        let f = spec_without(vals, name);
        let fd = spec_without(vals.drop_last(), name);
        assert(forall|i: int, j: int|
            0 <= i < j < vals.drop_last().len() ==> #[trigger] vals.drop_last()[i]
                != #[trigger] vals.drop_last()[j]);
        lemma_without_unique(vals.drop_last(), name);
        assert forall|a: int, b: int| 0 <= a < b < f.len() implies #[trigger] f[a] != #[trigger] f[b] by {
            if vals.last() == name {
            } else {
                if b < fd.len() {
                    assert(f[a] == fd[a] && f[b] == fd[b]);
                } else {
                    assert(b == fd.len());
                    assert(f[b] == vals.last());
                    assert(f[a] == fd[a]);
                    lemma_without_member(vals.drop_last(), name, a);
                    let j = choose|j: int|
                        0 <= j < vals.drop_last().len() && vals.drop_last()[j] == fd[a];
                    assert(vals.drop_last()[j] == vals[j]);
                    assert(vals[vals.len() - 1] == vals.last());
                    assert(vals[j] != vals[vals.len() - 1]);
                }
            }
        }
    }
}

} // verus!
