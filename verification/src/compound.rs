//! Reward compounding: a permissionless trigger and a privileged apply.
//!
//! The trigger emits one reward-withdrawal instruction per delegated
//! validator, records the pool's pre-harvest balance, and emits a
//! self-addressed instruction for the apply phase, so that the apply runs in
//! the same atomic unit right after the withdrawals. The apply — callable
//! only by the hub itself — reads the fresh balance, splits the claimed
//! rewards into a protocol fee and user rewards, grows the exchange rate by
//! the users' share over the supply, and re-delegates that share to one
//! validator picked pseudo-randomly from the current delegations, seeded by
//! the block height so every replica picks the same one.

use vstd::prelude::*;
use rand::{Rng, SeedableRng, XorShiftRng};
use crate::dec::{Dec, spec_ratio_raw, spec_mul_floor, mul_amount};
use crate::ledger::{Hub, HubV};
use crate::select::dels_view;
use crate::types::{State, Delegation, DelegationV, Instruction, InstructionV, HubError,
    instrs_view};

verus! {

/// Relies on `rand::XorShiftRng::seed_from_u64` and `Rng::gen_range`: a
/// generator seeded from the block height yields an index below `len`. The
/// draw is deterministic for one build, which is what consensus needs; the
/// contract states only the bound, which is all any caller's own contract
/// uses.
#[verifier::external_body]
pub(crate) fn xorshift_pick(seed: u64, len: usize) -> (r: usize)
    requires
        len > 0,
    ensures
        r < len,
{
    let mut rng = XorShiftRng::seed_from_u64(seed);
    rng.gen_range(0, len)
}

/// One reward-withdrawal instruction per delegation, in order.
pub open spec fn spec_withdraw_rewards(dels: Seq<DelegationV>) -> Seq<InstructionV> {
    dels.map_values(|d: DelegationV| InstructionV::WithdrawReward { validator: d.validator })
}

impl Hub {
    /// The compounding trigger: record the pre-harvest balance and the
    /// trigger time, and emit the reward withdrawals followed by the
    /// self-addressed apply call.
    pub fn execute_update_global(
        &mut self,
        delegations: &Vec<Delegation>,
        balance: u128,
        time: u64,
    ) -> (r: Vec<Instruction>)
        requires
            old(self)@.wf(),
        ensures
            final(self)@.wf(),
            final(self).parameters == old(self).parameters,
            final(self).config == old(self).config,
            final(self).current_batch == old(self).current_batch,
            final(self)@.validators == old(self)@.validators,
            final(self)@.wait_list == old(self)@.wait_list,
            final(self)@.histories == old(self)@.histories,
            final(self).paused == old(self).paused,
            final(self).state == (State {
                last_index_modification: time,
                principle_balance_before_exchange_update: balance,
                ..old(self).state
            }),
            instrs_view(r@) == spec_withdraw_rewards(dels_view(delegations@)).push(
                InstructionV::TriggerExchangeRateUpdate,
            ),
    {
        let ghost dels = dels_view(delegations@);
        let mut out: Vec<Instruction> = Vec::new();
        let n = delegations.len();
        let mut i: usize = 0;
        while i < n
            invariant
                *self == *old(self),
                n == delegations.len(),
                dels == dels_view(delegations@),
                0 <= i <= n,
                instrs_view(out@) == spec_withdraw_rewards(dels).take(i as int),
            decreases n - i,
        {
            let ghost out0 = instrs_view(out@);
            out.push(
                Instruction::WithdrawReward { validator: delegations[i].validator.clone() },
            );
            proof {
                assert(instrs_view(out@) =~= out0.push(
                    InstructionV::WithdrawReward { validator: dels[i as int].validator },
                ));
                assert(spec_withdraw_rewards(dels)[i as int] == InstructionV::WithdrawReward {
                    validator: dels[i as int].validator,
                });
                assert(instrs_view(out@) =~= spec_withdraw_rewards(dels).take(i as int + 1));
            }
            i += 1;
        }
        let ghost out0 = instrs_view(out@);
        out.push(Instruction::TriggerExchangeRateUpdate);
        proof {
            assert(spec_withdraw_rewards(dels).take(n as int) =~= spec_withdraw_rewards(dels));
            assert(instrs_view(out@) =~= spec_withdraw_rewards(dels).push(
                InstructionV::TriggerExchangeRateUpdate,
            ));
        }
        self.state.last_index_modification = time;
        self.state.principle_balance_before_exchange_update = balance;
        proof {
            assert(self@.wait_list == old(self)@.wait_list);
            assert(self@.histories == old(self)@.histories);
            assert(self@.validators == old(self)@.validators);
            assert(self@.wf());
        }
        out
    }
}

/// The state the apply phase leaves behind, with the fee and the users'
/// share of the harvested rewards, or its failure: the caller not being the
/// hub itself, arithmetic leaving `u128`, a harvest below the recorded
/// balance, no delegation to re-delegate to, or a due fee without a
/// configured collector.
pub open spec fn spec_apply(
    h: HubV,
    sender: Seq<char>,
    contract: Seq<char>,
    new_balance: u128,
    issued: u128,
    dels_len: int,
) -> Result<(State, u128, u128), HubError> {
    if sender != contract {
        Err(HubError::Unauthorized)
    } else if new_balance < h.state.principle_balance_before_exchange_update {
        Err(HubError::Arithmetic)
    } else {
        let claimed = new_balance - h.state.principle_balance_before_exchange_update;
        let fee = if h.parameters.protocol_fee.raw != 0 {
            spec_mul_floor(claimed, h.parameters.protocol_fee.raw as int)
        } else {
            0
        };
        if fee > u128::MAX {
            Err(HubError::Arithmetic)
        } else if claimed < fee {
            Err(HubError::Arithmetic)
        } else {
            let ur = claimed - fee;
            let supply = issued + h.current_batch.requested_with_fee;
            if supply > u128::MAX || supply == 0 {
                Err(HubError::Arithmetic)
            } else if spec_ratio_raw(ur, supply) > u128::MAX {
                Err(HubError::Arithmetic)
            } else if h.state.exchange_rate.raw + spec_ratio_raw(ur, supply) > u128::MAX {
                Err(HubError::Arithmetic)
            } else if h.state.total_bond_amount + ur > u128::MAX {
                Err(HubError::Arithmetic)
            } else if dels_len == 0 {
                Err(HubError::NoDelegations)
            } else if fee > 0 && h.config.protocol_fee_collector is None {
                Err(HubError::FeeCollectorUnset)
            } else {
                Ok(
                    (
                        State {
                            exchange_rate: Dec {
                                raw: (h.state.exchange_rate.raw + spec_ratio_raw(
                                    ur,
                                    supply,
                                )) as u128,
                            },
                            total_bond_amount: (h.state.total_bond_amount + ur) as u128,
                            ..h.state
                        },
                        fee as u128,
                        ur as u128,
                    ),
                )
            }
        }
    }
}

/// The shape of the apply phase's instructions: the fee transfer when a fee
/// is due, then the re-delegation of the users' share when it is positive,
/// aimed at one of the observed delegations' validators.
pub open spec fn spec_apply_instrs(
    ins: Seq<InstructionV>,
    collector: Option<Seq<char>>,
    fee: u128,
    ur: u128,
    dels: Seq<DelegationV>,
) -> bool {
    let fee_len: int = if fee > 0 {
        1
    } else {
        0
    };
    &&& ins.len() == fee_len + (if ur > 0 {
        1int
    } else {
        0int
    })
    &&& (fee > 0 ==> ins[0] == (InstructionV::Send {
        recipient: collector->Some_0,
        amount: fee,
    }))
    &&& (ur > 0 ==> (ins.last() matches InstructionV::Delegate { validator, amount } && amount
        == ur && exists|j: int|
        0 <= j < dels.len() && (#[trigger] dels[j]).validator == validator))
}

impl Hub {
    /// The compounding apply phase: only the hub's own address may call it.
    /// The instructions are the fee transfer (when a fee is due) followed by
    /// the re-delegation of the users' share (when it is positive) to one of
    /// the observed delegations' validators.
    pub fn execute_update_exchange_rate(
        &mut self,
        sender: &String,
        contract: &String,
        new_balance: u128,
        total_issued: u128,
        delegations: &Vec<Delegation>,
        block_height: u64,
    ) -> (r: Result<Vec<Instruction>, HubError>)
        requires
            old(self)@.wf(),
        ensures
            final(self)@.wf(),
            final(self).parameters == old(self).parameters,
            final(self).config == old(self).config,
            final(self).current_batch == old(self).current_batch,
            final(self)@.validators == old(self)@.validators,
            final(self)@.wait_list == old(self)@.wait_list,
            final(self)@.histories == old(self)@.histories,
            final(self).paused == old(self).paused,
            match spec_apply(
                old(self)@,
                sender@,
                contract@,
                new_balance,
                total_issued,
                delegations@.len() as int,
            ) {
                Ok((st2, fee, ur)) => {
                    &&& r is Ok
                    &&& final(self).state == st2
                    &&& spec_apply_instrs(
                        instrs_view(r->Ok_0@),
                        old(self)@.config.protocol_fee_collector,
                        fee,
                        ur,
                        dels_view(delegations@),
                    )
                },
                Err(e) => {
                    &&& r == Result::<Vec<Instruction>, HubError>::Err(e)
                    &&& *final(self) == *old(self)
                },
            },
    {
        if !(*sender == *contract) {
            return Err(HubError::Unauthorized);
        }
        if new_balance < self.state.principle_balance_before_exchange_update {
            return Err(HubError::Arithmetic);
        }
        let claimed = new_balance - self.state.principle_balance_before_exchange_update;
        let fee: u128;
        if !self.parameters.protocol_fee.is_zero() {
            fee = match mul_amount(claimed, self.parameters.protocol_fee) {
                Some(f) => f,
                None => {
                    return Err(HubError::Arithmetic);
                },
            };
        } else {
            fee = 0;
        }
        if claimed < fee {
            return Err(HubError::Arithmetic);
        }
        let user_rewards = claimed - fee;
        let requested = self.current_batch.requested_with_fee;
        if total_issued > u128::MAX - requested {
            return Err(HubError::Arithmetic);
        }
        let supply = total_issued + requested;
        if supply == 0 {
            return Err(HubError::Arithmetic);
        }
        let gain = match Dec::ratio(user_rewards, supply) {
            Some(d) => d,
            None => {
                return Err(HubError::Arithmetic);
            },
        };
        let new_rate = match self.state.exchange_rate.checked_add(&gain) {
            Some(d) => d,
            None => {
                return Err(HubError::Arithmetic);
            },
        };
        if self.state.total_bond_amount > u128::MAX - user_rewards {
            return Err(HubError::Arithmetic);
        }
        if delegations.len() == 0 {
            return Err(HubError::NoDelegations);
        }
        let mut out: Vec<Instruction> = Vec::new();
        if fee > 0 {
            match &self.config.protocol_fee_collector {
                Some(collector) => {
                    out.push(Instruction::Send { recipient: collector.clone(), amount: fee });
                },
                None => {
                    return Err(HubError::FeeCollectorUnset);
                },
            }
        }
        let ghost fee_part = instrs_view(out@);
        proof {
            if fee > 0 {
                assert(fee_part =~= seq![
                    InstructionV::Send {
                        recipient: old(self)@.config.protocol_fee_collector->Some_0,
                        amount: fee,
                    },
                ]);
            } else {
                assert(fee_part =~= Seq::<InstructionV>::empty());
            }
        }
        if user_rewards > 0 {
            let idx = xorshift_pick(block_height, delegations.len());
            let target = delegations[idx].validator.clone();
            let ghost out0 = instrs_view(out@);
            out.push(Instruction::Delegate { validator: target, amount: user_rewards });
            proof {
                assert(instrs_view(out@) =~= out0.push(
                    InstructionV::Delegate {
                        validator: dels_view(delegations@)[idx as int].validator,
                        amount: user_rewards,
                    },
                ));
            }
        }
        self.state.exchange_rate = new_rate;
        self.state.total_bond_amount = self.state.total_bond_amount + user_rewards;
        proof {
            assert(self@.wait_list == old(self)@.wait_list);
            assert(self@.histories == old(self)@.histories);
            assert(self@.validators == old(self)@.validators);
            assert(self@.wf());
            if fee > 0 {
                assert(instrs_view(out@)[0] == (InstructionV::Send {
                    recipient: old(self)@.config.protocol_fee_collector->Some_0,
                    amount: fee,
                }));
            }
            if user_rewards > 0 {
                assert(instrs_view(out@).last() matches InstructionV::Delegate { .. });
            }
            assert(spec_apply_instrs(
                instrs_view(out@),
                old(self)@.config.protocol_fee_collector,
                fee,
                user_rewards,
                dels_view(delegations@),
            ));
        }
        Ok(out)
    }
}

} // verus!
