//! Batched unbonding.
//!
//! Each burn request joins the open batch: the requested amount, less the
//! peg-recovery fee while the exchange rate is depressed, accumulates in the
//! batch and in the caller's wait-list entry, and a burn instruction for the
//! full amount is emitted. When the epoch period has elapsed since the last
//! finalization, the same call finalizes the batch: the collected amount is
//! converted to the underlying asset at the current rate, undelegate
//! instructions are selected, an immutable history record is appended, and a
//! fresh batch with the next identifier opens.

use vstd::prelude::*;
use crate::dec::{Dec, spec_mul_floor, mul_amount};
use crate::ledger::{Hub, HubV, wait_lookup};
use crate::select::{dels_view, sort_dels, sum_dels, greedy_take, pick_undelegations};
use crate::slashing::{spec_rate_raw, spec_slash_state};
use crate::types::{State, ParametersV, CurrentBatch, UnbondHistory, Delegation, DelegationV,
    Instruction, InstructionV, HubError, instrs_view};

verus! {

/// The fee-adjusted amount a burn request adds to the open batch: while the
/// exchange rate sits below its threshold, the smaller of
/// `amount * peg_recovery_fee` and what the backing is short of the supply
/// is withheld.
pub open spec fn spec_unbond_fee(
    st: State,
    p: ParametersV,
    requested: u128,
    issued: u128,
    amount: u128,
) -> Result<int, HubError> {
    if st.exchange_rate.raw < p.er_threshold.raw {
        let max_fee = spec_mul_floor(amount as int, p.peg_recovery_fee.raw as int);
        if max_fee > u128::MAX {
            Err(HubError::Arithmetic)
        } else if issued + requested > u128::MAX {
            Err(HubError::Arithmetic)
        } else if issued + requested < st.total_bond_amount {
            Err(HubError::Arithmetic)
        } else {
            let required = issued + requested - st.total_bond_amount;
            let fee = if max_fee <= required {
                max_fee
            } else {
                required
            };
            if amount < fee {
                Err(HubError::Arithmetic)
            } else {
                Ok(amount - fee)
            }
        }
    } else {
        Ok(amount as int)
    }
}

/// The whole unbonding transition over the ledger view: reconciliation, fee
/// adjustment, accumulation, rate update over the reduced supply, and —
/// when the epoch has elapsed — finalization of the batch. Returns the new
/// state, the new open batch, the history record appended by finalization,
/// and the emitted instructions.
pub open spec fn spec_unbond(
    h: HubV,
    amount: u128,
    sender: Seq<char>,
    time: u64,
    dels: Seq<DelegationV>,
    issued: u128,
) -> Result<(State, CurrentBatch, Option<UnbondHistory>, Seq<InstructionV>), HubError> {
    let requested = h.current_batch.requested_with_fee;
    match spec_slash_state(h.state, dels, h.parameters.underlying_coin_denom, issued, requested) {
        Err(e) => Err(e),
        Ok(st1) => match spec_unbond_fee(st1, h.parameters, requested, issued, amount) {
            Err(e) => Err(e),
            Ok(awf) => {
                if requested + awf > u128::MAX {
                    Err(HubError::Arithmetic)
                } else if wait_lookup(h.wait_list, h.current_batch.id, sender) + awf > u128::MAX {
                    Err(HubError::Arithmetic)
                } else if issued < amount {
                    Err(HubError::Arithmetic)
                } else {
                    let requested2 = (requested + awf) as u128;
                    let supply2 = (issued - amount) as u128;
                    if supply2 + requested2 > u128::MAX {
                        Err(HubError::Arithmetic)
                    } else if spec_rate_raw(st1.total_bond_amount as int, supply2 + requested2)
                        > u128::MAX {
                        Err(HubError::Arithmetic)
                    } else {
                        let er2 = Dec {
                            raw: spec_rate_raw(
                                st1.total_bond_amount as int,
                                supply2 + requested2,
                            ) as u128,
                        };
                        let st2 = State { exchange_rate: er2, ..st1 };
                        if time >= st2.last_unbonded_time && time - st2.last_unbonded_time
                            >= h.parameters.epoch_period {
                            if spec_mul_floor(requested2 as int, er2.raw as int) > u128::MAX {
                                Err(HubError::Arithmetic)
                            } else {
                                let undel = spec_mul_floor(requested2 as int, er2.raw as int);
                                if undel > sum_dels(dels) {
                                    Err(HubError::InsufficientDelegations)
                                } else if st2.total_bond_amount < undel {
                                    Err(HubError::Arithmetic)
                                } else if h.current_batch.id == u64::MAX {
                                    Err(HubError::Arithmetic)
                                } else {
                                    let st3 = State {
                                        total_bond_amount: (st2.total_bond_amount - undel) as u128,
                                        last_unbonded_time: time,
                                        ..st2
                                    };
                                    let hist = UnbondHistory {
                                        batch_id: h.current_batch.id,
                                        time,
                                        amount: requested2,
                                        applied_exchange_rate: er2,
                                        withdraw_rate: er2,
                                        released: false,
                                    };
                                    let batch2 = CurrentBatch {
                                        id: (h.current_batch.id + 1) as u64,
                                        requested_with_fee: 0,
                                    };
                                    Ok(
                                        (
                                            st3,
                                            batch2,
                                            Some(hist),
                                            greedy_take(sort_dels(dels), undel) + seq![
                                                InstructionV::Burn { amount: amount },
                                            ],
                                        ),
                                    )
                                }
                            }
                        } else {
                            Ok(
                                (
                                    st2,
                                    CurrentBatch {
                                        id: h.current_batch.id,
                                        requested_with_fee: requested2,
                                    },
                                    None,
                                    seq![InstructionV::Burn { amount: amount }],
                                ),
                            )
                        }
                    }
                }
            },
        },
    }
}

impl Hub {
    /// Handle a burn notification of `amount` receipt tokens from `sender`:
    /// accumulate the fee-adjusted amount into the open batch and the
    /// sender's wait-list entry, update the exchange rate over the reduced
    /// supply, finalize the batch when the epoch period has elapsed, and
    /// emit the undelegate instructions (when finalizing) followed by the
    /// burn. On any failure the ledger is unchanged.
    pub fn execute_unbond(
        &mut self,
        amount: u128,
        sender: &String,
        time: u64,
        delegations: &Vec<Delegation>,
        total_issued: u128,
    ) -> (r: Result<Vec<Instruction>, HubError>)
        requires
            old(self)@.wf(),
        ensures
            final(self)@.wf(),
            final(self).parameters == old(self).parameters,
            final(self).config == old(self).config,
            final(self)@.validators == old(self)@.validators,
            final(self).paused == old(self).paused,
            match spec_unbond(
                old(self)@,
                amount,
                sender@,
                time,
                dels_view(delegations@),
                total_issued,
            ) {
                Ok((st2, batch2, hist_add, ins)) => {
                    &&& r is Ok
                    &&& instrs_view(r->Ok_0@) == ins
                    &&& final(self).state == st2
                    &&& final(self).current_batch == batch2
                    &&& final(self)@.histories == (match hist_add {
                        Some(hh) => old(self)@.histories.push(hh),
                        None => old(self)@.histories,
                    })
                    &&& wait_lookup(final(self)@.wait_list, old(self).current_batch.id, sender@)
                        == wait_lookup(
                        old(self)@.wait_list,
                        old(self).current_batch.id,
                        sender@,
                    ) + spec_unbond_fee(
                        spec_slash_state(
                            old(self).state,
                            dels_view(delegations@),
                            old(self).parameters.underlying_coin_denom@,
                            total_issued,
                            old(self).current_batch.requested_with_fee,
                        )->Ok_0,
                        old(self)@.parameters,
                        old(self).current_batch.requested_with_fee,
                        total_issued,
                        amount,
                    )->Ok_0
                    &&& forall|b: u64, u: Seq<char>|
                        !(b == old(self).current_batch.id && u == sender@) ==> #[trigger]
                        wait_lookup(final(self)@.wait_list, b, u) == wait_lookup(
                            old(self)@.wait_list,
                            b,
                            u,
                        )
                },
                Err(e) => {
                    &&& r == Result::<Vec<Instruction>, HubError>::Err(e)
                    &&& *final(self) == *old(self)
                },
            },
    {
        let ghost dels = dels_view(delegations@);
        let requested = self.current_batch.requested_with_fee;
        let batch_id = self.current_batch.id;
        // Reconcile against the observed delegations.
        let st1 = match self.slashed_state(delegations, total_issued) {
            Ok(st) => st,
            Err(e) => {
                return Err(e);
            },
        };
        // The fee-adjusted amount this request contributes.
        let amount_with_fee: u128;
        if st1.exchange_rate.lt(&self.parameters.er_threshold) {
            let max_fee = match mul_amount(amount, self.parameters.peg_recovery_fee) {
                Some(f) => f,
                None => {
                    return Err(HubError::Arithmetic);
                },
            };
            if total_issued > u128::MAX - requested {
                return Err(HubError::Arithmetic);
            }
            let supply = total_issued + requested;
            if supply < st1.total_bond_amount {
                return Err(HubError::Arithmetic);
            }
            let required = supply - st1.total_bond_amount;
            let fee = if max_fee <= required {
                max_fee
            } else {
                required
            };
            if amount < fee {
                return Err(HubError::Arithmetic);
            }
            amount_with_fee = amount - fee;
        } else {
            amount_with_fee = amount;
        }
        // Accumulate into the open batch and the sender's wait-list entry.
        if requested > u128::MAX - amount_with_fee {
            return Err(HubError::Arithmetic);
        }
        let requested2 = requested + amount_with_fee;
        let current_wait = self.read_wait_amount(batch_id, sender);
        if current_wait > u128::MAX - amount_with_fee {
            return Err(HubError::Arithmetic);
        }
        // The burn leaves the supply; the rate is re-derived over it.
        if total_issued < amount {
            return Err(HubError::Arithmetic);
        }
        let supply2 = total_issued - amount;
        let mut st2 = st1;
        match st2.update_exchange_rate(supply2, requested2) {
            Ok(()) => {},
            Err(()) => {
                return Err(HubError::Arithmetic);
            },
        }
        // Decide finalization before touching the ledger.
        let finalize = time >= st2.last_unbonded_time && time - st2.last_unbonded_time
            >= self.parameters.epoch_period;
        if finalize {
            let undelegation_amount = match mul_amount(requested2, st2.exchange_rate) {
                Some(v) => v,
                None => {
                    return Err(HubError::Arithmetic);
                },
            };
            let undelegations = match pick_undelegations(delegations, undelegation_amount) {
                Ok(v) => v,
                Err(()) => {
                    return Err(HubError::InsufficientDelegations);
                },
            };
            if st2.total_bond_amount < undelegation_amount {
                return Err(HubError::Arithmetic);
            }
            if batch_id == u64::MAX {
                return Err(HubError::Arithmetic);
            }
            // Commit: wait list, state, history, fresh batch.
            match self.record_wait_amount(batch_id, sender, amount_with_fee) {
                Ok(()) => {},
                Err(()) => {
                    proof {
                        assert(false);
                    }
                    return Err(HubError::Arithmetic);
                },
            }
            st2.total_bond_amount = st2.total_bond_amount - undelegation_amount;
            st2.last_unbonded_time = time;
            self.state = st2;
            let hist = UnbondHistory {
                batch_id,
                time,
                amount: requested2,
                applied_exchange_rate: st2.exchange_rate,
                withdraw_rate: st2.exchange_rate,
                released: false,
            };
            let ghost hists0 = self@.histories;
            self.histories.push(hist);
            self.current_batch = CurrentBatch { id: batch_id + 1, requested_with_fee: 0 };
            proof {
                assert(self@.histories =~= hists0.push(hist));
                assert(self@.validators == old(self)@.validators);
                assert(forall|i: int|
                    0 <= i < hists0.len() ==> #[trigger] self@.histories[i] == hists0[i]);
                assert(self@.histories[hists0.len() as int] == hist);
                assert(self@.wf());
            }
            let mut out = undelegations;
            let ghost undel_views = instrs_view(out@);
            out.push(Instruction::Burn { amount });
            proof {
                assert(instrs_view(out@) =~= undel_views + seq![
                    InstructionV::Burn { amount: amount },
                ]);
            }
            Ok(out)
        } else {
            // Commit: wait list, state, grown batch.
            match self.record_wait_amount(batch_id, sender, amount_with_fee) {
                Ok(()) => {},
                Err(()) => {
                    proof {
                        assert(false);
                    }
                    return Err(HubError::Arithmetic);
                },
            }
            self.state = st2;
            self.current_batch = CurrentBatch { id: batch_id, requested_with_fee: requested2 };
            proof {
                assert(self@.validators == old(self)@.validators);
                assert(self@.histories == old(self)@.histories);
                assert(self@.wf());
            }
            let mut out: Vec<Instruction> = Vec::new();
            out.push(Instruction::Burn { amount });
            proof {
                assert(instrs_view(out@) =~= seq![InstructionV::Burn { amount: amount }]);
            }
            Ok(out)
        }
    }
}

} // verus!
