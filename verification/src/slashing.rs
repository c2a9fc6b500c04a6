//! Slashing reconciliation.
//!
//! The ledger's `total_bond_amount` is its belief about the stake actually
//! delegated; slashing can silently reduce the real amount. Reconciliation
//! reads the observed delegations and, when they fall short of the belief,
//! adopts the observed total and re-derives the exchange rate from it, so
//! that outstanding receipt tokens keep a claim the pool can honour. The
//! observed amount meeting or exceeding the belief changes nothing: this
//! path never raises the rate.

use vstd::prelude::*;
use crate::DEC_ONE;
use crate::dec::{Dec, spec_ratio_raw};
use crate::ledger::Hub;
use crate::types::{State, Delegation, DelegationV, HubError};
use crate::select::dels_view;

verus! {

/// The raw exchange rate derived from a backing total and a supply: their
/// ratio, or one when either side is zero.
pub open spec fn spec_rate_raw(total_bond: int, supply: int) -> int {
    if total_bond == 0 || supply == 0 {
        DEC_ONE as int
    } else {
        spec_ratio_raw(total_bond, supply)
    }
}

/// Sum of the observed delegated amounts in the given denomination.
pub open spec fn spec_actual_bonded(dels: Seq<DelegationV>, denom: Seq<char>) -> int
    decreases dels.len(),
{
    if dels.len() == 0 {
        0
    } else {
        (if dels[0].denom == denom {
            dels[0].amount as int
        } else {
            0
        }) + spec_actual_bonded(dels.drop_first(), denom)
    }
}

/// The summed observed amounts are non-negative.
pub proof fn lemma_actual_bonded_nonneg(dels: Seq<DelegationV>, denom: Seq<char>)
    ensures
        spec_actual_bonded(dels, denom) >= 0,
    decreases dels.len(),
{
    if dels.len() > 0 {
        lemma_actual_bonded_nonneg(dels.drop_first(), denom);
    }
}

/// Whether reconciliation changes the ledger: something is delegated, and
/// the observed total falls short of the recorded one.
pub open spec fn spec_slash_applies(st: State, dels: Seq<DelegationV>, denom: Seq<char>) -> bool {
    dels.len() > 0 && spec_actual_bonded(dels, denom) < st.total_bond_amount
}

impl State {
    /// Re-derive the exchange rate as backing over supply, the supply being
    /// the outstanding receipt tokens plus the open batch's collected
    /// requests; either side zero falls back to a rate of one. Fails only
    /// when the supply or the raw rate leaves `u128`.
    pub fn update_exchange_rate(&mut self, total_issued: u128, requested_with_fee: u128) -> (r:
        Result<(), ()>)
        ensures
            match r {
                Ok(()) => {
                    &&& total_issued + requested_with_fee <= u128::MAX
                    &&& spec_rate_raw(
                        old(self).total_bond_amount as int,
                        total_issued + requested_with_fee,
                    ) <= u128::MAX
                    &&& *final(self) == State {
                        exchange_rate: Dec {
                            raw: spec_rate_raw(
                                old(self).total_bond_amount as int,
                                total_issued + requested_with_fee,
                            ) as u128,
                        },
                        ..*old(self)
                    }
                },
                Err(()) => {
                    &&& *final(self) == *old(self)
                    &&& (total_issued + requested_with_fee > u128::MAX || spec_rate_raw(
                        old(self).total_bond_amount as int,
                        total_issued + requested_with_fee,
                    ) > u128::MAX)
                },
            },
    {
        if total_issued > u128::MAX - requested_with_fee {
            return Err(());
        }
        let actual_supply = total_issued + requested_with_fee;
        if self.total_bond_amount == 0 || actual_supply == 0 {
            self.exchange_rate = Dec::one();
            return Ok(());
        }
        match Dec::ratio(self.total_bond_amount, actual_supply) {
            Some(d) => {
                self.exchange_rate = d;
                Ok(())
            },
            None => Err(()),
        }
    }
}

/// Reconciliation as a state function: the state that reconciliation
/// leaves behind, or the arithmetic failure it reports.
pub open spec fn spec_slash_state(
    st: State,
    dels: Seq<DelegationV>,
    denom: Seq<char>,
    issued: u128,
    requested: u128,
) -> Result<State, HubError> {
    let actual = spec_actual_bonded(dels, denom);
    if actual > u128::MAX {
        Err(HubError::Arithmetic)
    } else if !spec_slash_applies(st, dels, denom) {
        Ok(st)
    } else {
        let supply = issued + requested;
        if supply > u128::MAX {
            Err(HubError::Arithmetic)
        } else if spec_rate_raw(actual, supply) > u128::MAX {
            Err(HubError::Arithmetic)
        } else {
            Ok(
                State {
                    total_bond_amount: actual as u128,
                    exchange_rate: Dec { raw: spec_rate_raw(actual, supply) as u128 },
                    ..st
                },
            )
        }
    }
}

impl Hub {
    /// The state reconciliation would leave behind, without touching the
    /// ledger: when the observed total in the underlying denomination falls
    /// short of `total_bond_amount`, the observed total is adopted and the
    /// exchange rate re-derived over `total_issued` plus the open batch's
    /// requests; an empty observation or a sufficient total changes nothing.
    pub fn slashed_state(&self, delegations: &Vec<Delegation>, total_issued: u128) -> (r: Result<
        State,
        HubError,
    >)
        ensures
            r == spec_slash_state(
                self.state,
                dels_view(delegations@),
                self.parameters.underlying_coin_denom@,
                total_issued,
                self.current_batch.requested_with_fee,
            ),
    {
        let ghost dels = dels_view(delegations@);
        let ghost denom = self.parameters.underlying_coin_denom@;
        if delegations.len() == 0 {
            return Ok(self.state);
        }
        let n = delegations.len();
        let mut actual: u128 = 0;
        let mut i: usize = 0;
        proof {
            assert(dels.skip(0) =~= dels);
        }
        while i < n
            invariant
                n == delegations.len(),
                dels == dels_view(delegations@),
                denom == self.parameters.underlying_coin_denom@,
                0 <= i <= n,
                actual + spec_actual_bonded(dels.skip(i as int), denom) == spec_actual_bonded(
                    dels,
                    denom,
                ),
            decreases n - i,
        {
            proof {
                assert(dels.skip(i as int)[0] == dels[i as int]);
                assert(dels.skip(i as int).drop_first() =~= dels.skip(i as int + 1));
                lemma_actual_bonded_nonneg(dels.skip(i as int + 1), denom);
            }
            if delegations[i].denom == self.parameters.underlying_coin_denom {
                let a = delegations[i].amount;
                proof {
                    assert(a == dels[i as int].amount && dels[i as int].denom == denom);
                }
                if a > u128::MAX - actual {
                    proof {
                        lemma_actual_bonded_nonneg(dels.skip(i as int + 1), denom);
                    }
                    return Err(HubError::Arithmetic);
                }
                actual += a;
            } else {
                proof {
                    assert(dels[i as int].denom != denom);
                }
            }
            i += 1;
        }
        proof {
            assert(dels.skip(n as int) =~= Seq::<DelegationV>::empty());
        }
        if self.state.total_bond_amount > actual {
            let requested = self.current_batch.requested_with_fee;
            let mut st = self.state;
            st.total_bond_amount = actual;
            match st.update_exchange_rate(total_issued, requested) {
                Ok(()) => Ok(st),
                Err(()) => Err(HubError::Arithmetic),
            }
        } else {
            Ok(self.state)
        }
    }

    /// Reconcile the ledger in place: adopt the state that
    /// [`Hub::slashed_state`] derives from the observed delegations.
    pub fn slashing(&mut self, delegations: &Vec<Delegation>, total_issued: u128) -> (r:
        Result<(), HubError>)
        requires
            old(self)@.wf(),
        ensures
            final(self)@.wf(),
            final(self).parameters == old(self).parameters,
            final(self).config == old(self).config,
            final(self).current_batch == old(self).current_batch,
            final(self)@.validators == old(self)@.validators,
            final(self)@.wait_list == old(self)@.wait_list,
            final(self)@.histories == old(self)@.histories,
            final(self).paused == old(self).paused,
            match spec_slash_state(
                old(self).state,
                dels_view(delegations@),
                old(self).parameters.underlying_coin_denom@,
                total_issued,
                old(self).current_batch.requested_with_fee,
            ) {
                Ok(st) => r is Ok && final(self).state == st,
                Err(e) => {
                    &&& r == Result::<(), HubError>::Err(e)
                    &&& *final(self) == *old(self)
                },
            },
    {
        match self.slashed_state(delegations, total_issued) {
            Ok(st) => {
                self.state = st;
                proof {
                    assert(self@.wait_list == old(self)@.wait_list);
                    assert(self@.histories == old(self)@.histories);
                    assert(self@.validators == old(self)@.validators);
                    assert(self@.current_batch == old(self)@.current_batch);
                    assert(self@.state.last_processed_batch
                        == old(self)@.state.last_processed_batch);
                    assert(self@.state.actual_unbonded_amount == 0);
                    assert(self@.wf());
                }
                Ok(())
            },
            Err(e) => Err(e),
        }
    }
}

/// Law: the slashing path never raises a consistent exchange rate. When the
/// recorded rate is at least the rate its own totals derive to, some stake
/// is still observed, and the observation falls short of the record, the
/// re-derived rate stays at or below the recorded one.
pub proof fn lemma_slashing_lowers_rate(
    rate_raw: int,
    total_before: int,
    actual: int,
    supply: int,
)
    requires
        1 <= actual < total_before,
        1 <= supply,
        spec_rate_raw(total_before, supply) <= rate_raw,
    ensures
        spec_rate_raw(actual, supply) <= rate_raw,
{
    assert(actual * DEC_ONE <= total_before * DEC_ONE) by (nonlinear_arith)
        requires
            1 <= actual < total_before,
    ;
    vstd::arithmetic::div_mod::lemma_div_is_ordered(
        actual * DEC_ONE,
        total_before * DEC_ONE,
        supply,
    );
    assert(actual * DEC_ONE >= 0) by (nonlinear_arith)
        requires
            1 <= actual,
    ;
}

} // verus!
