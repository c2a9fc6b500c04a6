//! Bonding: convert an incoming payment of the underlying asset into minted
//! receipt tokens.
//!
//! The payment is delegated to the validator the caller names; the caller is
//! minted `payment / exchange_rate` receipt tokens, less a peg-recovery fee
//! while the exchange rate sits below its threshold. Before the conversion
//! the ledger reconciles itself against the observed delegations, so a
//! slashing that happened since the last interaction is priced in.

use vstd::prelude::*;
use crate::dec::{Dec, FRACTIONAL, spec_ratio_raw, spec_mul_floor, spec_div_amount, mul_amount,
    decimal_division};
use crate::ledger::Hub;
use crate::select::dels_view;
use crate::slashing::{spec_rate_raw, spec_slash_state};
use crate::types::{State, ParametersV, Coin, CoinV, Delegation, DelegationV, Instruction,
    InstructionV, HubError, instrs_view};
use crate::ledger::HubV;

verus! {

/// The views of a list of coins.
pub open spec fn coins_view(v: Seq<Coin>) -> Seq<CoinV> {
    v.map_values(|c: Coin| c@)
}

/// The first attached coin in the expected denomination with a positive
/// amount, if any.
pub open spec fn spec_find_payment(funds: Seq<CoinV>, denom: Seq<char>) -> Option<CoinV>
    decreases funds.len(),
{
    if funds.len() == 0 {
        None
    } else if funds[0].denom == denom && funds[0].amount > 0 {
        Some(funds[0])
    } else {
        spec_find_payment(funds.drop_first(), denom)
    }
}

/// The conversion performed on the reconciled state: the minted amount is
/// the payment divided by the exchange rate; while the rate sits below the
/// threshold, a recovery fee — the smaller of `mint * peg_recovery_fee` and
/// what the backing is short of the supply — is withheld from the mint. The
/// payment joins the backing and the rate is re-derived counting the fresh
/// mint into the supply. Returns the new state and the minted amount.
pub open spec fn spec_bond_math(
    st: State,
    p: ParametersV,
    requested: u128,
    issued: u128,
    payment: u128,
) -> Result<(State, u128), HubError> {
    let er = st.exchange_rate.raw;
    let den = er as int / FRACTIONAL as int;
    if den == 0 {
        Err(HubError::Arithmetic)
    } else if spec_ratio_raw(payment as int, den) > u128::MAX {
        Err(HubError::Arithmetic)
    } else {
        let mint = spec_div_amount(payment as int, er as int);
        let mwf_r: Result<int, HubError> = if er < p.er_threshold.raw {
            let max_fee = spec_mul_floor(mint, p.peg_recovery_fee.raw as int);
            if max_fee > u128::MAX {
                Err(HubError::Arithmetic)
            } else if issued + mint + requested > u128::MAX {
                Err(HubError::Arithmetic)
            } else if st.total_bond_amount + payment > u128::MAX {
                Err(HubError::Arithmetic)
            } else if issued + mint + requested < st.total_bond_amount + payment {
                Err(HubError::Arithmetic)
            } else {
                let required = issued + mint + requested - (st.total_bond_amount + payment);
                let fee = if max_fee <= required {
                    max_fee
                } else {
                    required
                };
                if mint < fee {
                    Err(HubError::Arithmetic)
                } else {
                    Ok(mint - fee)
                }
            }
        } else {
            Ok(mint)
        };
        match mwf_r {
            Err(e) => Err(e),
            Ok(mwf) => {
                if st.total_bond_amount + payment > u128::MAX {
                    Err(HubError::Arithmetic)
                } else if issued + mwf > u128::MAX {
                    Err(HubError::Arithmetic)
                } else if issued + mwf + requested > u128::MAX {
                    Err(HubError::Arithmetic)
                } else if spec_rate_raw(st.total_bond_amount + payment, issued + mwf + requested)
                    > u128::MAX {
                    Err(HubError::Arithmetic)
                } else {
                    Ok(
                        (
                            State {
                                total_bond_amount: (st.total_bond_amount + payment) as u128,
                                exchange_rate: Dec {
                                    raw: spec_rate_raw(
                                        st.total_bond_amount + payment,
                                        issued + mwf + requested,
                                    ) as u128,
                                },
                                ..st
                            },
                            mwf as u128,
                        ),
                    )
                }
            },
        }
    }
}

/// The whole bonding transition over the ledger view: validation, slashing
/// reconciliation, conversion, and the two emitted instructions.
pub open spec fn spec_bond(
    h: HubV,
    sender: Seq<char>,
    funds: Seq<CoinV>,
    validator: Seq<char>,
    dels: Seq<DelegationV>,
    issued: u128,
) -> Result<(State, Seq<InstructionV>), HubError> {
    if !h.validators.contains(validator) {
        Err(HubError::UnsupportedValidator)
    } else if funds.len() > 1 {
        Err(HubError::MultipleCoins)
    } else {
        match spec_find_payment(funds, h.parameters.underlying_coin_denom) {
            None => Err(HubError::NoPayment),
            Some(c) => match spec_slash_state(
                h.state,
                dels,
                h.parameters.underlying_coin_denom,
                issued,
                h.current_batch.requested_with_fee,
            ) {
                Err(e) => Err(e),
                Ok(st1) => match spec_bond_math(
                    st1,
                    h.parameters,
                    h.current_batch.requested_with_fee,
                    issued,
                    c.amount,
                ) {
                    Err(e) => Err(e),
                    Ok((st2, mwf)) => Ok(
                        (
                            st2,
                            seq![
                                InstructionV::Delegate { validator: validator, amount: c.amount },
                                InstructionV::Mint { recipient: sender, amount: mwf },
                            ],
                        ),
                    ),
                },
            },
        }
    }
}

impl Hub {
    /// Bond an incoming payment: delegate it to `validator` and mint the
    /// converted amount to `sender`. The returned instructions are a
    /// delegate followed by a mint; on any failure the ledger is unchanged.
    pub fn execute_bond(
        &mut self,
        sender: &String,
        funds: &Vec<Coin>,
        validator: &String,
        delegations: &Vec<Delegation>,
        total_issued: u128,
    ) -> (r: Result<Vec<Instruction>, HubError>)
        requires
            old(self)@.wf(),
        ensures
            final(self)@.wf(),
            final(self).parameters == old(self).parameters,
            final(self).config == old(self).config,
            final(self).current_batch == old(self).current_batch,
            final(self)@.validators == old(self)@.validators,
            final(self)@.wait_list == old(self)@.wait_list,
            final(self)@.histories == old(self)@.histories,
            final(self).paused == old(self).paused,
            match spec_bond(
                old(self)@,
                sender@,
                coins_view(funds@),
                validator@,
                dels_view(delegations@),
                total_issued,
            ) {
                Ok((st, ins)) => {
                    &&& r is Ok
                    &&& final(self).state == st
                    &&& instrs_view(r->Ok_0@) == ins
                },
                Err(e) => {
                    &&& r == Result::<Vec<Instruction>, HubError>::Err(e)
                    &&& *final(self) == *old(self)
                },
            },
    {
        let ghost fundsv = coins_view(funds@);
        let ghost denom = self.parameters.underlying_coin_denom@;
        if !self.has_validator(validator) {
            return Err(HubError::UnsupportedValidator);
        }
        if funds.len() > 1 {
            return Err(HubError::MultipleCoins);
        }
        // Locate the payment: with at most one coin attached, it must be
        // that coin, in the expected denomination and positive.
        let payment: u128;
        if funds.len() == 1 {
            proof {
                assert(fundsv[0] == funds@[0]@);
                assert(fundsv.drop_first() =~= Seq::<CoinV>::empty());
            }
            let denom_matches = funds[0].denom == self.parameters.underlying_coin_denom;
            let positive = funds[0].amount > 0;
            if !denom_matches || !positive {
                proof {
                    assert(fundsv[0].denom == funds@[0].denom@);
                    assert(fundsv[0].amount == funds@[0].amount);
                    assert(!(fundsv[0].denom == denom && fundsv[0].amount > 0));
                    assert(spec_find_payment(fundsv, denom) == spec_find_payment(
                        fundsv.drop_first(),
                        denom,
                    ));
                    assert(spec_find_payment(fundsv, denom) is None);
                }
                return Err(HubError::NoPayment);
            }
            payment = funds[0].amount;
        } else {
            proof {
                assert(funds@.len() == 0);
                assert(fundsv.len() == 0);
            }
            return Err(HubError::NoPayment);
        }
        let ghost payc = spec_find_payment(fundsv, denom)->Some_0;
        proof {
            assert(payc.amount == payment);
        }
        // Price in any slashing observed since the last interaction.
        let st1 = match self.slashed_state(delegations, total_issued) {
            Ok(st) => st,
            Err(e) => {
                return Err(e);
            },
        };
        let requested = self.current_batch.requested_with_fee;
        // Convert the payment into receipt tokens at the reconciled rate.
        let mint_amount = match decimal_division(payment, st1.exchange_rate) {
            Some(m) => m,
            None => {
                return Err(HubError::Arithmetic);
            },
        };
        let mint_with_fee: u128;
        if st1.exchange_rate.lt(&self.parameters.er_threshold) {
            let max_fee = match mul_amount(mint_amount, self.parameters.peg_recovery_fee) {
                Some(f) => f,
                None => {
                    return Err(HubError::Arithmetic);
                },
            };
            let s1 = match checked_add3(total_issued, mint_amount, requested) {
                Some(v) => v,
                None => {
                    return Err(HubError::Arithmetic);
                },
            };
            if st1.total_bond_amount > u128::MAX - payment {
                return Err(HubError::Arithmetic);
            }
            let owed = st1.total_bond_amount + payment;
            if s1 < owed {
                return Err(HubError::Arithmetic);
            }
            let required = s1 - owed;
            let fee = if max_fee <= required {
                max_fee
            } else {
                required
            };
            if mint_amount < fee {
                return Err(HubError::Arithmetic);
            }
            mint_with_fee = mint_amount - fee;
        } else {
            mint_with_fee = mint_amount;
        }
        // The payment joins the backing; the rate counts the fresh mint.
        if st1.total_bond_amount > u128::MAX - payment {
            return Err(HubError::Arithmetic);
        }
        let mut st2 = st1;
        st2.total_bond_amount = st1.total_bond_amount + payment;
        if total_issued > u128::MAX - mint_with_fee {
            return Err(HubError::Arithmetic);
        }
        match st2.update_exchange_rate(total_issued + mint_with_fee, requested) {
            Ok(()) => {},
            Err(()) => {
                return Err(HubError::Arithmetic);
            },
        }
        self.state = st2;
        proof {
            assert(self@.wait_list == old(self)@.wait_list);
            assert(self@.histories == old(self)@.histories);
            assert(self@.validators == old(self)@.validators);
            assert(self@.wf());
        }
        let mut out: Vec<Instruction> = Vec::new();
        out.push(Instruction::Delegate { validator: validator.clone(), amount: payment });
        out.push(Instruction::Mint { recipient: sender.clone(), amount: mint_with_fee });
        proof {
            assert(instrs_view(out@) =~= seq![
                InstructionV::Delegate { validator: validator@, amount: payc.amount },
                InstructionV::Mint { recipient: sender@, amount: mint_with_fee },
            ]);
        }
        Ok(out)
    }
}

/// Three-way checked addition.
fn checked_add3(a: u128, b: u128, c: u128) -> (r: Option<u128>)
    ensures
        a + b + c <= u128::MAX ==> r == Some((a + b + c) as u128),
        a + b + c > u128::MAX ==> r is None,
{
    if a > u128::MAX - b {
        return None;
    }
    let s = a + b;
    if s > u128::MAX - c {
        return None;
    }
    Some(s + c)
}

} // verus!
