//! The hub's inbound message shapes and query responses, and the query
//! functions that fill them from the ledger.

use vstd::prelude::*;
use crate::dec::Dec;
use crate::ledger::Hub;
use crate::types::{Parameters, UnbondHistory, WaitEntryV, HubError};
use crate::withdraw::{spec_ht, spec_finished};

verus! {

/// A user's pending requests: pairs of batch identifier and amount.
pub type UnbondRequest = Vec<(u64, u128)>;

/// The queries the hub answers.
pub enum QueryMsg {
    Config,
    State,
    WhitelistedValidators,
    CurrentBatch,
    WithdrawableUnbonded { address: String },
    Parameters,
    UnbondRequests { address: String },
    AllHistory { start_from: Option<u64>, limit: Option<u32> },
    Admin,
}

/// The burn-notification payloads the receipt-token ledger may forward.
pub enum Cw20HookMsg {
    Unbond,
}

/// The wiring visible to queries.
pub struct ConfigResponse {
    pub token_contract: Option<String>,
    pub protocol_fee_collector: Option<String>,
}

/// The accounting snapshot visible to queries.
#[derive(Clone, PartialEq, Eq, Structural, Debug)]
pub struct StateResponse {
    pub exchange_rate: Dec,
    pub total_bond_amount: u128,
    pub last_index_modification: u64,
    pub principle_balance_before_exchange_update: u128,
    pub prev_hub_balance: u128,
    pub actual_unbonded_amount: u128,
    pub last_unbonded_time: u64,
    pub last_processed_batch: u64,
}

/// The whitelist visible to queries.
pub struct WhitelistedValidatorsResponse {
    pub validators: Vec<String>,
}

/// The open batch visible to queries.
#[derive(Clone, Copy, PartialEq, Eq, Structural, Debug)]
pub struct CurrentBatchResponse {
    pub id: u64,
    pub requested_with_fee: u128,
}

/// What a user could withdraw right now at the stored rates.
#[derive(Clone, Copy, PartialEq, Eq, Structural, Debug)]
pub struct WithdrawableUnbondedResponse {
    pub withdrawable: u128,
}

/// A user's pending requests.
pub struct UnbondRequestsResponse {
    pub address: String,
    pub requests: UnbondRequest,
}

/// A page of finalized batches.
pub struct AllHistoryResponse {
    pub history: Vec<UnbondHistory>,
}

/// The `(batch, amount)` pairs of one user's entries, in list order.
pub open spec fn spec_user_requests(wl: Seq<WaitEntryV>, u: Seq<char>) -> Seq<(u64, u128)>
    decreases wl.len(),
{
    if wl.len() == 0 {
        Seq::empty()
    } else if wl[0].user == u {
        seq![(wl[0].batch_id, wl[0].amount)] + spec_user_requests(wl.drop_first(), u)
    } else {
        spec_user_requests(wl.drop_first(), u)
    }
}

impl Hub {
    /// The accounting snapshot.
    pub fn query_state(&self) -> (r: StateResponse)
        ensures
            r == (StateResponse {
                exchange_rate: self.state.exchange_rate,
                total_bond_amount: self.state.total_bond_amount,
                last_index_modification: self.state.last_index_modification,
                principle_balance_before_exchange_update: self
                    .state
                    .principle_balance_before_exchange_update,
                prev_hub_balance: self.state.prev_hub_balance,
                actual_unbonded_amount: self.state.actual_unbonded_amount,
                last_unbonded_time: self.state.last_unbonded_time,
                last_processed_batch: self.state.last_processed_batch,
            }),
    {
        StateResponse {
            exchange_rate: self.state.exchange_rate,
            total_bond_amount: self.state.total_bond_amount,
            last_index_modification: self.state.last_index_modification,
            principle_balance_before_exchange_update: self
                .state
                .principle_balance_before_exchange_update,
            prev_hub_balance: self.state.prev_hub_balance,
            actual_unbonded_amount: self.state.actual_unbonded_amount,
            last_unbonded_time: self.state.last_unbonded_time,
            last_processed_batch: self.state.last_processed_batch,
        }
    }

    /// The wiring.
    pub fn query_config(&self) -> (r: ConfigResponse)
        ensures
            (match r.token_contract {
                Some(ref t) => self@.config.token_contract == Some(t@),
                None => self@.config.token_contract is None,
            }),
            (match r.protocol_fee_collector {
                Some(ref c) => self@.config.protocol_fee_collector == Some(c@),
                None => self@.config.protocol_fee_collector is None,
            }),
    {
        ConfigResponse {
            token_contract: match &self.config.token_contract {
                Some(t) => Some(t.clone()),
                None => None,
            },
            protocol_fee_collector: match &self.config.protocol_fee_collector {
                Some(c) => Some(c.clone()),
                None => None,
            },
        }
    }

    /// The tunable parameters.
    pub fn query_parameters(&self) -> (r: Parameters)
        ensures
            r@ == self.parameters@,
    {
        Parameters {
            epoch_period: self.parameters.epoch_period,
            underlying_coin_denom: self.parameters.underlying_coin_denom.clone(),
            unbonding_period: self.parameters.unbonding_period,
            peg_recovery_fee: self.parameters.peg_recovery_fee,
            er_threshold: self.parameters.er_threshold,
            protocol_fee: self.parameters.protocol_fee,
        }
    }

    /// The open batch.
    pub fn query_current_batch(&self) -> (r: CurrentBatchResponse)
        ensures
            r.id == self.current_batch.id,
            r.requested_with_fee == self.current_batch.requested_with_fee,
    {
        CurrentBatchResponse {
            id: self.current_batch.id,
            requested_with_fee: self.current_batch.requested_with_fee,
        }
    }

    /// The whitelist, in registration order.
    pub fn query_whitelisted_validators(&self) -> (r: WhitelistedValidatorsResponse)
        ensures
            r.validators@.map_values(|s: String| s@) == self@.validators,
    {
        let mut out: Vec<String> = Vec::new();
        let n = self.validators.len();
        let mut i: usize = 0;
        proof {
            assert(out@.map_values(|s: String| s@) =~= self@.validators.take(0));
        }
        while i < n
            invariant
                n == self.validators.len(),
                0 <= i <= n,
                out@.map_values(|s: String| s@) == self@.validators.take(i as int),
            decreases n - i,
        {
            let ghost outv = out@.map_values(|s: String| s@);
            let entry = self.validators[i].clone();
            out.push(entry);
            proof {
                assert(out@.map_values(|s: String| s@) =~= outv.push(self@.validators[i as int]));
                assert(self@.validators.take(i as int + 1) =~= self@.validators.take(
                    i as int,
                ).push(self@.validators[i as int]));
            }
            i += 1;
        }
        proof {
            assert(self@.validators.take(n as int) =~= self@.validators);
        }
        WhitelistedValidatorsResponse { validators: out }
    }

    /// One user's pending requests, in list order (ascending by batch).
    pub fn query_unbond_requests(&self, address: &String) -> (r: UnbondRequestsResponse)
        ensures
            r.address@ == address@,
            r.requests@ == spec_user_requests(self@.wait_list, address@),
    {
        let ghost wl = self@.wait_list;
        let mut out: Vec<(u64, u128)> = Vec::new();
        let n = self.wait_list.len();
        let mut i: usize = 0;
        proof {
            assert(wl.skip(0) =~= wl);
            assert(out@ + spec_user_requests(wl.skip(0), address@) =~= spec_user_requests(
                wl,
                address@,
            ));
        }
        while i < n
            invariant
                n == self.wait_list.len(),
                wl == self@.wait_list,
                0 <= i <= n,
                spec_user_requests(wl, address@) == out@ + spec_user_requests(
                    wl.skip(i as int),
                    address@,
                ),
            decreases n - i,
        {
            proof {
                assert(wl.skip(i as int)[0] == wl[i as int]);
                assert(wl.skip(i as int).drop_first() =~= wl.skip(i as int + 1));
            }
            let ghost out0 = out@;
            if self.wait_list[i].user == *address {
                out.push((self.wait_list[i].batch_id, self.wait_list[i].amount));
                proof {
                    assert(spec_user_requests(wl.skip(i as int), address@) == seq![
                        (wl[i as int].batch_id, wl[i as int].amount),
                    ] + spec_user_requests(wl.skip(i as int + 1), address@));
                    assert(out@ + spec_user_requests(wl.skip(i as int + 1), address@) =~= out0
                        + spec_user_requests(wl.skip(i as int), address@));
                }
            } else {
                proof {
                    assert(spec_user_requests(wl.skip(i as int), address@) == spec_user_requests(
                        wl.skip(i as int + 1),
                        address@,
                    ));
                }
            }
            i += 1;
        }
        proof {
            assert(wl.skip(n as int) =~= Seq::<WaitEntryV>::empty());
            assert(out@ + spec_user_requests(wl.skip(n as int), address@) =~= out@);
        }
        UnbondRequestsResponse { address: address.clone(), requests: out }
    }

    /// A page of finalized batches, ascending from the batch after `cursor`
    /// (from the first with no cursor), at most `limit` entries, default
    /// ten, capped at a hundred.
    pub fn query_all_history(&self, cursor: Option<u64>, limit: Option<u32>) -> (r:
        AllHistoryResponse)
        ensures
            ({
                let from: int = (match cursor {
                    Some(c) => c as int,
                    None => 0,
                });
                let lim: int = (match limit {
                    Some(l) => if l > 100 {
                        100int
                    } else {
                        l as int
                    },
                    None => 10,
                });
                let from2 = if from > self@.histories.len() {
                    self@.histories.len() as int
                } else {
                    from
                };
                r.history@ == self@.histories.skip(from2).take(
                    (if lim > self@.histories.len() - from2 {
                        self@.histories.len() - from2
                    } else {
                        lim
                    }),
                )
            }),
    {
        let ghost hists = self@.histories;
        let n = self.histories.len();
        let from_u64: u64 = match cursor {
            Some(c) => c,
            None => 0,
        };
        let from: usize = if from_u64 > n as u64 {
            n
        } else {
            from_u64 as usize
        };
        let lim: usize = match limit {
            Some(l) => if l > 100 {
                100
            } else {
                l as usize
            },
            None => 10,
        };
        let upto: usize = if lim > n - from {
            n
        } else {
            from + lim
        };
        let mut out: Vec<UnbondHistory> = Vec::new();
        let mut i: usize = from;
        while i < upto
            invariant
                n == self.histories.len(),
                hists == self@.histories,
                from <= i <= upto <= n,
                out@ =~= hists.skip(from as int).take(i - from),
            decreases upto - i,
        {
            let h = self.histories[i];
            out.push(h);
            proof {
                assert(hists.skip(from as int)[i - from] == hists[i as int]);
                assert(hists.skip(from as int).take(i + 1 - from) =~= hists.skip(
                    from as int,
                ).take(i - from).push(hists[i as int]));
            }
            i += 1;
        }
        proof {
            assert(out@ =~= hists.skip(from as int).take(upto - from));
        }
        AllHistoryResponse { history: out }
    }

    /// What `address` could withdraw right now: their matured claims at the
    /// currently stored rates. A settlement running first may change the
    /// rates, so this is a preview, not a promise.
    pub fn query_withdrawable_unbonded(&self, address: &String, time: u64) -> (r: Result<
        WithdrawableUnbondedResponse,
        HubError,
    >)
        requires
            self@.wf(),
        ensures
            ({
                let w = spec_finished(
                    self@.wait_list,
                    self@.histories,
                    address@,
                    spec_ht(time, self@.parameters.unbonding_period),
                );
                match r {
                    Ok(resp) => w <= u128::MAX && resp.withdrawable == w,
                    Err(e) => e == HubError::Arithmetic && w > u128::MAX,
                }
            }),
    {
        let ht: u64 = if time >= self.parameters.unbonding_period {
            time - self.parameters.unbonding_period
        } else {
            0
        };
        proof {
            assert(ht == spec_ht(time, self@.parameters.unbonding_period));
        }
        let hn = self.histories.len();
        proof {
            assert(self.state.last_processed_batch <= hn);
        }
        let start: usize = self.state.last_processed_batch as usize;
        proof {
            assert(start as int == self.state.last_processed_batch as int);
        }
        let rates: Vec<Dec> = Vec::new();
        proof {
            crate::withdraw::lemma_finished_nonneg(
                self@.wait_list,
                self@.histories,
                address@,
                ht,
            );
        }
        match self.finished_amount(address, ht, start, &rates, Ghost(self@.histories)) {
            Ok(w) => Ok(WithdrawableUnbondedResponse { withdrawable: w }),
            Err(e) => Err(e),
        }
    }
}

} // verus!
