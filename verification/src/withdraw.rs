//! Withdrawal settlement.
//!
//! A withdrawal request settles every batch that matured since the last
//! settlement: the pool's fresh balance is compared against what those
//! batches are owed at their stored rates, any shortfall or surplus is
//! spread over them in proportion, and each batch's payout rate is fixed
//! and marked released. The caller is then paid the sum of their matured
//! wait-list claims at the fixed rates, and those claims are removed. With
//! nothing payable the call fails with a distinct condition and changes
//! nothing.

use vstd::prelude::*;
use crate::DEC_ONE;
use crate::dec::{Dec, spec_ratio_raw, spec_mul_floor, mul_amount};
use crate::ledger::{Hub, HubV, matured, wait_keys_unique, wait_sorted, wait_in_range,
    keep_entries, lemma_keep_entries};
use crate::types::{State, UnbondHistory, WaitEntry, WaitEntryV, Instruction, InstructionV,
    HubError, instrs_view};

verus! {

/// What a batch is owed at its stored rate.
pub open spec fn spec_hist_unbonded(h: UnbondHistory) -> int {
    spec_mul_floor(h.amount as int, h.withdraw_rate.raw as int)
}

/// The first index at or after `i` whose batch has not matured by `ht`;
/// the end of the contiguous range settlement touches.
pub open spec fn spec_settle_end(hists: Seq<UnbondHistory>, i: int, ht: u64) -> int
    decreases hists.len() - i,
{
    if i < 0 || i >= hists.len() {
        i
    } else if hists[i].time > ht {
        i
    } else {
        spec_settle_end(hists, i + 1, ht)
    }
}

/// Sum owed to the batches in `[i, end)` at their stored rates.
pub open spec fn spec_total_unbonded(hists: Seq<UnbondHistory>, i: int, end: int) -> int
    decreases end - i,
{
    if i >= end {
        0
    } else {
        spec_hist_unbonded(hists[i]) + spec_total_unbonded(hists, i + 1, end)
    }
}

/// The payout rate settlement fixes for one batch. `total` is the sum owed
/// to all batches being settled, `smag` the magnitude of the difference
/// between it and the available balance, `neg` whether the balance exceeds
/// it. The batch's proportional share of the difference is applied to what
/// it is owed — shaded by one unit toward the pool — and the result is
/// divided by the batch's nominal amount.
pub open spec fn spec_batch_rate(h: UnbondHistory, total: int, smag: int, neg: bool) -> Result<
    u128,
    HubError,
> {
    let ub = spec_hist_unbonded(h);
    let w = spec_ratio_raw(ub, total);
    let t = spec_mul_floor(smag, w);
    if neg {
        let adj = if t > 1 {
            t - 1
        } else {
            0
        };
        if ub + adj > u128::MAX {
            Err(HubError::Arithmetic)
        } else if h.amount == 0 {
            Err(HubError::Arithmetic)
        } else if spec_ratio_raw(ub + adj, h.amount as int) > u128::MAX {
            Err(HubError::Arithmetic)
        } else {
            Ok(spec_ratio_raw(ub + adj, h.amount as int) as u128)
        }
    } else {
        let adj = if t > 0 {
            t + 1
        } else {
            0
        };
        if ub < adj {
            Err(HubError::Arithmetic)
        } else if h.amount == 0 {
            Err(HubError::Arithmetic)
        } else if spec_ratio_raw(ub - adj, h.amount as int) > u128::MAX {
            Err(HubError::Arithmetic)
        } else {
            Ok(spec_ratio_raw(ub - adj, h.amount as int) as u128)
        }
    }
}

/// The updated records for the settled range `[i, end)`: payout rate fixed,
/// released set.
pub open spec fn spec_settled(
    hists: Seq<UnbondHistory>,
    i: int,
    end: int,
    total: int,
    smag: int,
    neg: bool,
) -> Result<Seq<UnbondHistory>, HubError>
    decreases end - i,
{
    if i >= end {
        Ok(Seq::empty())
    } else {
        match spec_batch_rate(hists[i], total, smag, neg) {
            Err(e) => Err(e),
            Ok(raw) => match spec_settled(hists, i + 1, end, total, smag, neg) {
                Err(e) => Err(e),
                Ok(rest) => Ok(
                    seq![
                        UnbondHistory {
                            withdraw_rate: Dec { raw },
                            released: true,
                            ..hists[i]
                        },
                    ] + rest,
                ),
            },
        }
    }
}

/// What the settled range looks like, index by index.
pub proof fn lemma_settled_index(
    hists: Seq<UnbondHistory>,
    i: int,
    end: int,
    total: int,
    smag: int,
    neg: bool,
)
    requires
        spec_settled(hists, i, end, total, smag, neg) is Ok,
    ensures
        spec_settled(hists, i, end, total, smag, neg)->Ok_0.len() == (if i >= end {
            0
        } else {
            end - i
        }),
        forall|k: int|
            0 <= k < spec_settled(hists, i, end, total, smag, neg)->Ok_0.len() ==> (
            #[trigger] spec_batch_rate(hists[i + k], total, smag, neg) is Ok),
        forall|k: int|
            0 <= k < spec_settled(hists, i, end, total, smag, neg)->Ok_0.len() ==> (
            #[trigger] spec_settled(hists, i, end, total, smag, neg)->Ok_0[k] == (UnbondHistory {
                withdraw_rate: Dec { raw: spec_batch_rate(hists[i + k], total, smag, neg)->Ok_0 },
                released: true,
                ..hists[i + k]
            })),
    decreases end - i,
{
    if i >= end {
    } else {
        let mid = spec_settled(hists, i, end, total, smag, neg)->Ok_0;
        let rest = spec_settled(hists, i + 1, end, total, smag, neg)->Ok_0;
        lemma_settled_index(hists, i + 1, end, total, smag, neg);
        let head = UnbondHistory {
            withdraw_rate: Dec { raw: spec_batch_rate(hists[i], total, smag, neg)->Ok_0 },
            released: true,
            ..hists[i]
        };
        assert(mid == seq![head] + rest);
        assert(mid.len() == 1 + rest.len());
        assert(mid[0] == head);
        assert forall|k: int|
            0 <= k < mid.len() implies #[trigger] spec_batch_rate(hists[i + k], total, smag, neg)
            is Ok by {
            if k == 0 {
            } else {
                assert(mid[k] == rest[k - 1]);
                assert(spec_batch_rate(hists[i + 1 + (k - 1)], total, smag, neg) is Ok);
                assert(i + 1 + (k - 1) == i + k);
            }
        }
        assert forall|k: int|
            0 <= k < mid.len() implies (
        #[trigger] mid[k]) == UnbondHistory {
            withdraw_rate: Dec { raw: spec_batch_rate(hists[i + k], total, smag, neg)->Ok_0 },
            released: true,
            ..hists[i + k]
        } by {
            if k == 0 {
            } else {
                assert(mid[k] == rest[k - 1]);
                assert(rest[k - 1] == UnbondHistory {
                    withdraw_rate: Dec {
                        raw: spec_batch_rate(hists[i + 1 + (k - 1)], total, smag, neg)->Ok_0,
                    },
                    released: true,
                    ..hists[i + 1 + (k - 1)]
                });
                assert(i + 1 + (k - 1) == i + k);
            }
        }
    }
}

/// The caller's matured claims, at the rates carried by `hists`.
pub open spec fn spec_finished(
    wl: Seq<WaitEntryV>,
    hists: Seq<UnbondHistory>,
    u: Seq<char>,
    ht: u64,
) -> int
    decreases wl.len(),
{
    if wl.len() == 0 {
        0
    } else {
        (if wl[0].user == u && matured(hists, wl[0].batch_id, ht) {
            spec_mul_floor(
                wl[0].amount as int,
                hists[wl[0].batch_id - 1].withdraw_rate.raw as int,
            )
        } else {
            0
        }) + spec_finished(wl.drop_first(), hists, u, ht)
    }
}

/// Matured claims are non-negative.
pub proof fn lemma_finished_nonneg(
    wl: Seq<WaitEntryV>,
    hists: Seq<UnbondHistory>,
    u: Seq<char>,
    ht: u64,
)
    ensures
        spec_finished(wl, hists, u, ht) >= 0,
    decreases wl.len(),
{
    if wl.len() > 0 {
        assert(spec_mul_floor(
            wl[0].amount as int,
            hists[wl[0].batch_id - 1].withdraw_rate.raw as int,
        ) >= 0) by {
            if 1 <= wl[0].batch_id <= hists.len() {
                vstd::arithmetic::div_mod::lemma_div_pos_is_pos(
                    wl[0].amount * hists[wl[0].batch_id - 1].withdraw_rate.raw,
                    DEC_ONE as int,
                );
                assert(wl[0].amount * hists[wl[0].batch_id - 1].withdraw_rate.raw >= 0) by (nonlinear_arith);
            }
        }
        lemma_finished_nonneg(wl.drop_first(), hists, u, ht);
    }
}

/// The maturity cutoff: batches finalized at or before this time have
/// completed their unbonding period.
pub open spec fn spec_ht(time: u64, period: u64) -> u64 {
    if time >= period {
        (time - period) as u64
    } else {
        0
    }
}

/// The balance settlement works with: the magnitude of the change since the
/// last settlement left `prev` behind.
pub open spec fn spec_avail(hub_balance: u128, prev: u128) -> int {
    if hub_balance >= prev {
        hub_balance - prev
    } else {
        prev - hub_balance
    }
}

/// The history sequence settlement leaves behind: every batch matured by
/// `ht` and not yet released gets its payout rate fixed and its released
/// flag set; the rest is untouched.
pub open spec fn spec_settle_hists(h: HubV, ht: u64, hub_balance: u128) -> Result<
    Seq<UnbondHistory>,
    HubError,
> {
    let start = h.state.last_processed_batch as int;
    let end = spec_settle_end(h.histories, start, ht);
    if end > start {
        let total = spec_total_unbonded(h.histories, start, end);
        if total > u128::MAX {
            Err(HubError::Arithmetic)
        } else if total == 0 {
            Err(HubError::Arithmetic)
        } else {
            let avail = spec_avail(hub_balance, h.state.prev_hub_balance);
            let neg = avail > total;
            let smag = if neg {
                avail - total
            } else {
                total - avail
            };
            match spec_settled(h.histories, start, end, total, smag, neg) {
                Err(e) => Err(e),
                Ok(mid) => Ok(h.histories.take(start) + mid + h.histories.skip(end)),
            }
        }
    } else {
        Ok(h.histories)
    }
}

/// The whole settlement transition over the ledger view: the new state, the
/// updated histories, the remaining wait list, and the single transfer.
pub open spec fn spec_withdraw(h: HubV, sender: Seq<char>, time: u64, hub_balance: u128) -> Result<
    (State, Seq<UnbondHistory>, Seq<WaitEntryV>, Seq<InstructionV>),
    HubError,
> {
    let ht = spec_ht(time, h.parameters.unbonding_period);
    let start = h.state.last_processed_batch as int;
    let end = spec_settle_end(h.histories, start, ht);
    match spec_settle_hists(h, ht, hub_balance) {
        Err(e) => Err(e),
        Ok(hists2) => {
            let w = spec_finished(h.wait_list, hists2, sender, ht);
            if w > u128::MAX {
                Err(HubError::Arithmetic)
            } else if w == 0 {
                Err(HubError::NothingWithdrawable)
            } else if w > hub_balance {
                Err(HubError::Arithmetic)
            } else {
                let st2 = State {
                    prev_hub_balance: (hub_balance - w) as u128,
                    last_processed_batch: end as u64,
                    ..h.state
                };
                let wl2 = keep_entries(
                    h.wait_list,
                    |e: WaitEntryV| !(e.user == sender && matured(h.histories, e.batch_id, ht)),
                );
                Ok(
                    (
                        st2,
                        hists2,
                        wl2,
                        seq![InstructionV::Send { recipient: sender, amount: w as u128 }],
                    ),
                )
            }
        },
    }
}

/// Splitting a summed range at any point.
pub proof fn lemma_total_split(hists: Seq<UnbondHistory>, i: int, m: int, end: int)
    requires
        i <= m <= end,
    ensures
        spec_total_unbonded(hists, i, end) == spec_total_unbonded(hists, i, m)
            + spec_total_unbonded(hists, m, end),
    decreases m - i,
{
    if i < m {
        lemma_total_split(hists, i + 1, m, end);
    }
}

/// What one batch is owed is non-negative.
pub proof fn lemma_hist_unbonded_nonneg(h: UnbondHistory)
    ensures
        spec_hist_unbonded(h) >= 0,
{
    assert(h.amount * h.withdraw_rate.raw >= 0) by (nonlinear_arith);
    vstd::arithmetic::div_mod::lemma_div_pos_is_pos(
        h.amount * h.withdraw_rate.raw,
        DEC_ONE as int,
    );
}

/// The owed sum over any range is non-negative.
pub proof fn lemma_total_nonneg(hists: Seq<UnbondHistory>, i: int, end: int)
    ensures
        spec_total_unbonded(hists, i, end) >= 0,
    decreases end - i,
{
    if i < end {
        lemma_hist_unbonded_nonneg(hists[i]);
        lemma_total_nonneg(hists, i + 1, end);
    }
}

/// With every rate in the range defined, settlement of the range succeeds.
pub proof fn lemma_settled_ok(
    hists: Seq<UnbondHistory>,
    i: int,
    end: int,
    total: int,
    smag: int,
    neg: bool,
)
    requires
        forall|k: int| i <= k < end ==> (#[trigger] spec_batch_rate(hists[k], total, smag, neg))
            is Ok,
    ensures
        spec_settled(hists, i, end, total, smag, neg) is Ok,
    decreases end - i,
{
    if i < end {
        lemma_settled_ok(hists, i + 1, end, total, smag, neg);
    }
}

/// Settlement of a range reports the first undefined rate.
pub proof fn lemma_settled_first_err(
    hists: Seq<UnbondHistory>,
    i: int,
    end: int,
    total: int,
    smag: int,
    neg: bool,
    k: int,
)
    requires
        i <= k < end,
        forall|j: int| i <= j < k ==> (#[trigger] spec_batch_rate(hists[j], total, smag, neg))
            is Ok,
        spec_batch_rate(hists[k], total, smag, neg) is Err,
    ensures
        spec_settled(hists, i, end, total, smag, neg) == Result::<
            Seq<UnbondHistory>,
            HubError,
        >::Err(spec_batch_rate(hists[k], total, smag, neg)->Err_0),
    decreases k - i,
{
    if i < k {
        lemma_settled_first_err(hists, i + 1, end, total, smag, neg, k);
    }
}

/// A share of a whole is a ratio of at most one.
proof fn lemma_ratio_le_one(part: int, whole: int)
    requires
        0 <= part <= whole,
        1 <= whole,
    ensures
        0 <= spec_ratio_raw(part, whole) <= DEC_ONE,
{
    assert(part * DEC_ONE <= whole * DEC_ONE) by (nonlinear_arith)
        requires
            0 <= part <= whole,
    ;
    vstd::arithmetic::div_mod::lemma_div_is_ordered(part * DEC_ONE, whole * DEC_ONE, whole);
    vstd::arithmetic::div_mod::lemma_div_multiples_vanish(DEC_ONE as int, whole);
    assert(whole * DEC_ONE == DEC_ONE * whole) by (nonlinear_arith);
    assert(part * DEC_ONE >= 0) by (nonlinear_arith)
        requires
            0 <= part,
    ;
    vstd::arithmetic::div_mod::lemma_div_pos_is_pos(part * DEC_ONE, whole);
}

/// Multiplying by a ratio of at most one does not grow an amount.
proof fn lemma_mul_floor_le(a: int, raw: int)
    requires
        0 <= a,
        0 <= raw <= DEC_ONE,
    ensures
        0 <= spec_mul_floor(a, raw) <= a,
{
    assert(a * raw <= a * DEC_ONE) by (nonlinear_arith)
        requires
            0 <= a && 0 <= raw <= DEC_ONE,
    ;
    vstd::arithmetic::div_mod::lemma_div_is_ordered(a * raw, a * DEC_ONE, DEC_ONE as int);
    vstd::arithmetic::div_mod::lemma_div_multiples_vanish(a, DEC_ONE as int);
    assert(a * DEC_ONE == DEC_ONE * a) by (nonlinear_arith);
    assert(a * raw >= 0) by (nonlinear_arith)
        requires
            0 <= a && 0 <= raw,
    ;
    vstd::arithmetic::div_mod::lemma_div_pos_is_pos(a * raw, DEC_ONE as int);
}

impl Hub {
    /// The settlement range and the payout rates it fixes: walks the
    /// matured, unreleased batches, compares what they are owed with the
    /// balance change since the last settlement, and derives each batch's
    /// new rate. Read-only; the caller commits the result.
    fn settlement_rates(&self, ht: u64, hub_balance: u128) -> (r: Result<
        (usize, Vec<Dec>),
        HubError,
    >)
        requires
            self@.wf(),
        ensures
            match spec_settle_hists(self@, ht, hub_balance) {
                Ok(h2) => {
                    &&& r is Ok
                    &&& r->Ok_0.0 as int == spec_settle_end(
                        self@.histories,
                        self@.state.last_processed_batch as int,
                        ht,
                    )
                    &&& self@.state.last_processed_batch <= r->Ok_0.0 <= self@.histories.len()
                    &&& h2.len() == self@.histories.len()
                    &&& r->Ok_0.1@.len() == r->Ok_0.0 - self@.state.last_processed_batch
                    &&& (forall|j: int|
                        0 <= j < h2.len() && !(self@.state.last_processed_batch <= j
                            < r->Ok_0.0) ==> #[trigger] h2[j] == self@.histories[j])
                    &&& (forall|j: int|
                        self@.state.last_processed_batch <= j < r->Ok_0.0 ==> #[trigger] h2[j]
                            == (UnbondHistory {
                            withdraw_rate: Dec {
                                raw: r->Ok_0.1@[j - self@.state.last_processed_batch].raw,
                            },
                            released: true,
                            ..self@.histories[j]
                        }))
                },
                Err(e) => r == Result::<(usize, Vec<Dec>), HubError>::Err(e),
            },
    {
        let ghost hists = self@.histories;
        let n = self.histories.len();
        proof {
            assert(self.state.last_processed_batch <= n);
        }
        let start: usize = self.state.last_processed_batch as usize;
        proof {
            assert(start as int == self.state.last_processed_batch as int);
        }
        // First pass: the contiguous matured range and what each batch in
        // it is owed at its stored rate.
        let mut end: usize = start;
        let mut total_unbonded: u128 = 0;
        while end < n && self.histories[end].time <= ht
            invariant
                self@.wf(),
                hists == self@.histories,
                n == self.histories.len(),
                start == self.state.last_processed_batch,
                start <= end <= n,
                spec_settle_end(hists, start as int, ht) == spec_settle_end(hists, end as int, ht),
                total_unbonded as int == spec_total_unbonded(hists, start as int, end as int),
            decreases n - end,
        {
            let ghost endg = end as int;
            let ghost real_end = spec_settle_end(hists, start as int, ht);
            proof {
                lemma_settle_end_bounds(hists, endg, ht);
                assert(real_end > endg);
                lemma_total_split(hists, start as int, endg, real_end);
                lemma_total_split(hists, endg, endg + 1, real_end);
                lemma_hist_unbonded_nonneg(hists[endg]);
                lemma_total_nonneg(hists, endg + 1, real_end);
                lemma_total_nonneg(hists, start as int, endg);
                lemma_total_split(hists, start as int, endg, endg + 1);
                assert(spec_total_unbonded(hists, endg, endg + 1) == spec_hist_unbonded(
                    hists[endg],
                ) + spec_total_unbonded(hists, endg + 1, endg + 1));
            }
            let h = self.histories[end];
            let u = match mul_amount(h.amount, h.withdraw_rate) {
                Some(v) => v,
                None => {
                    proof {
                        assert(spec_total_unbonded(hists, start as int, real_end) > u128::MAX);
                        assert(real_end > start);
                    }
                    return Err(HubError::Arithmetic);
                },
            };
            if u > u128::MAX - total_unbonded {
                proof {
                    assert(spec_total_unbonded(hists, start as int, real_end) > u128::MAX);
                    assert(real_end > start);
                }
                return Err(HubError::Arithmetic);
            }
            total_unbonded += u;
            end += 1;
        }
        let ghost endg = end as int;
        proof {
            assert(spec_settle_end(hists, endg, ht) == endg);
            assert(spec_settle_end(hists, start as int, ht) == endg);
        }
        let mut rates: Vec<Dec> = Vec::new();
        if end == start {
            return Ok((end, rates));
        }
        // Second pass: fix the payout rate of each settled batch.
        if total_unbonded == 0 {
            return Err(HubError::Arithmetic);
        }
        let ghost total_g = total_unbonded as int;
        let prev = self.state.prev_hub_balance;
        let avail: u128 = if hub_balance >= prev {
            hub_balance - prev
        } else {
            prev - hub_balance
        };
        proof {
            assert(avail as int == spec_avail(hub_balance, prev));
        }
        let neg = avail > total_unbonded;
        let smag: u128 = if neg {
            avail - total_unbonded
        } else {
            total_unbonded - avail
        };
        let m = end - start;
        let mut k: usize = 0;
        while k < m
            invariant
                self@.wf(),
                hists == self@.histories,
                n == self.histories.len(),
                start == self.state.last_processed_batch,
                start <= end <= n,
                endg == end as int,
                start < end,
                m == end - start,
                0 <= k <= m,
                total_g == total_unbonded as int,
                1 <= total_g,
                total_g == spec_total_unbonded(hists, start as int, end as int),
                endg == spec_settle_end(hists, start as int, ht),
                prev == self.state.prev_hub_balance,
                avail as int == spec_avail(hub_balance, prev),
                neg == (avail > total_unbonded),
                smag as int == (if neg {
                    avail - total_g
                } else {
                    total_g - avail
                }),
                rates@.len() == k,
                forall|j: int|
                    0 <= j < k ==> (#[trigger] spec_batch_rate(
                        hists[start + j],
                        total_g,
                        smag as int,
                        neg,
                    )) is Ok,
                forall|j: int|
                    0 <= j < k ==> #[trigger] rates@[j].raw == spec_batch_rate(
                        hists[start + j],
                        total_g,
                        smag as int,
                        neg,
                    )->Ok_0,
            decreases m - k,
        {
            let h = self.histories[start + k];
            let ghost ub = spec_hist_unbonded(hists[start + k]);
            proof {
                lemma_total_split(hists, start as int, start + k, endg);
                lemma_total_split(hists, start + k, start + k + 1, endg);
                lemma_total_nonneg(hists, start as int, start + k);
                lemma_total_nonneg(hists, start + k + 1, endg);
                lemma_hist_unbonded_nonneg(hists[start + k]);
                assert(spec_total_unbonded(hists, start + k, start + k + 1) == spec_hist_unbonded(
                    hists[start + k],
                ) + spec_total_unbonded(hists, start + k + 1, start + k + 1));
                assert(ub <= total_g);
                lemma_ratio_le_one(ub, total_g);
            }
            let u = match mul_amount(h.amount, h.withdraw_rate) {
                Some(v) => v,
                None => {
                    proof {
                        assert(false);
                    }
                    return Err(HubError::Arithmetic);
                },
            };
            let w = match Dec::ratio(u, total_unbonded) {
                Some(d) => d,
                None => {
                    proof {
                        assert(false);
                    }
                    return Err(HubError::Arithmetic);
                },
            };
            proof {
                lemma_mul_floor_le(smag as int, w.raw as int);
            }
            let t = match mul_amount(smag, w) {
                Some(v) => v,
                None => {
                    proof {
                        assert(false);
                    }
                    return Err(HubError::Arithmetic);
                },
            };
            let adjusted: u128;
            if neg {
                let adj: u128 = if t > 1 {
                    t - 1
                } else {
                    0
                };
                if u > u128::MAX - adj {
                    proof {
                        settled_err_bridge(hists, start as int, endg, total_g, smag as int, neg, k as int, rates@);
                    }
                    return Err(HubError::Arithmetic);
                }
                adjusted = u + adj;
            } else {
                if t > 0 {
                    if t >= u {
                        proof {
                            settled_err_bridge(hists, start as int, endg, total_g, smag as int, neg, k as int, rates@);
                        }
                        return Err(HubError::Arithmetic);
                    }
                    adjusted = u - (t + 1);
                } else {
                    adjusted = u;
                }
            }
            let rate = match Dec::ratio(adjusted, h.amount) {
                Some(d) => d,
                None => {
                    proof {
                        settled_err_bridge(hists, start as int, endg, total_g, smag as int, neg, k as int, rates@);
                    }
                    return Err(HubError::Arithmetic);
                },
            };
            proof {
                assert(spec_batch_rate(hists[start + k], total_g, smag as int, neg)
                    == Result::<u128, HubError>::Ok(rate.raw));
            }
            rates.push(rate);
            k += 1;
        }
        proof {
            assert forall|k2: int|
                start <= k2 < endg implies (#[trigger] spec_batch_rate(
                hists[k2],
                total_g,
                smag as int,
                neg,
            )) is Ok by {
                assert(spec_batch_rate(hists[start + (k2 - start)], total_g, smag as int, neg)
                    is Ok);
                assert(start + (k2 - start) == k2);
            }
            lemma_settled_ok(hists, start as int, endg, total_g, smag as int, neg);
            lemma_settled_index(hists, start as int, endg, total_g, smag as int, neg);
            let mid = spec_settled(hists, start as int, endg, total_g, smag as int, neg)->Ok_0;
            let h2 = hists.take(start as int) + mid + hists.skip(endg);
            assert(spec_settle_hists(self@, ht, hub_balance) == Result::<
                Seq<UnbondHistory>,
                HubError,
            >::Ok(h2));
            assert(h2.len() == n);
            assert(forall|j: int| 0 <= j < start ==> #[trigger] h2[j] == hists[j]);
            assert forall|j: int| start <= j < endg implies #[trigger] h2[j] == (UnbondHistory {
                withdraw_rate: Dec { raw: rates@[j - start].raw },
                released: true,
                ..hists[j]
            }) by {
                assert(h2[j] == mid[j - start]);
                assert(mid[j - start] == (UnbondHistory {
                    withdraw_rate: Dec {
                        raw: spec_batch_rate(
                            hists[start + (j - start)],
                            total_g,
                            smag as int,
                            neg,
                        )->Ok_0,
                    },
                    released: true,
                    ..hists[start + (j - start)]
                }));
                assert(start + (j - start) == j);
                assert(rates@[j - start].raw == spec_batch_rate(
                    hists[start + (j - start)],
                    total_g,
                    smag as int,
                    neg,
                )->Ok_0);
            }
            assert(forall|j: int| endg <= j < n ==> #[trigger] h2[j] == hists[j]);
        }
        Ok((end, rates))
    }

    /// The caller's matured claims at the rates `h2` carries; the settled
    /// range's fresh rates are read from `rates`, everything else from the
    /// stored records. Read-only.
    pub(crate) fn finished_amount(
        &self,
        sender: &String,
        ht: u64,
        endp: usize,
        rates: &Vec<Dec>,
        Ghost(h2): Ghost<Seq<UnbondHistory>>,
    ) -> (r: Result<u128, HubError>)
        requires
            self@.wf(),
            self@.state.last_processed_batch <= endp <= self@.histories.len(),
            h2.len() == self@.histories.len(),
            rates@.len() == endp - self@.state.last_processed_batch,
            forall|j: int|
                0 <= j < h2.len() && !(self@.state.last_processed_batch <= j < endp) ==> (
                #[trigger] h2[j]).withdraw_rate == self@.histories[j].withdraw_rate,
            forall|j: int|
                self@.state.last_processed_batch <= j < endp ==> (#[trigger] h2[j]).withdraw_rate.raw
                    == rates@[j - self@.state.last_processed_batch].raw,
            forall|j: int|
                0 <= j < h2.len() ==> (#[trigger] h2[j]).time == self@.histories[j].time,
        ensures
            spec_finished(self@.wait_list, h2, sender@, ht) <= u128::MAX ==> r == Result::<
                u128,
                HubError,
            >::Ok(spec_finished(self@.wait_list, h2, sender@, ht) as u128),
            spec_finished(self@.wait_list, h2, sender@, ht) > u128::MAX ==> r == Result::<
                u128,
                HubError,
            >::Err(HubError::Arithmetic),
    {
        let ghost wl = self@.wait_list;
        let ghost hists = self@.histories;
        let n = self.histories.len();
        let start: usize = self.state.last_processed_batch as usize;
        proof {
            assert(start as int == self.state.last_processed_batch as int);
        }
        let mut w_total: u128 = 0;
        let wn = self.wait_list.len();
        let mut i: usize = 0;
        proof {
            assert(wl.skip(0) =~= wl);
            lemma_finished_nonneg(wl, h2, sender@, ht);
        }
        while i < wn
            invariant
                self@.wf(),
                hists == self@.histories,
                wl == self@.wait_list,
                n == self.histories.len(),
                wn == self.wait_list.len(),
                start == self.state.last_processed_batch,
                start <= endp <= n,
                0 <= i <= wn,
                h2.len() == n,
                rates@.len() == endp - start,
                forall|j: int|
                    0 <= j < n && !(start <= j < endp) ==> (#[trigger] h2[j]).withdraw_rate
                        == hists[j].withdraw_rate,
                forall|j: int|
                    start <= j < endp ==> (#[trigger] h2[j]).withdraw_rate.raw == rates@[j
                        - start].raw,
                forall|j: int| 0 <= j < n ==> (#[trigger] h2[j]).time == hists[j].time,
                w_total as int + spec_finished(wl.skip(i as int), h2, sender@, ht) == spec_finished(
                    wl,
                    h2,
                    sender@,
                    ht,
                ),
                0 <= w_total,
                w_total as int <= spec_finished(wl, h2, sender@, ht),
            decreases wn - i,
        {
            proof {
                assert(wl.skip(i as int)[0] == wl[i as int]);
                assert(wl.skip(i as int).drop_first() =~= wl.skip(i as int + 1));
                lemma_finished_nonneg(wl.skip(i as int + 1), h2, sender@, ht);
            }
            let e_user_matches = self.wait_list[i].user == *sender;
            let b = self.wait_list[i].batch_id;
            let amount = self.wait_list[i].amount;
            proof {
                assert(1 <= wl[i as int].batch_id);
                assert(b == wl[i as int].batch_id);
            }
            let mut is_matured = false;
            let mut rate = Dec { raw: 0 };
            if b <= n as u64 {
                let bi = (b - 1) as usize;
                proof {
                    assert(bi as int == b - 1);
                }
                if self.histories[bi].time <= ht {
                    is_matured = true;
                    rate = if bi >= start && bi < endp {
                        rates[bi - start]
                    } else {
                        self.histories[bi].withdraw_rate
                    };
                    proof {
                        assert(rate.raw == h2[bi as int].withdraw_rate.raw);
                    }
                }
            }
            proof {
                assert(is_matured == matured(h2, b, ht));
            }
            if e_user_matches && is_matured {
                proof {
                    assert(spec_finished(wl.skip(i as int), h2, sender@, ht) == spec_mul_floor(
                        amount as int,
                        h2[b - 1].withdraw_rate.raw as int,
                    ) + spec_finished(wl.skip(i as int + 1), h2, sender@, ht));
                }
                let term = match mul_amount(amount, rate) {
                    Some(v) => v,
                    None => {
                        return Err(HubError::Arithmetic);
                    },
                };
                if term > u128::MAX - w_total {
                    return Err(HubError::Arithmetic);
                }
                w_total += term;
            } else {
                proof {
                    assert(spec_finished(wl.skip(i as int), h2, sender@, ht) == spec_finished(
                        wl.skip(i as int + 1),
                        h2,
                        sender@,
                        ht,
                    ));
                }
            }
            i += 1;
        }
        proof {
            assert(wl.skip(wn as int) =~= Seq::<WaitEntryV>::empty());
            assert(w_total as int == spec_finished(wl, h2, sender@, ht));
        }
        Ok(w_total)
    }

    /// Settle matured batches against `hub_balance` and pay `sender` their
    /// matured wait-list claims. Returns the single transfer instruction;
    /// with nothing payable, fails with the distinct nothing-withdrawable
    /// condition; on any failure the ledger is unchanged.
    pub fn execute_withdraw_unbonded(&mut self, sender: &String, time: u64, hub_balance: u128) -> (
        r: Result<Vec<Instruction>, HubError>)
        requires
            old(self)@.wf(),
        ensures
            final(self)@.wf(),
            final(self).parameters == old(self).parameters,
            final(self).config == old(self).config,
            final(self).current_batch == old(self).current_batch,
            final(self)@.validators == old(self)@.validators,
            final(self).paused == old(self).paused,
            match spec_withdraw(old(self)@, sender@, time, hub_balance) {
                Ok((st2, hists2, wl2, ins)) => {
                    &&& r is Ok
                    &&& instrs_view(r->Ok_0@) == ins
                    &&& final(self).state == st2
                    &&& final(self)@.histories == hists2
                    &&& final(self)@.wait_list == wl2
                },
                Err(e) => {
                    &&& r == Result::<Vec<Instruction>, HubError>::Err(e)
                    &&& *final(self) == *old(self)
                },
            },
    {
        let ghost hists = self@.histories;
        let ghost wl = self@.wait_list;
        let ht: u64 = if time >= self.parameters.unbonding_period {
            time - self.parameters.unbonding_period
        } else {
            0
        };
        proof {
            assert(ht == spec_ht(time, self.parameters.unbonding_period));
        }
        let n = self.histories.len();
        proof {
            assert(self.state.last_processed_batch <= n);
        }
        let start: usize = self.state.last_processed_batch as usize;
        proof {
            assert(start as int == self.state.last_processed_batch as int);
        }
        let (endp, rates) = match self.settlement_rates(ht, hub_balance) {
            Ok(t) => t,
            Err(e) => {
                return Err(e);
            },
        };
        let ghost h2 = spec_settle_hists(self@, ht, hub_balance)->Ok_0;
        let ghost endg = endp as int;
        let w_total = match self.finished_amount(sender, ht, endp, &rates, Ghost(h2)) {
            Ok(w) => w,
            Err(e) => {
                return Err(e);
            },
        };
        proof {
            assert(spec_settle_hists(old(self)@, ht, hub_balance) is Ok);
            assert(h2 == spec_settle_hists(old(self)@, ht, hub_balance)->Ok_0);
            assert(spec_finished(old(self)@.wait_list, h2, sender@, ht) <= u128::MAX);
            lemma_finished_nonneg(old(self)@.wait_list, h2, sender@, ht);
            assert(w_total as int == spec_finished(old(self)@.wait_list, h2, sender@, ht));
            assert(ht == spec_ht(time, old(self)@.parameters.unbonding_period));
        }
        if w_total == 0 {
            return Err(HubError::NothingWithdrawable);
        }
        if w_total > hub_balance {
            return Err(HubError::Arithmetic);
        }
        // Commit: write the fixed rates, advance the released pointer,
        // remember the balance left behind, drop the paid claims.
        let mut k: usize = 0;
        let m = endp - start;
        while k < m
            invariant
                old(self)@.wf(),
                self.parameters == old(self).parameters,
                self.config == old(self).config,
                self.current_batch == old(self).current_batch,
                self.state == old(self).state,
                self.paused == old(self).paused,
                self@.validators == old(self)@.validators,
                wl == self@.wait_list,
                n == self.histories.len(),
                start == self.state.last_processed_batch,
                start <= endp <= n,
                endg == endp as int,
                m == endp - start,
                0 <= k <= m,
                hists == old(self)@.histories,
                h2.len() == n,
                rates@.len() == m,
                forall|j: int|
                    start <= j < endg ==> #[trigger] h2[j] == (UnbondHistory {
                        withdraw_rate: Dec { raw: rates@[j - start].raw },
                        released: true,
                        ..hists[j]
                    }),
                forall|j: int| 0 <= j < n && !(start <= j < endg) ==> #[trigger] h2[j] == hists[j],
                forall|j: int| 0 <= j < start + k ==> #[trigger] self@.histories[j] == h2[j],
                forall|j: int| start + k <= j < n ==> #[trigger] self@.histories[j] == hists[j],
            decreases m - k,
        {
            let idx = start + k;
            proof {
                assert(self@.histories[idx as int] == hists[idx as int]);
            }
            let old_h = self.histories[idx];
            proof {
                assert(old_h == hists[idx as int]);
            }
            let updated = UnbondHistory {
                batch_id: old_h.batch_id,
                time: old_h.time,
                amount: old_h.amount,
                applied_exchange_rate: old_h.applied_exchange_rate,
                withdraw_rate: Dec { raw: rates[k].raw },
                released: true,
            };
            let ghost prev = self@.histories;
            self.histories.set(idx, updated);
            proof {
                assert(self@.histories =~= prev.update(idx as int, updated));
                assert(forall|j: int|
                    0 <= j < n && j != idx ==> #[trigger] self@.histories[j] == prev[j]);
                assert(updated == h2[idx as int]);
                assert(self@.histories[idx as int] == h2[idx as int]);
            }
            k += 1;
        }
        proof {
            assert(self@.histories =~= h2);
        }
        self.state.prev_hub_balance = hub_balance - w_total;
        self.state.last_processed_batch = endp as u64;
        // Drop the claims that were just paid.
        let ghost keep = |e: WaitEntryV| !(e.user == sender@ && matured(hists, e.batch_id, ht));
        let wn = self.wait_list.len();
        let mut kept: Vec<WaitEntry> = Vec::new();
        let mut i2: usize = 0;
        proof {
            assert(wl.skip(0) =~= wl);
            assert(kept@.map_values(|e: WaitEntry| e@) =~= Seq::<WaitEntryV>::empty());
            assert(keep_entries(wl, keep) =~= kept@.map_values(|e: WaitEntry| e@) + keep_entries(
                wl.skip(0),
                keep,
            ));
        }
        while i2 < wn
            invariant
                old(self)@.wf(),
                wn == wl.len(),
                wl == old(self)@.wait_list,
                wl == self@.wait_list,
                self@.histories == h2,
                n == self.histories.len(),
                h2.len() == n,
                hists.len() == n,
                hists == old(self)@.histories,
                forall|j: int| 0 <= j < n ==> (#[trigger] h2[j]).time == hists[j].time,
                0 <= i2 <= wl.len(),
                keep == (|e: WaitEntryV|
                    !(e.user == sender@ && matured(hists, e.batch_id, ht))),
                keep_entries(wl, keep) == kept@.map_values(|e: WaitEntry| e@) + keep_entries(
                    wl.skip(i2 as int),
                    keep,
                ),
            decreases wl.len() - i2,
        {
            proof {
                assert(wl.skip(i2 as int)[0] == wl[i2 as int]);
                assert(wl.skip(i2 as int).drop_first() =~= wl.skip(i2 as int + 1));
            }
            let e_user_matches = self.wait_list[i2].user == *sender;
            let b = self.wait_list[i2].batch_id;
            proof {
                assert(1 <= wl[i2 as int].batch_id);
                assert(b == wl[i2 as int].batch_id);
            }
            let mut is_matured = false;
            if b <= self.histories.len() as u64 {
                let bi = (b - 1) as usize;
                proof {
                    assert(bi as int == b - 1);
                }
                if self.histories[bi].time <= ht {
                    is_matured = true;
                }
            }
            proof {
                assert(is_matured == matured(hists, b, ht));
            }
            let remove = e_user_matches && is_matured;
            proof {
                assert(remove == !keep(wl[i2 as int]));
            }
            if !remove {
                let ghost kept0 = kept@.map_values(|e: WaitEntry| e@);
                let entry = WaitEntry {
                    batch_id: b,
                    user: self.wait_list[i2].user.clone(),
                    amount: self.wait_list[i2].amount,
                };
                proof {
                    assert(entry@ == wl[i2 as int]);
                }
                kept.push(entry);
                proof {
                    assert(kept@.map_values(|e: WaitEntry| e@) =~= kept0.push(wl[i2 as int]));
                    assert(keep_entries(wl.skip(i2 as int), keep) == seq![wl[i2 as int]]
                        + keep_entries(wl.skip(i2 as int + 1), keep));
                    assert(kept0.push(wl[i2 as int]) + keep_entries(wl.skip(i2 as int + 1), keep)
                        =~= kept0 + keep_entries(wl.skip(i2 as int), keep));
                }
            } else {
                proof {
                    assert(keep_entries(wl.skip(i2 as int), keep) == keep_entries(
                        wl.skip(i2 as int + 1),
                        keep,
                    ));
                }
            }
            i2 += 1;
        }
        proof {
            assert(wl.skip(wl.len() as int) =~= Seq::<WaitEntryV>::empty());
            assert(keep_entries(wl.skip(wl.len() as int), keep) =~= Seq::<WaitEntryV>::empty());
            assert(kept@.map_values(|e: WaitEntry| e@) + keep_entries(
                wl.skip(wl.len() as int),
                keep,
            ) =~= kept@.map_values(|e: WaitEntry| e@));
            assert(kept@.map_values(|e: WaitEntry| e@) == keep_entries(wl, keep));
        }
        self.wait_list = kept;
        proof {
            assert(self@.wait_list == keep_entries(wl, keep));
            lemma_keep_entries(wl, keep);
            assert(wait_keys_unique(self@.wait_list));
            assert(wait_sorted(self@.wait_list));
            assert(wait_in_range(self@.wait_list, self.current_batch.id)) by {
                assert forall|j: int| 0 <= j < self@.wait_list.len() implies 1 <= (
                #[trigger] self@.wait_list[j]).batch_id <= self.current_batch.id by {
                    assert(wl.contains(self@.wait_list[j]));
                    let q = choose|q: int| 0 <= q < wl.len() && wl[q] == self@.wait_list[j];
                    assert(wait_in_range(wl, self.current_batch.id));
                    assert(1 <= wl[q].batch_id <= self.current_batch.id);
                }
            }
            assert forall|j: int| 0 <= j < n implies ((#[trigger] self@.histories[j]).released
                <==> j < self.state.last_processed_batch) by {
                if start <= j < endg {
                    assert(self@.histories[j].released);
                } else {
                    assert(self@.histories[j] == hists[j]);
                }
            }
            assert(forall|j: int|
                0 <= j < n ==> (#[trigger] self@.histories[j]).batch_id == hists[j].batch_id);
            assert(self@.wf());
        }
        let mut out: Vec<Instruction> = Vec::new();
        out.push(Instruction::Send { recipient: sender.clone(), amount: w_total });
        proof {
            assert(instrs_view(out@) =~= seq![
                InstructionV::Send { recipient: sender@, amount: w_total },
            ]);
        }
        Ok(out)
    }
}

/// The invariants of the settled range, bridged from loop-local indices so
/// settlement's failure can be pinned on the first undefined rate.
proof fn settled_err_bridge(
    hists: Seq<UnbondHistory>,
    start: int,
    end: int,
    total: int,
    smag: int,
    neg: bool,
    k: int,
    rates: Seq<Dec>,
)
    requires
        0 <= start <= start + k < end <= hists.len(),
        forall|j: int|
            0 <= j < k ==> (#[trigger] spec_batch_rate(hists[start + j], total, smag, neg)) is Ok,
        spec_batch_rate(hists[start + k], total, smag, neg) is Err,
    ensures
        spec_settled(hists, start, end, total, smag, neg) == Result::<
            Seq<UnbondHistory>,
            HubError,
        >::Err(spec_batch_rate(hists[start + k], total, smag, neg)->Err_0),
{
    assert forall|j2: int|
        start <= j2 < start + k implies (#[trigger] spec_batch_rate(
        hists[j2],
        total,
        smag,
        neg,
    )) is Ok by {
        assert(spec_batch_rate(hists[start + (j2 - start)], total, smag, neg) is Ok);
        assert(start + (j2 - start) == j2);
    }
    lemma_settled_first_err(hists, start, end, total, smag, neg, start + k);
}

/// The settled range's end lies strictly beyond any index whose batch has
/// matured.
pub proof fn lemma_settle_end_bounds(hists: Seq<UnbondHistory>, i: int, ht: u64)
    requires
        0 <= i < hists.len(),
        hists[i].time <= ht,
    ensures
        spec_settle_end(hists, i, ht) > i,
        spec_settle_end(hists, i, ht) == spec_settle_end(hists, i + 1, ht),
    decreases hists.len() - i,
{
    assert(spec_settle_end(hists, i, ht) == spec_settle_end(hists, i + 1, ht));
    if i + 1 < hists.len() && hists[i + 1].time <= ht {
        lemma_settle_end_bounds(hists, i + 1, ht);
    } else {
        assert(spec_settle_end(hists, i + 1, ht) == i + 1);
    }
}

} // verus!
