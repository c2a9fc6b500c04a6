//! Cross-cutting guarantees of the settlement arithmetic, stated once and
//! proved from the same spec functions the executable contracts use.

use vstd::prelude::*;
use crate::DEC_ONE;
use crate::dec::{spec_ratio_raw, spec_mul_floor};
use crate::types::{UnbondHistory, HubError};
use crate::withdraw::{spec_hist_unbonded, spec_batch_rate};

verus! {

/// Law: when a single matured batch is settled against an available balance
/// smaller than what the batch is owed, the payout rate settlement fixes is
/// exactly `(available - 1) / amount`, and any claim of at most the batch's
/// nominal amount then pays out strictly less than the available balance —
/// the pool can always honour the transfer. (With more than one batch in one
/// settlement, shares of one unit each can round to nothing, so the combined
/// payout can exceed a one-unit balance; the bound here is per settlement of
/// a single batch.)
pub proof fn lemma_settlement_bounded(h: UnbondHistory, avail: int, wait: int)
    requires
        h.amount > 0,
        1 <= avail < spec_hist_unbonded(h),
        0 <= wait <= h.amount,
        spec_ratio_raw(avail - 1, h.amount as int) <= u128::MAX,
    ensures
        spec_batch_rate(h, spec_hist_unbonded(h), spec_hist_unbonded(h) - avail, false)
            == Result::<u128, HubError>::Ok(spec_ratio_raw(avail - 1, h.amount as int) as u128),
        spec_mul_floor(wait, spec_ratio_raw(avail - 1, h.amount as int)) < avail,
{
    let u = spec_hist_unbonded(h);
    let smag = u - avail;
    // The single batch carries the whole weight.
    assert(spec_ratio_raw(u, u) == DEC_ONE as int) by {
        vstd::arithmetic::div_mod::lemma_div_multiples_vanish(DEC_ONE as int, u);
        assert(u * DEC_ONE == DEC_ONE * u) by (nonlinear_arith);
    }
    // Its share of the shortfall is the whole shortfall.
    assert(spec_mul_floor(smag, DEC_ONE as int) == smag) by {
        vstd::arithmetic::div_mod::lemma_div_multiples_vanish(smag, DEC_ONE as int);
        assert(smag * DEC_ONE == DEC_ONE * smag) by (nonlinear_arith);
    }
    assert(u - (smag + 1) == avail - 1);
    // The claim never reaches the available balance.
    let raw = spec_ratio_raw(avail - 1, h.amount as int);
    assert(spec_mul_floor(wait, raw) < avail) by {
        let x = (avail - 1) * DEC_ONE;
        assert((avail - 1) * DEC_ONE >= 0) by (nonlinear_arith)
            requires
                avail >= 1,
        ;
        assert(x >= 0);
        vstd::arithmetic::div_mod::lemma_fundamental_div_mod(x, h.amount as int);
        vstd::arithmetic::div_mod::lemma_mod_bound(x, h.amount as int);
        assert(h.amount * raw <= x) by (nonlinear_arith)
            requires
                x == (h.amount as int) * raw + x % (h.amount as int),
                x % (h.amount as int) >= 0,
        ;
        assert(wait * raw <= h.amount * raw) by (nonlinear_arith)
            requires
                0 <= wait <= h.amount,
                raw >= 0,
        ;
        assert(raw >= 0) by {
            vstd::arithmetic::div_mod::lemma_div_pos_is_pos(x, h.amount as int);
        }
        vstd::arithmetic::div_mod::lemma_div_is_ordered(wait * raw, x, DEC_ONE as int);
        assert(x / (DEC_ONE as int) == avail - 1) by {
            vstd::arithmetic::div_mod::lemma_div_multiples_vanish(avail - 1, DEC_ONE as int);
            assert((avail - 1) * DEC_ONE == DEC_ONE * (avail - 1)) by (nonlinear_arith);
        }
    }
}

} // verus!
