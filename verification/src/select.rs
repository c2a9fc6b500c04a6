//! Fair-share validator selection for undelegation.
//!
//! Given the delegations actually observed from the staking subsystem and an
//! amount to remove, the selection stably sorts the delegations by size and
//! drains them smallest first, emptying each delegation it touches until the
//! remainder fits inside the next one. The instructions it returns sum to
//! exactly the requested amount and never exceed any single delegation; the
//! requested amount exceeding the total is a fatal precondition violation.

use vstd::prelude::*;
use crate::types::{Delegation, DelegationV, Instruction, InstructionV, instrs_view};

verus! {

/// The views of a list of delegations.
pub open spec fn dels_view(v: Seq<Delegation>) -> Seq<DelegationV> {
    v.map_values(|x: Delegation| x@)
}

/// Insert `d` into the ascending-by-amount sequence `s`, after any elements
/// of equal amount.
pub open spec fn insert_sorted(s: Seq<DelegationV>, d: DelegationV) -> Seq<DelegationV>
    decreases s.len(),
{
    if s.len() == 0 {
        seq![d]
    } else if d.amount < s.last().amount {
        insert_sorted(s.drop_last(), d).push(s.last())
    } else {
        s.push(d)
    }
}

/// Stable sort of delegations, ascending by amount.
pub open spec fn sort_dels(s: Seq<DelegationV>) -> Seq<DelegationV>
    decreases s.len(),
{
    if s.len() == 0 {
        s
    } else {
        insert_sorted(sort_dels(s.drop_last()), s.last())
    }
}

/// Drain `claim` from the delegations in order: take each whole delegation
/// while more is needed, a final partial amount from the last one touched.
pub open spec fn greedy_take(s: Seq<DelegationV>, claim: int) -> Seq<InstructionV>
    decreases s.len(),
{
    if claim <= 0 || s.len() == 0 {
        Seq::empty()
    } else if s[0].amount == 0 {
        greedy_take(s.drop_first(), claim)
    } else if claim <= s[0].amount {
        seq![InstructionV::Undelegate { validator: s[0].validator, amount: claim as u128 }]
    } else {
        seq![
            InstructionV::Undelegate { validator: s[0].validator, amount: s[0].amount },
        ] + greedy_take(s.drop_first(), claim - s[0].amount)
    }
}

/// Sum of the delegated amounts.
pub open spec fn sum_dels(s: Seq<DelegationV>) -> int
    decreases s.len(),
{
    if s.len() == 0 {
        0
    } else {
        s[0].amount + sum_dels(s.drop_first())
    }
}

/// Sum of the amounts of undelegate instructions.
pub open spec fn sum_undel(s: Seq<InstructionV>) -> int
    decreases s.len(),
{
    if s.len() == 0 {
        0
    } else {
        (match s[0] {
            InstructionV::Undelegate { amount, .. } => amount as int,
            _ => 0,
        }) + sum_undel(s.drop_first())
    }
}

/// Sorting by insertion preserves the summed amount.
pub proof fn lemma_insert_sorted_sum(s: Seq<DelegationV>, d: DelegationV)
    ensures
        sum_dels(insert_sorted(s, d)) == sum_dels(s) + d.amount,
        insert_sorted(s, d).len() == s.len() + 1,
    decreases s.len(),
{
    lemma_sum_push(s, d);
    if s.len() == 0 {
        assert(insert_sorted(s, d) =~= seq![d]);
        assert(sum_dels(seq![d].drop_first()) == 0) by {
            assert(seq![d].drop_first() =~= Seq::<DelegationV>::empty());
        }
    } else if d.amount < s.last().amount {
        lemma_insert_sorted_sum(s.drop_last(), d);
        lemma_sum_push(insert_sorted(s.drop_last(), d), s.last());
        lemma_sum_push(s.drop_last(), s.last());
        assert(s.drop_last().push(s.last()) =~= s);
    } else {
    }
}

/// Sum over a pushed element.
pub proof fn lemma_sum_push(s: Seq<DelegationV>, d: DelegationV)
    ensures
        sum_dels(s.push(d)) == sum_dels(s) + d.amount,
    decreases s.len(),
{
    if s.len() == 0 {
        assert(s.push(d)[0] == d);
        assert(s.push(d).drop_first() =~= Seq::<DelegationV>::empty());
        assert(sum_dels(s.push(d)) == s.push(d)[0].amount + sum_dels(s.push(d).drop_first()));
    } else {
        assert(s.push(d)[0] == s[0]);
        assert(s.push(d).drop_first() =~= s.drop_first().push(d));
        lemma_sum_push(s.drop_first(), d);
        assert(sum_dels(s.push(d)) == s.push(d)[0].amount + sum_dels(s.push(d).drop_first()));
    }
}

/// Sorting preserves the summed amount.
pub proof fn lemma_sort_sum(s: Seq<DelegationV>)
    ensures
        sum_dels(sort_dels(s)) == sum_dels(s),
        sort_dels(s).len() == s.len(),
    decreases s.len(),
{
    if s.len() > 0 {
        lemma_sort_sum(s.drop_last());
        lemma_insert_sorted_sum(sort_dels(s.drop_last()), s.last());
        lemma_sum_push(s.drop_last(), s.last());
        assert(s.drop_last().push(s.last()) =~= s);
    }
}

/// The selection law: whenever the claim does not exceed the total
/// delegated amount, the greedy drain returns instructions that sum to
/// exactly the claim, and each instruction takes no more than the matching
/// delegation holds.
pub proof fn lemma_greedy_exact(s: Seq<DelegationV>, claim: int)
    requires
        0 <= claim <= sum_dels(s),
    ensures
        sum_undel(greedy_take(s, claim)) == claim,
        forall|i: int|
            0 <= i < greedy_take(s, claim).len() ==> ((#[trigger] greedy_take(s, claim)[i]) matches
            InstructionV::Undelegate { validator, amount } && exists|j: int|
                0 <= j < s.len() && (#[trigger] s[j]).validator == validator && amount
                    <= s[j].amount),
    decreases s.len(),
{
    let r = greedy_take(s, claim);
    if claim <= 0 || s.len() == 0 {
    } else if s[0].amount == 0 {
        lemma_greedy_exact(s.drop_first(), claim);
        assert forall|i: int| 0 <= i < r.len() implies ((#[trigger] r[i]) matches
        InstructionV::Undelegate { validator, amount } && exists|j: int|
            0 <= j < s.len() && (#[trigger] s[j]).validator == validator && amount
                <= s[j].amount) by {
            let rr = greedy_take(s.drop_first(), claim);
            assert(r[i] == rr[i]);
            let vv = choose|j: int|
                0 <= j < s.drop_first().len() && (#[trigger] s.drop_first()[j]).validator == (match
                rr[i] {
                    InstructionV::Undelegate { validator, .. } => validator,
                    _ => arbitrary(),
                }) && (match rr[i] {
                    InstructionV::Undelegate { amount, .. } => amount as int,
                    _ => 0,
                }) <= s.drop_first()[j].amount;
            assert(s[vv + 1] == s.drop_first()[vv]);
        }
    } else if claim <= s[0].amount {
        let e = InstructionV::Undelegate { validator: s[0].validator, amount: claim as u128 };
        assert(r =~= seq![e]);
        assert(r[0] == e);
        assert(r.drop_first() =~= Seq::<InstructionV>::empty());
        assert(sum_undel(r) == (match r[0] {
            InstructionV::Undelegate { amount, .. } => amount as int,
            _ => 0,
        }) + sum_undel(r.drop_first()));
        assert(sum_undel(r) == claim);
    } else {
        let e = InstructionV::Undelegate { validator: s[0].validator, amount: s[0].amount };
        let rr = greedy_take(s.drop_first(), claim - s[0].amount);
        assert(r =~= seq![e] + rr);
        assert(r[0] == e);
        assert(r.drop_first() =~= rr);
        lemma_greedy_exact(s.drop_first(), claim - s[0].amount);
        assert(sum_undel(r) == (match r[0] {
            InstructionV::Undelegate { amount, .. } => amount as int,
            _ => 0,
        }) + sum_undel(r.drop_first()));
        assert(sum_undel(r) == s[0].amount + sum_undel(rr));
        assert forall|i: int| 0 <= i < r.len() implies ((#[trigger] r[i]) matches
        InstructionV::Undelegate { validator, amount } && exists|j: int|
            0 <= j < s.len() && (#[trigger] s[j]).validator == validator && amount
                <= s[j].amount) by {
            if i == 0 {
                assert(s[0].validator == s[0].validator && s[0].amount <= s[0].amount);
            } else {
                assert(r[i] == rr[i - 1]);
                let vv = choose|j: int|
                    0 <= j < s.drop_first().len() && (#[trigger] s.drop_first()[j]).validator == (
                    match rr[i - 1] {
                        InstructionV::Undelegate { validator, .. } => validator,
                        _ => arbitrary(),
                    }) && (match rr[i - 1] {
                        InstructionV::Undelegate { amount, .. } => amount as int,
                        _ => 0,
                    }) <= s.drop_first()[j].amount;
                assert(s[vv + 1] == s.drop_first()[vv]);
            }
        }
    }
}

/// Insert a delegation into an ascending-by-amount vector, after equals.
fn insert_one(sorted: &mut Vec<Delegation>, d: Delegation)
    ensures
        dels_view(final(sorted)@) == insert_sorted(
            dels_view(old(sorted)@),
            d@,
        ),
{
    let n = sorted.len();
    let mut i: usize = n;
    proof {
        let sv = dels_view(sorted@);
        assert(sv.take(n as int) =~= sv);
        assert(sv.skip(n as int) =~= Seq::<DelegationV>::empty());
        assert(insert_sorted(sv.take(n as int), d@) + sv.skip(n as int) =~= insert_sorted(sv, d@));
    }
    while i > 0 && sorted[i - 1].amount > d.amount
        invariant
            *sorted == *old(sorted),
            n == sorted.len(),
            0 <= i <= n,
            forall|j: int| i <= j < n ==> d@.amount < (#[trigger] sorted@[j]).amount,
            insert_sorted(dels_view(sorted@), d@) == insert_sorted(
                dels_view(sorted@).take(i as int),
                d@,
            ) + dels_view(sorted@).skip(i as int),
        decreases i,
    {
        let ghost sv = dels_view(sorted@);
        proof {
            let pre = sv.take(i as int);
            assert(pre.last() == sv[i as int - 1]);
            assert(sv[i as int - 1].amount == sorted@[i as int - 1].amount);
            assert(d@.amount < pre.last().amount);
            assert(pre.drop_last() =~= sv.take(i as int - 1));
            assert(insert_sorted(pre, d@) == insert_sorted(sv.take(i as int - 1), d@).push(
                sv[i as int - 1],
            ));
            assert(insert_sorted(sv.take(i as int - 1), d@).push(sv[i as int - 1]) + sv.skip(
                i as int,
            ) =~= insert_sorted(sv.take(i as int - 1), d@) + sv.skip(i as int - 1));
        }
        i -= 1;
    }
    proof {
        let sv = dels_view(sorted@);
        if i > 0 {
            let pre = sv.take(i as int);
            assert(pre.last() == sv[i as int - 1]);
            assert(sv[i as int - 1].amount == sorted@[i as int - 1].amount);
            assert(!(d@.amount < pre.last().amount));
            assert(insert_sorted(pre, d@) == pre.push(d@));
        } else {
            assert(sv.take(0) =~= Seq::<DelegationV>::empty());
            assert(insert_sorted(sv.take(0), d@) =~= seq![d@]);
        }
    }
    sorted.insert(i, d);
    proof {
        let ghost old_sv = dels_view(old(sorted)@);
        assert(dels_view(sorted@) =~= insert_sorted(old_sv, d@)) by {
            assert(sorted@ == old(sorted)@.insert(i as int, d));
            assert(forall|j: int|
                0 <= j < sorted@.len() ==> dels_view(sorted@)[j] == (
                #[trigger] sorted@[j])@);
            assert(old_sv.take(i as int).push(d@) + old_sv.skip(i as int) =~= insert_sorted(
                old_sv,
                d@,
            ));
        }
    }
}

/// The undelegate instructions that drain `claim` from `delegations`,
/// smallest delegations first. Fails exactly when `claim` exceeds the total
/// delegated amount.
pub fn pick_undelegations(delegations: &Vec<Delegation>, claim: u128) -> (r: Result<
    Vec<Instruction>,
    (),
>)
    ensures
        ({
            let dels = dels_view(delegations@);
            match r {
                Ok(instrs) => {
                    &&& claim <= sum_dels(dels)
                    &&& instrs_view(instrs@) == greedy_take(sort_dels(dels), claim as int)
                },
                Err(()) => claim > sum_dels(dels),
            }
        }),
{
    let ghost dels = dels_view(delegations@);
    let mut sorted: Vec<Delegation> = Vec::new();
    let n = delegations.len();
    let mut i: usize = 0;
    proof {
        assert(dels.take(0) =~= Seq::<DelegationV>::empty());
        assert(dels_view(sorted@) =~= sort_dels(dels.take(0)));
    }
    while i < n
        invariant
            n == delegations.len(),
            dels == dels_view(delegations@),
            0 <= i <= n,
            dels_view(sorted@) == sort_dels(dels.take(i as int)),
        decreases n - i,
    {
        let d = Delegation {
            validator: delegations[i].validator.clone(),
            amount: delegations[i].amount,
            denom: delegations[i].denom.clone(),
        };
        proof {
            assert(d@ == dels[i as int]);
            assert(dels.take(i as int + 1).drop_last() =~= dels.take(i as int));
            assert(dels.take(i as int + 1).last() == dels[i as int]);
        }
        insert_one(&mut sorted, d);
        i += 1;
    }
    proof {
        assert(dels.take(n as int) =~= dels);
    }
    // Total across all observed delegations, for the precondition check.
    let mut total: u128 = 0;
    let mut k: usize = 0;
    let ghost sortv = dels_view(sorted@);
    proof {
        lemma_sort_sum(dels);
        lemma_sum_nonneg(dels);
        assert(dels.skip(0) =~= dels);
    }
    while k < n
        invariant
            n == delegations.len(),
            dels == dels_view(delegations@),
            sortv == dels_view(sorted@),
            sortv == sort_dels(dels),
            0 <= k <= n,
            total + sum_dels(dels.skip(k as int)) == sum_dels(dels),
            sum_dels(dels.skip(k as int)) >= 0,
        decreases n - k,
    {
        proof {
            assert(dels.skip(k as int)[0] == dels[k as int]);
            assert(dels.skip(k as int).drop_first() =~= dels.skip(k as int + 1));
            lemma_sum_nonneg(dels.skip(k as int + 1));
        }
        let a = delegations[k].amount;
        proof {
            assert(a == dels[k as int].amount);
        }
        if a > u128::MAX - total {
            // A mathematical total beyond `u128::MAX` covers any `u128`
            // claim, so the selection cannot fail.
            proof {
                assert(sum_dels(dels.skip(k as int)) == a + sum_dels(dels.skip(k as int + 1)));
                assert(sum_dels(dels) >= total + a);
                assert(total + a > u128::MAX);
            }
            return finish_pick(sorted, claim, Ghost(dels));
        }
        total += a;
        k += 1;
    }
    proof {
        assert(dels.skip(n as int) =~= Seq::<DelegationV>::empty());
    }
    if claim > total {
        return Err(());
    }
    finish_pick(sorted, claim, Ghost(dels))
}

/// Sums of delegated amounts are non-negative.
pub proof fn lemma_sum_nonneg(s: Seq<DelegationV>)
    ensures
        sum_dels(s) >= 0,
    decreases s.len(),
{
    if s.len() > 0 {
        lemma_sum_nonneg(s.drop_first());
    }
}

/// Walk the sorted delegations, emitting the greedy undelegations.
fn finish_pick(sorted: Vec<Delegation>, claim: u128, Ghost(dels): Ghost<Seq<DelegationV>>) -> (r:
    Result<Vec<Instruction>, ()>)
    requires
        dels_view(sorted@) == sort_dels(dels),
        claim <= sum_dels(dels),
    ensures
        r is Ok,
        instrs_view(r->Ok_0@) == greedy_take(sort_dels(dels), claim as int),
{
    let ghost sv = dels_view(sorted@);
    let mut out: Vec<Instruction> = Vec::new();
    let mut remaining: u128 = claim;
    let n = sorted.len();
    let mut i: usize = 0;
    proof {
        lemma_sort_sum(dels);
        assert(sv.skip(0) =~= sv);
        assert(instrs_view(out@) =~= Seq::<InstructionV>::empty());
        assert(instrs_view(out@) + greedy_take(sv.skip(0), claim as int) =~= greedy_take(
            sv,
            claim as int,
        ));
    }
    while i < n && remaining > 0
        invariant
            n == sorted.len(),
            sv == dels_view(sorted@),
            sv == sort_dels(dels),
            0 <= i <= n,
            remaining <= claim,
            remaining <= sum_dels(sv.skip(i as int)),
            greedy_take(sv, claim as int) == instrs_view(out@) + greedy_take(
                sv.skip(i as int),
                remaining as int,
            ),
        decreases n - i,
    {
        proof {
            assert(sv.skip(i as int)[0] == sv[i as int]);
            assert(sv.skip(i as int).drop_first() =~= sv.skip(i as int + 1));
            lemma_sum_nonneg(sv.skip(i as int + 1));
        }
        let a = sorted[i].amount;
        proof {
            assert(a == sv[i as int].amount);
        }
        if a == 0 {
            i += 1;
            continue ;
        }
        if remaining <= a {
            let instr = Instruction::Undelegate {
                validator: sorted[i].validator.clone(),
                amount: remaining,
            };
            let ghost out0 = out@;
            let ghost e = InstructionV::Undelegate {
                validator: sv[i as int].validator,
                amount: remaining,
            };
            out.push(instr);
            proof {
                assert(instr@ == e);
                assert(out@ == out0.push(instr));
                assert(instrs_view(out@) =~= instrs_view(out0) + seq![e]);
                assert(greedy_take(sv.skip(i as int), remaining as int) =~= seq![e]);
                assert(instrs_view(out@) =~= greedy_take(sv, claim as int));
            }
            return Ok(out);
        }
        let instr = Instruction::Undelegate {
            validator: sorted[i].validator.clone(),
            amount: a,
        };
        let ghost out0 = out@;
        let ghost e = InstructionV::Undelegate { validator: sv[i as int].validator, amount: a };
        out.push(instr);
        proof {
            assert(instr@ == e);
            assert(out@ == out0.push(instr));
            assert(instrs_view(out@) =~= instrs_view(out0) + seq![e]);
            assert(greedy_take(sv.skip(i as int), remaining as int) == seq![e] + greedy_take(
                sv.skip(i as int + 1),
                remaining - a,
            ));
            assert(instrs_view(out@) + greedy_take(sv.skip(i as int + 1), (remaining - a) as int)
                =~= instrs_view(out0) + greedy_take(sv.skip(i as int), remaining as int));
        }
        remaining -= a;
        i += 1;
    }
    proof {
        if remaining > 0 {
            assert(sv.skip(n as int) =~= Seq::<DelegationV>::empty());
            assert(sum_dels(sv.skip(n as int)) == 0);
            assert(false);
        }
        assert(greedy_take(sv.skip(i as int), 0) =~= Seq::<InstructionV>::empty());
        assert(instrs_view(out@) + greedy_take(sv.skip(i as int), remaining as int) =~= instrs_view(
            out@,
        ));
    }
    Ok(out)
}

} // verus!
