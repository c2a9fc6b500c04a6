//! The ledger: one value holding every persisted entity, together with the
//! wait-list, history and whitelist accessors that the transitions build on.
//!
//! The wait list is a flat list of `(batch, user) -> amount` entries with
//! unique keys; [`wait_lookup`] is its map semantics. Histories are stored
//! ascending, batch `b` at index `b - 1`; the open batch's identifier is
//! always one past the last recorded history.

use vstd::prelude::*;
use crate::types::{
    State, Parameters, ParametersV, Config, ConfigV, CurrentBatch, UnbondHistory, WaitEntry,
    WaitEntryV,
};

verus! {

/// The whole persisted ledger of one hub instance.
#[derive(Debug)]
pub struct Hub {
    pub state: State,
    pub parameters: Parameters,
    pub config: Config,
    pub current_batch: CurrentBatch,
    /// Whitelisted delegation targets, in registration order, no duplicates.
    pub validators: Vec<String>,
    /// Per-user claims inside batches, unique per `(batch, user)`.
    pub wait_list: Vec<WaitEntry>,
    /// Finalized batches, ascending; batch `b` sits at index `b - 1`.
    pub histories: Vec<UnbondHistory>,
    /// Whether mutations are currently refused.
    pub paused: bool,
}

/// View of [`Hub`] over mathematical sequences.
pub struct HubV {
    pub state: State,
    pub parameters: ParametersV,
    pub config: ConfigV,
    pub current_batch: CurrentBatch,
    pub validators: Seq<Seq<char>>,
    pub wait_list: Seq<WaitEntryV>,
    pub histories: Seq<UnbondHistory>,
    pub paused: bool,
}

impl View for Hub {
    type V = HubV;

    open spec fn view(&self) -> HubV {
        HubV {
            state: self.state,
            parameters: self.parameters@,
            config: self.config@,
            current_batch: self.current_batch,
            validators: self.validators@.map_values(|v: String| v@),
            wait_list: self.wait_list@.map_values(|e: WaitEntry| e@),
            histories: self.histories@,
            paused: self.paused,
        }
    }
}

/// The views of a list of strings.
pub open spec fn strings_view(v: Seq<String>) -> Seq<Seq<char>> {
    v.map_values(|s: String| s@)
}

/// The amount held for `(b, u)`: the first matching entry's amount, or zero.
pub open spec fn wait_lookup(s: Seq<WaitEntryV>, b: u64, u: Seq<char>) -> int
    decreases s.len(),
{
    if s.len() == 0 {
        0
    } else if s[0].batch_id == b && s[0].user == u {
        s[0].amount as int
    } else {
        wait_lookup(s.drop_first(), b, u)
    }
}

/// Whether some entry carries the key `(b, u)`.
pub open spec fn has_wait(s: Seq<WaitEntryV>, b: u64, u: Seq<char>) -> bool {
    exists|i: int| 0 <= i < s.len() && s[i].batch_id == b && s[i].user == u
}

/// No two entries share a `(batch, user)` key.
pub open spec fn wait_keys_unique(s: Seq<WaitEntryV>) -> bool {
    forall|i: int, j: int|
        0 <= i < j < s.len() ==> !((#[trigger] s[i]).batch_id == (#[trigger] s[j]).batch_id
            && s[i].user == s[j].user)
}

/// Batch identifiers are non-decreasing along the list.
pub open spec fn wait_sorted(s: Seq<WaitEntryV>) -> bool {
    forall|i: int, j: int|
        0 <= i < j < s.len() ==> (#[trigger] s[i]).batch_id <= (#[trigger] s[j]).batch_id
}

/// Every entry names an existing batch, no later than `id`.
pub open spec fn wait_in_range(s: Seq<WaitEntryV>, id: u64) -> bool {
    forall|i: int| 0 <= i < s.len() ==> 1 <= (#[trigger] s[i]).batch_id <= id
}

/// Whether batch `b` exists and was finalized no later than `t`.
pub open spec fn matured(histories: Seq<UnbondHistory>, b: u64, t: u64) -> bool {
    1 <= b <= histories.len() && histories[b - 1].time <= t
}

/// The entries satisfying `keep`, in order.
pub open spec fn keep_entries(s: Seq<WaitEntryV>, keep: spec_fn(WaitEntryV) -> bool) -> Seq<
    WaitEntryV,
>
    decreases s.len(),
{
    if s.len() == 0 {
        s
    } else if keep(s[0]) {
        seq![s[0]] + keep_entries(s.drop_first(), keep)
    } else {
        keep_entries(s.drop_first(), keep)
    }
}

impl HubV {
    /// Well-formedness of the ledger.
    pub open spec fn wf(self) -> bool {
        &&& self.current_batch.id == self.histories.len() + 1
        &&& forall|i: int|
            0 <= i < self.histories.len() ==> (#[trigger] self.histories[i]).batch_id == i + 1
        &&& self.state.last_processed_batch <= self.histories.len()
        &&& forall|i: int|
            0 <= i < self.histories.len() ==> ((#[trigger] self.histories[i]).released <==> i
                < self.state.last_processed_batch)
        &&& wait_in_range(self.wait_list, self.current_batch.id)
        &&& wait_keys_unique(self.wait_list)
        &&& wait_sorted(self.wait_list)
        &&& forall|i: int, j: int|
            0 <= i < j < self.validators.len() ==> #[trigger] self.validators[i]
                != #[trigger] self.validators[j]
        &&& self.state.actual_unbonded_amount == 0
    }
}

/// With unique keys, the lookup of a key held by the entry at `i` is that
/// entry's amount.
pub proof fn lemma_wait_lookup_at(s: Seq<WaitEntryV>, i: int)
    requires
        0 <= i < s.len(),
        wait_keys_unique(s),
    ensures
        wait_lookup(s, s[i].batch_id, s[i].user) == s[i].amount as int,
    decreases s.len(),
{
    if i == 0 {
    } else {
        assert(!(s[0].batch_id == s[i].batch_id && s[0].user == s[i].user));
        assert(forall|k: int| 0 <= k < s.drop_first().len() ==> #[trigger] s.drop_first()[k] == s[k
            + 1]);
        lemma_wait_lookup_at(s.drop_first(), i - 1);
    }
}

/// A key held by no entry looks up to zero.
pub proof fn lemma_wait_lookup_absent(s: Seq<WaitEntryV>, b: u64, u: Seq<char>)
    requires
        !has_wait(s, b, u),
    ensures
        wait_lookup(s, b, u) == 0,
    decreases s.len(),
{
    if s.len() > 0 {
        assert(!(s[0].batch_id == b && s[0].user == u));
        assert(forall|i: int|
            0 <= i < s.drop_first().len() ==> #[trigger] s.drop_first()[i] == s[i + 1]);
        lemma_wait_lookup_absent(s.drop_first(), b, u);
    }
}

/// Pushing a fresh key leaves every other lookup unchanged and makes the new
/// key look up to the pushed amount.
pub proof fn lemma_wait_lookup_push(s: Seq<WaitEntryV>, e: WaitEntryV)
    requires
        !has_wait(s, e.batch_id, e.user),
    ensures
        wait_lookup(s.push(e), e.batch_id, e.user) == e.amount as int,
        forall|b: u64, u: Seq<char>|
            !(b == e.batch_id && u == e.user) ==> #[trigger] wait_lookup(s.push(e), b, u)
                == wait_lookup(s, b, u),
    decreases s.len(),
{
    if s.len() == 0 {
        assert(s.push(e)[0] == e);
        assert(s.push(e).drop_first() =~= Seq::<WaitEntryV>::empty());
        assert forall|b: u64, u: Seq<char>|
            !(b == e.batch_id && u == e.user) implies #[trigger] wait_lookup(s.push(e), b, u)
            == wait_lookup(s, b, u) by {
            assert(wait_lookup(s.push(e), b, u) == wait_lookup(s.push(e).drop_first(), b, u));
        }
    } else {
        assert(!(s[0].batch_id == e.batch_id && s[0].user == e.user)) by {
            if s[0].batch_id == e.batch_id && s[0].user == e.user {
                assert(has_wait(s, e.batch_id, e.user));
            }
        }
        assert(!has_wait(s.drop_first(), e.batch_id, e.user)) by {
            if has_wait(s.drop_first(), e.batch_id, e.user) {
                let i = choose|i: int|
                    0 <= i < s.drop_first().len() && s.drop_first()[i].batch_id == e.batch_id
                        && s.drop_first()[i].user == e.user;
                assert(s[i + 1] == s.drop_first()[i]);
                assert(has_wait(s, e.batch_id, e.user));
            }
        }
        lemma_wait_lookup_push(s.drop_first(), e);
        assert(s.push(e).drop_first() =~= s.drop_first().push(e));
        assert(s.push(e)[0] == s[0]);
        assert(wait_lookup(s.push(e), e.batch_id, e.user) == e.amount as int) by {
            assert(wait_lookup(s.push(e), e.batch_id, e.user) == wait_lookup(
                s.push(e).drop_first(),
                e.batch_id,
                e.user,
            ));
            assert(wait_lookup(s.drop_first().push(e), e.batch_id, e.user) == e.amount as int);
        }
        assert forall|b: u64, u: Seq<char>|
            !(b == e.batch_id && u == e.user) implies #[trigger] wait_lookup(s.push(e), b, u)
            == wait_lookup(s, b, u) by {
            if s[0].batch_id == b && s[0].user == u {
                assert(wait_lookup(s.push(e), b, u) == s[0].amount as int);
                assert(wait_lookup(s, b, u) == s[0].amount as int);
            } else {
                assert(wait_lookup(s.push(e), b, u) == wait_lookup(s.push(e).drop_first(), b, u));
                assert(wait_lookup(s.drop_first().push(e), b, u) == wait_lookup(
                    s.drop_first(),
                    b,
                    u,
                ));
                assert(wait_lookup(s, b, u) == wait_lookup(s.drop_first(), b, u));
            }
        }
    }
}

/// Updating the amount of the entry at `i`, whose key occurs nowhere else,
/// changes only that key's lookup.
pub proof fn lemma_wait_lookup_update(s: Seq<WaitEntryV>, i: int, a2: u128)
    requires
        0 <= i < s.len(),
        wait_keys_unique(s),
    ensures
        ({
            let s2 = s.update(i, WaitEntryV { amount: a2, ..s[i] });
            &&& wait_lookup(s2, s[i].batch_id, s[i].user) == a2 as int
            &&& forall|b: u64, u: Seq<char>|
                !(b == s[i].batch_id && u == s[i].user) ==> #[trigger] wait_lookup(s2, b, u)
                    == wait_lookup(s, b, u)
        }),
    decreases s.len(),
{
    let s2 = s.update(i, WaitEntryV { amount: a2, ..s[i] });
    if i == 0 {
        assert(s2[0].batch_id == s[0].batch_id && s2[0].user == s[0].user && s2[0].amount == a2);
        assert(s2.drop_first() =~= s.drop_first());
        assert forall|b: u64, u: Seq<char>|
            !(b == s[0].batch_id && u == s[0].user) implies #[trigger] wait_lookup(s2, b, u)
            == wait_lookup(s, b, u) by {
            assert(wait_lookup(s2, b, u) == wait_lookup(s2.drop_first(), b, u));
            assert(wait_lookup(s, b, u) == wait_lookup(s.drop_first(), b, u));
        }
    } else {
        assert(s2[0] == s[0]);
        assert(!(s[0].batch_id == s[i].batch_id && s[0].user == s[i].user));
        let d2 = s.drop_first().update(i - 1, WaitEntryV { amount: a2, ..s[i] });
        assert(s2.drop_first() =~= d2);
        assert(forall|k: int| 0 <= k < s.drop_first().len() ==> #[trigger] s.drop_first()[k] == s[k
            + 1]);
        assert(wait_keys_unique(s.drop_first()));
        assert(s.drop_first()[i - 1] == s[i]);
        lemma_wait_lookup_update(s.drop_first(), i - 1, a2);
        assert(wait_lookup(s2, s[i].batch_id, s[i].user) == a2 as int) by {
            assert(wait_lookup(s2, s[i].batch_id, s[i].user) == wait_lookup(
                s2.drop_first(),
                s[i].batch_id,
                s[i].user,
            ));
            assert(wait_lookup(d2, s[i].batch_id, s[i].user) == a2 as int);
        }
        assert forall|b: u64, u: Seq<char>|
            !(b == s[i].batch_id && u == s[i].user) implies #[trigger] wait_lookup(s2, b, u)
            == wait_lookup(s, b, u) by {
            if s[0].batch_id == b && s[0].user == u {
                assert(wait_lookup(s2, b, u) == s2[0].amount as int);
                assert(wait_lookup(s, b, u) == s[0].amount as int);
            } else {
                assert(wait_lookup(s2, b, u) == wait_lookup(s2.drop_first(), b, u));
                assert(wait_lookup(d2, b, u) == wait_lookup(s.drop_first(), b, u));
                assert(wait_lookup(s, b, u) == wait_lookup(s.drop_first(), b, u));
            }
        }
    }
}

/// What filtering with a key-based predicate does: kept keys look up
/// unchanged, dropped keys look up to zero, and every structural property of
/// the list survives because the result is an ordered sublist.
#[verifier::rlimit(60)]
pub proof fn lemma_keep_entries(s: Seq<WaitEntryV>, keep: spec_fn(WaitEntryV) -> bool)
    requires
        forall|e1: WaitEntryV, e2: WaitEntryV|
            e1.batch_id == e2.batch_id && e1.user == e2.user ==> (#[trigger] keep(e1)
                == #[trigger] keep(e2)),
    ensures
        forall|b: u64, u: Seq<char>|
            keep(WaitEntryV { batch_id: b, user: u, amount: 0 }) ==> #[trigger] wait_lookup(
                keep_entries(s, keep),
                b,
                u,
            ) == wait_lookup(s, b, u),
        forall|b: u64, u: Seq<char>|
            !keep(WaitEntryV { batch_id: b, user: u, amount: 0 }) ==> #[trigger] wait_lookup(
                keep_entries(s, keep),
                b,
                u,
            ) == 0,
        wait_keys_unique(s) ==> wait_keys_unique(keep_entries(s, keep)),
        wait_sorted(s) ==> wait_sorted(keep_entries(s, keep)),
        forall|i: int| 0 <= i < keep_entries(s, keep).len() ==> s.contains(
            #[trigger] keep_entries(s, keep)[i],
        ),
    decreases s.len(),
{
    let r = keep_entries(s, keep);
    if s.len() == 0 {
    } else {
        let first = s[0];
        let rest = s.drop_first();
        let rr = keep_entries(rest, keep);
        lemma_keep_entries(rest, keep);
        assert(forall|k: int| 0 <= k < rest.len() ==> #[trigger] rest[k] == s[k + 1]);
        assert forall|i: int| 0 <= i < rr.len() implies s.contains(#[trigger] rr[i]) by {
            assert(rest.contains(rr[i]));
            let k = choose|k: int| 0 <= k < rest.len() && rest[k] == rr[i];
            assert(s[k + 1] == rr[i]);
        }
        if keep(first) {
            assert(r =~= seq![first] + rr);
            assert(r[0] == first);
            assert(r.drop_first() =~= rr);
            assert(s.contains(r[0])) by {
                assert(s[0] == first);
            }
            assert forall|b: u64, u: Seq<char>|
                keep(WaitEntryV { batch_id: b, user: u, amount: 0 }) implies #[trigger] wait_lookup(
                r,
                b,
                u,
            ) == wait_lookup(s, b, u) by {
                if first.batch_id == b && first.user == u {
                    assert(wait_lookup(r, b, u) == r[0].amount as int);
                    assert(wait_lookup(s, b, u) == s[0].amount as int);
                } else {
                    assert(wait_lookup(r, b, u) == wait_lookup(r.drop_first(), b, u));
                    assert(wait_lookup(rr, b, u) == wait_lookup(rest, b, u));
                    assert(wait_lookup(s, b, u) == wait_lookup(rest, b, u));
                }
            }
            assert forall|b: u64, u: Seq<char>|
                !keep(WaitEntryV { batch_id: b, user: u, amount: 0 }) implies #[trigger]
            wait_lookup(r, b, u) == 0 by {
                if first.batch_id == b && first.user == u {
                    assert(keep(first) == keep(WaitEntryV { batch_id: b, user: u, amount: 0 }));
                } else {
                    assert(wait_lookup(r, b, u) == wait_lookup(r.drop_first(), b, u));
                    assert(wait_lookup(rr, b, u) == 0);
                }
            }
            if wait_keys_unique(s) {
                assert(wait_keys_unique(rest));
                assert forall|i: int, j: int| 0 <= i < j < r.len() implies !((
                #[trigger] r[i]).batch_id == (#[trigger] r[j]).batch_id && r[i].user
                    == r[j].user) by {
                    if i == 0 {
                        assert(r[j] == rr[j - 1]);
                        assert(rest.contains(rr[j - 1]));
                        let k = choose|k: int| 0 <= k < rest.len() && rest[k] == rr[j - 1];
                        assert(r[0] == s[0] && r[j] == s[k + 1]);
                        assert(!((s[0]).batch_id == (s[k + 1]).batch_id && s[0].user == s[k
                            + 1].user));
                    } else {
                        assert(r[i] == rr[i - 1] && r[j] == rr[j - 1]);
                        assert(wait_keys_unique(rr));
                    }
                }
            }
            if wait_sorted(s) {
                assert(wait_sorted(rest));
                assert forall|i: int, j: int| 0 <= i < j < r.len() implies (
                #[trigger] r[i]).batch_id <= (#[trigger] r[j]).batch_id by {
                    if i == 0 {
                        assert(r[j] == rr[j - 1]);
                        assert(rest.contains(rr[j - 1]));
                        let k = choose|k: int| 0 <= k < rest.len() && rest[k] == rr[j - 1];
                        assert(r[0] == s[0] && r[j] == s[k + 1]);
                        assert((s[0]).batch_id <= (s[k + 1]).batch_id);
                    } else {
                        assert(r[i] == rr[i - 1] && r[j] == rr[j - 1]);
                        assert(wait_sorted(rr));
                    }
                }
            }
            assert forall|i: int| 0 <= i < r.len() implies s.contains(#[trigger] r[i]) by {
                if i == 0 {
                    assert(r[0] == s[0]);
                } else {
                    assert(r[i] == rr[i - 1]);
                    assert(rest.contains(rr[i - 1]));
                    let k = choose|k: int| 0 <= k < rest.len() && rest[k] == rr[i - 1];
                    assert(s[k + 1] == rr[i - 1]);
                }
            }
        } else {
            assert(r =~= rr);
            assert forall|b: u64, u: Seq<char>|
                keep(WaitEntryV { batch_id: b, user: u, amount: 0 }) implies #[trigger] wait_lookup(
                r,
                b,
                u,
            ) == wait_lookup(s, b, u) by {
                if first.batch_id == b && first.user == u {
                    assert(keep(first) == keep(WaitEntryV { batch_id: b, user: u, amount: 0 }));
                } else {
                    assert(wait_lookup(rr, b, u) == wait_lookup(rest, b, u));
                    assert(wait_lookup(s, b, u) == wait_lookup(rest, b, u));
                }
            }
            assert forall|b: u64, u: Seq<char>|
                !keep(WaitEntryV { batch_id: b, user: u, amount: 0 }) implies #[trigger]
            wait_lookup(r, b, u) == 0 by {
                assert(wait_lookup(rr, b, u) == 0);
            }
            if wait_keys_unique(s) {
                assert(wait_keys_unique(rest));
                assert(wait_keys_unique(r)) by {
                    assert(wait_keys_unique(rr));
                }
            }
            if wait_sorted(s) {
                assert(wait_sorted(rest));
                assert(wait_sorted(r)) by {
                    assert(wait_sorted(rr));
                }
            }
            assert forall|i: int| 0 <= i < r.len() implies s.contains(#[trigger] r[i]) by {
                assert(rest.contains(rr[i]));
                let k = choose|k: int| 0 <= k < rest.len() && rest[k] == rr[i];
                assert(s[k + 1] == rr[i]);
            }
        }
    }
}

impl Hub {
    /// The amount waiting for `(batch_id, user)`, zero when absent.
    pub fn read_wait_amount(&self, batch_id: u64, user: &String) -> (r: u128)
        ensures
            r as int == wait_lookup(self@.wait_list, batch_id, user@),
    {
        let n = self.wait_list.len();
        let mut i: usize = 0;
        proof {
            assert(self@.wait_list.skip(0) =~= self@.wait_list);
        }
        while i < n
            invariant
                n == self.wait_list.len(),
                0 <= i <= n,
                wait_lookup(self@.wait_list, batch_id, user@) == wait_lookup(
                    self@.wait_list.skip(i as int),
                    batch_id,
                    user@,
                ),
            decreases n - i,
        {
            let e = &self.wait_list[i];
            proof {
                assert(self@.wait_list.skip(i as int)[0] == self@.wait_list[i as int]);
                assert(self@.wait_list.skip(i as int).drop_first() =~= self@.wait_list.skip(
                    i as int + 1,
                ));
            }
            if e.batch_id == batch_id && e.user == *user {
                return e.amount;
            }
            i += 1;
        }
        proof {
            assert(self@.wait_list.skip(n as int) =~= Seq::<WaitEntryV>::empty());
        }
        0
    }

    /// Record `amount` more for `(batch_id, user)`: accumulate into the
    /// existing entry or append a fresh one. Fails only on overflow of the
    /// entry's amount.
    pub fn record_wait_amount(&mut self, batch_id: u64, user: &String, amount: u128) -> (r: Result<
        (),
        (),
    >)
        requires
            old(self)@.wf(),
            old(self)@.current_batch.id == batch_id,
        ensures
            final(self)@.wf(),
            match r {
                Ok(()) => {
                    &&& wait_lookup(final(self)@.wait_list, batch_id, user@) == wait_lookup(
                        old(self)@.wait_list,
                        batch_id,
                        user@,
                    ) + amount
                    &&& forall|b: u64, u: Seq<char>|
                        !(b == batch_id && u == user@) ==> #[trigger] wait_lookup(
                            final(self)@.wait_list,
                            b,
                            u,
                        ) == wait_lookup(old(self)@.wait_list, b, u)
                    &&& wait_lookup(old(self)@.wait_list, batch_id, user@) + amount <= u128::MAX
                },
                Err(()) => {
                    &&& *final(self) == *old(self)
                    &&& wait_lookup(old(self)@.wait_list, batch_id, user@) + amount > u128::MAX
                },
            },
            final(self).state == old(self).state,
            final(self).parameters == old(self).parameters,
            final(self).config == old(self).config,
            final(self).current_batch == old(self).current_batch,
            final(self)@.validators == old(self)@.validators,
            final(self)@.histories == old(self)@.histories,
            final(self).paused == old(self).paused,
    {
        let ghost s0 = self@.wait_list;
        let n = self.wait_list.len();
        let mut i: usize = 0;
        while i < n
            invariant
                *self == *old(self),
                s0 == self@.wait_list,
                n == self.wait_list.len(),
                n == s0.len(),
                old(self)@.wf(),
                old(self)@.current_batch.id == batch_id,
                0 <= i <= n,
                forall|j: int|
                    0 <= j < i ==> !((#[trigger] s0[j]).batch_id == batch_id && s0[j].user
                        == user@),
            decreases n - i,
        {
            let matches_key = self.wait_list[i].batch_id == batch_id && self.wait_list[i].user
                == *user;
            if matches_key {
                proof {
                    assert(s0[i as int].batch_id == batch_id && s0[i as int].user == user@);
                    assert(wait_keys_unique(s0));
                    lemma_wait_lookup_at(s0, i as int);
                }
                let prev = self.wait_list[i].amount;
                if prev > u128::MAX - amount {
                    return Err(());
                }
                let updated = WaitEntry {
                    batch_id,
                    user: self.wait_list[i].user.clone(),
                    amount: prev + amount,
                };
                self.wait_list.set(i, updated);
                proof {
                    let s2 = self@.wait_list;
                    assert(s2 =~= s0.update(
                        i as int,
                        WaitEntryV { amount: (prev + amount) as u128, ..s0[i as int] },
                    ));
                    lemma_wait_lookup_update(s0, i as int, (prev + amount) as u128);
                    assert forall|j: int| 0 <= j < s2.len() implies ((#[trigger] s2[j]).batch_id
                        == s0[j].batch_id && s2[j].user == s0[j].user) by {}
                    assert(wait_keys_unique(s2));
                    assert(wait_sorted(s2));
                    assert(wait_in_range(s2, batch_id));
                    assert(self.validators@ == old(self).validators@);
                    assert(self@.validators == old(self)@.validators);
                    assert(self@.histories == old(self)@.histories);
                    assert(self@.wf());
                }
                return Ok(());
            }
            i += 1;
        }
        proof {
            assert(!has_wait(s0, batch_id, user@)) by {
                if has_wait(s0, batch_id, user@) {
                    let j = choose|j: int|
                        0 <= j < s0.len() && s0[j].batch_id == batch_id && s0[j].user == user@;
                    assert(!((s0[j]).batch_id == batch_id && s0[j].user == user@));
                }
            }
            lemma_wait_lookup_absent(s0, batch_id, user@);
        }
        let fresh = WaitEntry { batch_id, user: user.clone(), amount };
        self.wait_list.push(fresh);
        proof {
            let e = WaitEntryV { batch_id, user: user@, amount };
            let s2 = self@.wait_list;
            assert(s2 =~= s0.push(e));
            lemma_wait_lookup_push(s0, e);
            assert(forall|j: int| 0 <= j < s0.len() ==> #[trigger] s2[j] == s0[j]);
            assert(s2[s0.len() as int] == e);
            assert(wait_keys_unique(s2)) by {
                assert forall|k: int, j: int| 0 <= k < j < s2.len() implies !((
                #[trigger] s2[k]).batch_id == (#[trigger] s2[j]).batch_id && s2[k].user
                    == s2[j].user) by {
                    if j < s0.len() {
                        assert(wait_keys_unique(s0));
                    } else {
                        assert(s2[j] == e);
                        assert(s2[k] == s0[k]);
                        assert(!((s0[k]).batch_id == batch_id && s0[k].user == user@));
                    }
                }
            }
            assert(wait_sorted(s2)) by {
                assert forall|k: int, j: int| 0 <= k < j < s2.len() implies (
                #[trigger] s2[k]).batch_id <= (#[trigger] s2[j]).batch_id by {
                    if j < s0.len() {
                        assert(wait_sorted(s0));
                    } else {
                        assert(s2[j] == e);
                        assert(wait_in_range(s0, batch_id));
                        assert(1 <= s0[k].batch_id <= batch_id);
                    }
                }
            }
            assert(wait_in_range(s2, batch_id)) by {
                assert forall|k: int| 0 <= k < s2.len() implies 1 <= (#[trigger] s2[k]).batch_id
                    <= batch_id by {
                    if k < s0.len() {
                        assert(wait_in_range(s0, batch_id));
                        assert(1 <= s0[k].batch_id <= batch_id);
                    } else {
                        assert(s2[k] == e);
                    }
                }
            }
                    assert(self.validators@ == old(self).validators@);
                    assert(self@.validators == old(self)@.validators);
                    assert(self@.histories == old(self)@.histories);
            assert(self@.wf());
        }
        Ok(())
    }

    /// Whether `validator` is whitelisted.
    pub fn has_validator(&self, validator: &String) -> (r: bool)
        ensures
            r == self@.validators.contains(validator@),
    {
        let n = self.validators.len();
        let mut i: usize = 0;
        while i < n
            invariant
                n == self.validators.len(),
                0 <= i <= n,
                forall|j: int| 0 <= j < i ==> #[trigger] self@.validators[j] != validator@,
            decreases n - i,
        {
            if self.validators[i] == *validator {
                proof {
                    assert(self@.validators[i as int] == validator@);
                }
                return true;
            }
            i += 1;
        }
        proof {
            if self@.validators.contains(validator@) {
                let j = choose|j: int|
                    0 <= j < self@.validators.len() && self@.validators[j] == validator@;
                assert(false);
            }
        }
        false
    }
}

} // verus!
