use vstd::prelude::*;
use vstd::laws_eq::{obeys_eq, obeys_eq_spec_properties};
use vstd::std_specs::cmp::PartialEqSpec;
use vstd::rwlock::{RwLock, RwLockPredicate};

use crate::types::{Call, Denied, Layer, Outcome};

verus! {

/// What charging `quantity` units against a key that has used `used` of
/// `limit` units leaves it at: the saturating sum, unless that sum exceeds
/// the limit or a positive quantity meets an exhausted allowance.
pub open spec fn charge_spec(used: u64, quantity: u64, limit: u64) -> Option<u64> {
    let updated: u64 = if used + quantity > u64::MAX { u64::MAX } else { (used + quantity) as u64 };
    if updated > limit || (quantity != 0 && used == limit) {
        None
    } else {
        Some(updated)
    }
}

/// Charges `quantity` units against a key that has used `used` of `limit`
/// units, returning the new usage or `None` when the charge is refused.
pub fn charge(used: u64, quantity: u64, limit: u64) -> (updated: Option<u64>)
    ensures
        updated == charge_spec(used, quantity, limit),
{
    let updated = used.saturating_add(quantity);
    if updated > limit || (quantity != 0 && used == limit) {
        None
    } else {
        Some(updated)
    }
}

/// A charge against a key within its allowance leaves it within its
/// allowance, grown by the quantity charged (saturating at `u64::MAX`); while
/// the sum does not overflow, a charge is refused exactly when it would take
/// the key past its limit; a zero quantity is always accepted and changes
/// nothing.
pub proof fn charge_stays_within_limit(used: u64, quantity: u64, limit: u64)
    requires
        used <= limit,
    ensures
        charge_spec(used, quantity, limit) matches Some(updated) ==> {
            &&& updated <= limit
            &&& updated == (if used + quantity > u64::MAX { u64::MAX as int } else { used + quantity })
        },
        used + quantity <= u64::MAX ==> (charge_spec(used, quantity, limit).is_none() <==> used + quantity > limit),
        quantity == 0 ==> charge_spec(used, quantity, limit) == Some(used),
{
}

/// Charging a key `first` and then `second` units succeeds exactly when the
/// sum fits its allowance, and leaves the same usage as charging the sum at
/// once.
pub proof fn charges_compose(used: u64, first: u64, second: u64, limit: u64)
    requires
        used <= limit,
        used + first + second <= u64::MAX,
        charge_spec(used, first, limit).is_some(),
    ensures
        charge_spec(charge_spec(used, first, limit).unwrap(), second, limit)
            == charge_spec(used, (first + second) as u64, limit),
{
}

/// Whether a budget with `limit` units per key may answer `allowed` to a call
/// for which its selector picked `picked`: a call that consumes nothing is
/// allowed, and one that consumes `quantity` units of a key is allowed exactly
/// when the charge against that key's usage, which is within the limit,
/// succeeds.
pub open spec fn admits<K>(picked: Option<(K, u64)>, limit: u64, allowed: bool) -> bool {
    match picked {
        None => allowed,
        Some((_, quantity)) => exists|used: u64| {
            &&& used <= limit
            &&& (allowed <==> #[trigger] charge_spec(used, quantity, limit).is_some())
        },
    }
}

/// Every usage counter held by a budget stays within its limit.
struct UsageBound {
    limit: u64,
}

impl<K> RwLockPredicate<Vec<(K, u64)>> for UsageBound {
    closed spec fn inv(self, usage: Vec<(K, u64)>) -> bool {
        forall|i: int| 0 <= i < usage@.len() ==> #[trigger] usage@[i].1 <= self.limit
    }
}

/// A layer that shares a fixed allowance for each selected key.
///
/// Use this layer for process-wide quotas that must span every store using the
/// same chain. The selector returns a key and quantity for calls that consume
/// the allowance, or `None` for calls that do not.
#[verifier::reject_recursive_types(K)]
#[verifier::reject_recursive_types(F)]
pub struct Budget<K, F: Fn(&Call<'_>) -> Option<(K, u64)>> {
    limit: u64,
    used: RwLock<Vec<(K, u64)>, UsageBound>,
    selector: F,
}

impl<K, F: Fn(&Call<'_>) -> Option<(K, u64)>> Budget<K, F> {
    #[verifier::type_invariant]
    spec fn well_formed(self) -> bool {
        &&& self.used.pred() == UsageBound { limit: self.limit }
        &&& forall|call: &Call<'_>| #[trigger] call_requires(self.selector, (call,))
    }

    /// The number of units available to each key.
    pub closed spec fn limit_view(&self) -> u64 {
        self.limit
    }

    /// The function that picks the key and quantity of a call.
    pub closed spec fn selector_view(&self) -> F {
        self.selector
    }

    /// Creates a budget with `limit` units available independently per key.
    pub fn new(limit: u64, selector: F) -> (budget: Budget<K, F>)
        requires
            forall|call: &Call<'_>| #[trigger] call_requires(selector, (call,)),
        ensures
            budget.limit_view() == limit,
            budget.selector_view() == selector,
    {
        let empty: Vec<(K, u64)> = Vec::new();
        let used = RwLock::new(empty, Ghost(UsageBound { limit }));
        Budget { limit, used, selector }
    }

    /// Returns the number of units available to each key.
    pub fn limit(&self) -> (limit: u64)
        ensures
            limit == self.limit_view(),
    {
        self.limit
    }
}

/// The position of the first entry whose key equals `key` by the key type's
/// `==`, or `None` when no entry's key does.
fn position_of<K: PartialEq>(usage: &Vec<(K, u64)>, key: &K) -> (found: Option<usize>)
    ensures
        match found {
            Some(i) => {
                &&& i < usage@.len()
                &&& K::obeys_eq_spec() ==> usage@[i as int].0.eq_spec(key)
                &&& K::obeys_eq_spec() ==> forall|j: int| 0 <= j < i ==> !(#[trigger] usage@[j]).0.eq_spec(key)
            },
            None => K::obeys_eq_spec() ==> forall|j: int| 0 <= j < usage@.len() ==> !(#[trigger] usage@[j]).0.eq_spec(key),
        },
{
    let mut i: usize = 0;
    while i < usage.len()
        invariant
            i <= usage@.len(),
            K::obeys_eq_spec() ==> forall|j: int| 0 <= j < i ==> !(#[trigger] usage@[j]).0.eq_spec(key),
        decreases usage@.len() - i,
    {
        if usage[i].0 == *key {
            return Some(i);
        }
        i = i + 1;
    }
    None
}

/// Whether the entry at `index` is the first in `usage` whose key equals
/// `key` by the key type's `==`.
pub open spec fn first_entry<K: PartialEq>(usage: Seq<(K, u64)>, key: K, index: int) -> bool {
    &&& 0 <= index < usage.len()
    &&& usage[index].0.eq_spec(&key)
    &&& forall|j: int| 0 <= j < index ==> !(#[trigger] usage[j]).0.eq_spec(&key)
}

/// The usage recorded for `key`: that of the first entry whose key equals
/// it, or none when no entry's key does.
pub open spec fn usage_of<K: PartialEq>(usage: Seq<(K, u64)>, key: K) -> u64 {
    if exists|i: int| first_entry(usage, key, i) {
        usage[choose|i: int| first_entry(usage, key, i)].1
    } else {
        0
    }
}

proof fn lemma_first_entry_unique<K: PartialEq>(usage: Seq<(K, u64)>, key: K, i: int, j: int)
    requires
        first_entry(usage, key, i),
        first_entry(usage, key, j),
    ensures
        i == j,
{
    if i < j {
        assert(!usage[i].0.eq_spec(&key));
    } else if j < i {
        assert(!usage[j].0.eq_spec(&key));
    }
}

proof fn lemma_usage_at<K: PartialEq>(usage: Seq<(K, u64)>, key: K, i: int)
    requires
        first_entry(usage, key, i),
    ensures
        usage_of(usage, key) == usage[i].1,
{
    let c = choose|c: int| first_entry(usage, key, c);
    lemma_first_entry_unique(usage, key, i, c);
}

proof fn lemma_no_entry<K: PartialEq>(usage: Seq<(K, u64)>, key: K)
    requires
        forall|j: int| 0 <= j < usage.len() ==> !(#[trigger] usage[j]).0.eq_spec(&key),
    ensures
        usage_of(usage, key) == 0,
{
}

proof fn lemma_first_entry_exists<K: PartialEq>(usage: Seq<(K, u64)>, key: K, i: int)
    requires
        0 <= i < usage.len(),
        usage[i].0.eq_spec(&key),
    ensures
        exists|f: int| f <= i && first_entry(usage, key, f),
    decreases i,
{
    if exists|j: int| 0 <= j < i && usage[j].0.eq_spec(&key) {
        let j = choose|j: int| 0 <= j < i && usage[j].0.eq_spec(&key);
        lemma_first_entry_exists(usage, key, j);
    } else {
        assert(first_entry(usage, key, i));
    }
}

/// How a charge of `quantity` units against `key` moves a budget's usage
/// from `before` to `after`: the key's recorded usage is charged, the charge
/// is accepted exactly when it fits, an accepted charge sets that key's
/// usage to the charged amount, and every other key keeps its usage.
pub open spec fn charged<K: PartialEq>(before: Seq<(K, u64)>, after: Seq<(K, u64)>, key: K, quantity: u64, limit: u64, allowed: bool) -> bool {
    &&& allowed == charge_spec(usage_of(before, key), quantity, limit).is_some()
    &&& forall|other: K| #[trigger] usage_of(after, other) == (if allowed && other.eq_spec(&key) {
        charge_spec(usage_of(before, key), quantity, limit)->Some_0
    } else {
        usage_of(before, other)
    })
}

/// Whether a charge moved a budget's usage from `before` to `after` as
/// [`charged`] says, for every key type whose `==` is an equivalence that
/// its specification describes.
pub open spec fn charge_recorded<K: PartialEq>(before: Seq<(K, u64)>, after: Seq<(K, u64)>, key: K, quantity: u64, limit: u64, allowed: bool) -> bool {
    obeys_eq::<K>() ==> charged(before, after, key, quantity, limit, allowed)
}

/// Charges `quantity` units against `key` in `usage`, within `limit`,
/// returning whether the charge was accepted. A refused charge leaves the
/// usage as it was.
fn charge_usage<K: PartialEq>(usage: &mut Vec<(K, u64)>, key: K, quantity: u64, limit: u64) -> (allowed: bool)
    requires
        forall|i: int| 0 <= i < old(usage)@.len() ==> #[trigger] old(usage)@[i].1 <= limit,
    ensures
        forall|i: int| 0 <= i < final(usage)@.len() ==> #[trigger] final(usage)@[i].1 <= limit,
        !allowed ==> final(usage)@ == old(usage)@,
        exists|used: u64| used <= limit && allowed == charge_spec(used, quantity, limit).is_some(),
        obeys_eq::<K>() ==> charged(old(usage)@, final(usage)@, key, quantity, limit, allowed),
{
    let ghost before = usage@;
    let found = position_of(usage, &key);
    let used: u64 = match found {
        Some(i) => usage[i].1,
        None => 0,
    };
    proof {
        if K::obeys_eq_spec() {
            match found {
                Some(i) => lemma_usage_at(before, key, i as int),
                None => lemma_no_entry(before, key),
            }
        }
    }
    match charge(used, quantity, limit) {
        Some(updated) => {
            let ghost entry = (key, updated);
            match found {
                Some(i) => {
                    usage.set(i, (key, updated));
                },
                None => {
                    usage.push((key, updated));
                },
            }
            proof {
                if obeys_eq::<K>() {
                    reveal(obeys_eq_spec_properties);
                    let after = usage@;
                    assert forall|other: K| #[trigger] usage_of(after, other) == (if other.eq_spec(&key) {
                        updated
                    } else {
                        usage_of(before, other)
                    }) by {
                        match found {
                            Some(i) => {
                                let i = i as int;
                                assert(after == before.update(i, entry));
                                if other.eq_spec(&key) {
                                    assert(key.eq_spec(&other));
                                    assert forall|j: int| 0 <= j < i implies !(#[trigger] after[j]).0.eq_spec(&other) by {
                                        assert(after[j] == before[j]);
                                        if before[j].0.eq_spec(&other) {
                                            assert(before[j].0.eq_spec(&key));
                                        }
                                    }
                                    assert(first_entry(after, other, i));
                                    lemma_usage_at(after, other, i);
                                } else {
                                    assert(!key.eq_spec(&other));
                                    assert(!before[i].0.eq_spec(&other)) by {
                                        if before[i].0.eq_spec(&other) {
                                            assert(key.eq_spec(&before[i].0));
                                        }
                                    }
                                    if exists|f: int| first_entry(before, other, f) {
                                        let f = choose|f: int| first_entry(before, other, f);
                                        assert(f != i);
                                        assert(after[f] == before[f]);
                                        assert forall|j: int| 0 <= j < f implies !(#[trigger] after[j]).0.eq_spec(&other) by {
                                            if j != i {
                                                assert(after[j] == before[j]);
                                            }
                                        }
                                        assert(first_entry(after, other, f));
                                        lemma_usage_at(after, other, f);
                                        lemma_usage_at(before, other, f);
                                    } else {
                                        assert forall|j: int| 0 <= j < after.len() implies !(#[trigger] after[j]).0.eq_spec(&other) by {
                                            if j != i {
                                                assert(after[j] == before[j]);
                                                if before[j].0.eq_spec(&other) {
                                                    lemma_first_entry_exists(before, other, j);
                                                }
                                            }
                                        }
                                        lemma_no_entry(after, other);
                                    }
                                }
                            },
                            None => {
                                let n = before.len() as int;
                                assert(after == before.push(entry));
                                assert forall|j: int| 0 <= j < n implies !(#[trigger] before[j]).0.eq_spec(&key) by {}
                                if other.eq_spec(&key) {
                                    assert(key.eq_spec(&other));
                                    assert forall|j: int| 0 <= j < n implies !(#[trigger] after[j]).0.eq_spec(&other) by {
                                        assert(after[j] == before[j]);
                                        if before[j].0.eq_spec(&other) {
                                            assert(before[j].0.eq_spec(&key));
                                        }
                                    }
                                    assert(first_entry(after, other, n));
                                    lemma_usage_at(after, other, n);
                                } else {
                                    assert(!key.eq_spec(&other));
                                    if exists|f: int| first_entry(before, other, f) {
                                        let f = choose|f: int| first_entry(before, other, f);
                                        assert(after[f] == before[f]);
                                        assert forall|j: int| 0 <= j < f implies !(#[trigger] after[j]).0.eq_spec(&other) by {
                                            assert(after[j] == before[j]);
                                        }
                                        assert(first_entry(after, other, f));
                                        lemma_usage_at(after, other, f);
                                        lemma_usage_at(before, other, f);
                                    } else {
                                        assert forall|j: int| 0 <= j < after.len() implies !(#[trigger] after[j]).0.eq_spec(&other) by {
                                            if j < n {
                                                assert(after[j] == before[j]);
                                                if before[j].0.eq_spec(&other) {
                                                    lemma_first_entry_exists(before, other, j);
                                                }
                                            }
                                        }
                                        lemma_no_entry(after, other);
                                    }
                                }
                            },
                        }
                    }
                }
            }
            assert forall|j: int| 0 <= j < usage@.len() implies #[trigger] usage@[j].1 <= limit by {
            }
            true
        },
        None => false,
    }
}

/// A charge touches only its own key: it is accepted exactly when charging
/// the key's recorded usage fits the allowance, an accepted charge raises
/// that key's usage to the charged amount, a refused one leaves it, and every
/// key that differs from it keeps its usage.
pub proof fn charge_touches_only_its_key<K: PartialEq>(
    before: Seq<(K, u64)>,
    after: Seq<(K, u64)>,
    key: K,
    quantity: u64,
    limit: u64,
    allowed: bool,
)
    requires
        obeys_eq::<K>(),
        key.eq_spec(&key),
        charged(before, after, key, quantity, limit, allowed),
    ensures
        allowed <==> {
            let used = usage_of(before, key);
            let sum = if used + quantity > u64::MAX { u64::MAX as int } else { used + quantity };
            sum <= limit && !(quantity != 0 && used == limit)
        },
        allowed ==> usage_of(after, key) == (if usage_of(before, key) + quantity > u64::MAX {
            u64::MAX as int
        } else {
            usage_of(before, key) + quantity
        }),
        !allowed ==> usage_of(after, key) == usage_of(before, key),
        forall|other: K| !other.eq_spec(&key) ==> #[trigger] usage_of(after, other) == usage_of(before, other),
{
    assert(usage_of(after, key) == (if allowed && key.eq_spec(&key) {
        charge_spec(usage_of(before, key), quantity, limit)->Some_0
    } else {
        usage_of(before, key)
    }));
}

/// Successive charges of one key see each other: the second is decided on
/// the usage the first left, so a key's accepted charges accumulate until
/// its allowance is spent, and then it is refused.
pub proof fn successive_charges_accumulate<K: PartialEq>(
    first: Seq<(K, u64)>,
    second: Seq<(K, u64)>,
    third: Seq<(K, u64)>,
    key: K,
    quantity: u64,
    next_quantity: u64,
    limit: u64,
    allowed: bool,
    next_allowed: bool,
)
    requires
        obeys_eq::<K>(),
        key.eq_spec(&key),
        charged(first, second, key, quantity, limit, allowed),
        charged(second, third, key, next_quantity, limit, next_allowed),
    ensures
        usage_of(second, key) == (if allowed { charge_spec(usage_of(first, key), quantity, limit)->Some_0 } else { usage_of(first, key) }),
        next_allowed == charge_spec(usage_of(second, key), next_quantity, limit).is_some(),
{
    assert(usage_of(second, key) == (if allowed && key.eq_spec(&key) {
        charge_spec(usage_of(first, key), quantity, limit)->Some_0
    } else {
        usage_of(first, key)
    }));
}

impl<S, K, F> Layer<S> for Budget<K, F>
    where K: PartialEq + Send + Sync, F: Fn(&Call<'_>) -> Option<(K, u64)> + Send + Sync,
{
    type Frame = ();

    fn before(&self, _state: &mut S, call: &Call<'_>) -> (decision: Result<(), Denied>)
        ensures
            *final(_state) == *old(_state),
            exists|picked: Option<(K, u64)>| {
                &&& call_ensures(self.selector_view(), (call,), picked)
                &&& admits(picked, self.limit_view(), decision is Ok)
            },
            decision matches Err(denied) ==> denied.view() == "budget exhausted"@,
            exists|picked: Option<(K, u64)>| {
                &&& call_ensures(self.selector_view(), (call,), picked)
                &&& match picked {
                    None => decision is Ok,
                    Some((key, quantity)) => exists|before: Seq<(K, u64)>, after: Seq<(K, u64)>| {
                        &&& forall|i: int| 0 <= i < before.len() ==> #[trigger] before[i].1 <= self.limit_view()
                        &&& #[trigger] charge_recorded(before, after, key, quantity, self.limit_view(), decision is Ok)
                    },
                }
            },
    {
        proof {
            use_type_invariant(self);
        }
        assert(self.selector_view() == self.selector);
        assert(self.limit_view() == self.limit);
        let picked = (self.selector)(call);
        let ghost picked_copy = picked;
        match picked {
            None => {
                assert(call_ensures(self.selector, (call,), picked_copy));
                assert(admits(picked_copy, self.limit, true));
                Ok(())
            },
            Some((key, quantity)) => {
                let (mut usage, handle) = self.used.acquire_write();
                let ghost before = usage@;
                let ghost charged_key = key;
                let allowed = charge_usage(&mut usage, key, quantity, self.limit);
                let ghost after = usage@;
                handle.release_write(usage);
                assert(call_ensures(self.selector, (call,), picked_copy));
                assert(admits(picked_copy, self.limit, allowed));
                assert(forall|i: int| 0 <= i < before.len() ==> #[trigger] before[i].1 <= self.limit);
                assert(obeys_eq::<K>() ==> charged(before, after, charged_key, quantity, self.limit, allowed));
                assert(picked_copy == Some((charged_key, quantity)));
                let decision = if allowed {
                    Ok(())
                } else {
                    proof {
                        reveal_strlit("budget exhausted");
                    }
                    Err(Denied::new("budget exhausted"))
                };
                assert(charge_recorded(before, after, charged_key, quantity, self.limit_view(), decision is Ok));
                assert(forall|i: int| 0 <= i < before.len() ==> #[trigger] before[i].1 <= self.limit_view());
                decision
            },
        }
    }

    fn after(&self, _state: &mut S, _call: &Call<'_>, _frame: (), _outcome: Outcome<'_>)
        ensures
            *final(_state) == *old(_state),
    {
    }
}

} // verus!
