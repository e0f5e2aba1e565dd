//! Sums over the balances of all accounts.

use vstd::prelude::*;

verus! {

/// The sum of the values of a finite map; zero for any other map.
pub open spec fn sum(balances: Map<u64, int>) -> int
    decreases balances.dom().len(),
    when balances.dom().finite()
{
    if balances.dom().len() > 0 {
        let key = balances.dom().choose();
        balances[key] + sum(balances.remove(key))
    } else {
        0
    }
}

/// Nothing sums to zero.
pub proof fn lemma_sum_empty()
    ensures
        sum(Map::<u64, int>::empty()) == 0,
{
    assert(Map::<u64, int>::empty().dom() =~= Set::<u64>::empty());
}

/// Any one entry can be taken out of a sum.
pub proof fn lemma_sum_remove(balances: Map<u64, int>, key: u64)
    requires
        balances.dom().finite(),
        balances.contains_key(key),
    ensures
        sum(balances) == balances[key] + sum(balances.remove(key)),
    decreases balances.dom().len(),
{
    let chosen = balances.dom().choose();
    if chosen != key {
        let without_chosen = balances.remove(chosen);
        let without_key = balances.remove(key);
        lemma_sum_remove(without_chosen, key);
        lemma_sum_remove(without_key, chosen);
        assert(without_chosen.remove(key) =~= without_key.remove(chosen));
    }
}

/// Setting one entry changes the sum by the difference between the new
/// value and the old one, an absent entry counting as zero.
pub proof fn lemma_sum_insert(balances: Map<u64, int>, key: u64, value: int)
    requires
        balances.dom().finite(),
    ensures
        sum(balances.insert(key, value)) == sum(balances) + value - (if balances.contains_key(key) {
            balances[key]
        } else {
            0
        }),
{
    let updated = balances.insert(key, value);
    lemma_sum_remove(updated, key);
    assert(updated.remove(key) =~= balances.remove(key));
    if balances.contains_key(key) {
        lemma_sum_remove(balances, key);
    } else {
        assert(balances.remove(key) =~= balances);
    }
}

/// A sum of values of which none is negative is not negative.
pub proof fn lemma_sum_non_negative(balances: Map<u64, int>)
    requires
        balances.dom().finite(),
        forall|key: u64| balances.contains_key(key) ==> #[trigger] balances[key] >= 0,
    ensures
        sum(balances) >= 0,
    decreases balances.dom().len(),
{
    if balances.dom().len() > 0 {
        let key = balances.dom().choose();
        lemma_sum_non_negative(balances.remove(key));
    }
}

} // verus!
