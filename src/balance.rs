//! Per-address balances and the recorded total supply.
use crate::storage_types::{
    balance_in, lemma_insert_fits, supply_in, well_typed, DataKey, Entry, TokenError,
};
use crate::store::{
    instance_entries, load_balance, load_total_supply, store_balance, store_total_supply,
};
use soroban_sdk::{Address, Env};
use vstd::prelude::*;

verus! {

/// The stored balance of `addr`, zero where none was ever stored.
pub fn read_balance(e: &Env, addr: Address) -> (r: i128)
    requires
        well_typed(instance_entries(*e)),
    ensures
        r == balance_in(instance_entries(*e), addr),
{
    match load_balance(e, &addr) {
        Some(b) => b,
        None => 0,
    }
}

/// Credits `amount` to `addr`. Fails with `ArithmeticOverflow`, and writes nothing,
/// where the new balance leaves the range of `i128`.
pub fn receive_balance(e: &mut Env, addr: Address, amount: i128) -> (r: Result<(), TokenError>)
    requires
        well_typed(instance_entries(*old(e))),
    ensures
        well_typed(instance_entries(*final(e))),
        ({
            let m = instance_entries(*old(e));
            let sum = balance_in(m, addr) + amount;
            if i128::MIN <= sum <= i128::MAX {
                r is Ok && instance_entries(*final(e)) == m.insert(
                    DataKey::Balance(addr),
                    Entry::Amount(sum as i128),
                )
            } else {
                r == Err::<(), TokenError>(TokenError::ArithmeticOverflow) && *final(e) == *old(e)
            }
        }),
{
    let balance = read_balance(e, addr.clone());
    match balance.checked_add(amount) {
        Some(b) => {
            store_balance(e, &addr, b);
            proof { lemma_insert_fits(instance_entries(*old(e)), DataKey::Balance(addr), Entry::Amount(b)); }
            Ok(())
        },
        None => Err(TokenError::ArithmeticOverflow),
    }
}

/// Debits `amount` from `addr`. Fails with `InsufficientFunds` where the balance is
/// below `amount`, and with `ArithmeticOverflow` where the difference leaves the range
/// of `i128`; either way nothing is written.
pub fn spend_balance(e: &mut Env, addr: Address, amount: i128) -> (r: Result<(), TokenError>)
    requires
        well_typed(instance_entries(*old(e))),
    ensures
        well_typed(instance_entries(*final(e))),
        ({
            let m = instance_entries(*old(e));
            let diff = balance_in(m, addr) - amount;
            if balance_in(m, addr) < amount {
                r == Err::<(), TokenError>(TokenError::InsufficientFunds) && *final(e) == *old(e)
            } else if diff > i128::MAX {
                r == Err::<(), TokenError>(TokenError::ArithmeticOverflow) && *final(e) == *old(e)
            } else {
                r is Ok && instance_entries(*final(e)) == m.insert(
                    DataKey::Balance(addr),
                    Entry::Amount(diff as i128),
                )
            }
        }),
{
    let balance = read_balance(e, addr.clone());
    if balance < amount {
        return Err(TokenError::InsufficientFunds);
    }
    match balance.checked_sub(amount) {
        Some(b) => {
            store_balance(e, &addr, b);
            proof { lemma_insert_fits(instance_entries(*old(e)), DataKey::Balance(addr), Entry::Amount(b)); }
            Ok(())
        },
        None => Err(TokenError::ArithmeticOverflow),
    }
}

/// The recorded total supply, zero where none was ever stored.
pub fn read_total_supply(e: &Env) -> (r: i128)
    requires
        well_typed(instance_entries(*e)),
    ensures
        r == supply_in(instance_entries(*e)),
{
    match load_total_supply(e) {
        Some(t) => t,
        None => 0,
    }
}

/// Adds `delta` to the total supply. Fails with `ArithmeticOverflow` where the sum
/// leaves the range of `i128` and with `NegativeSupply` where it is below zero; either
/// way nothing is written.
pub fn update_total_supply(e: &mut Env, delta: i128) -> (r: Result<(), TokenError>)
    requires
        well_typed(instance_entries(*old(e))),
    ensures
        well_typed(instance_entries(*final(e))),
        ({
            let m = instance_entries(*old(e));
            let total = supply_in(m) + delta;
            if total < i128::MIN || total > i128::MAX {
                r == Err::<(), TokenError>(TokenError::ArithmeticOverflow) && *final(e) == *old(e)
            } else if total < 0 {
                r == Err::<(), TokenError>(TokenError::NegativeSupply) && *final(e) == *old(e)
            } else {
                r is Ok && instance_entries(*final(e)) == m.insert(
                    DataKey::TotalSupply,
                    Entry::Amount(total as i128),
                )
            }
        }),
{
    let total = read_total_supply(e);
    match total.checked_add(delta) {
        Some(t) => {
            if t < 0 {
                return Err(TokenError::NegativeSupply);
            }
            store_total_supply(e, t);
            proof { lemma_insert_fits(instance_entries(*old(e)), DataKey::TotalSupply, Entry::Amount(t)); }
            Ok(())
        },
        None => Err(TokenError::ArithmeticOverflow),
    }
}

/// The sum of the balances of `addrs`.
pub open spec fn sum_balances(m: Map<DataKey, Entry>, addrs: Seq<Address>) -> int
    decreases addrs.len(),
{
    if addrs.len() == 0 {
        0
    } else {
        sum_balances(m, addrs.drop_last()) + balance_in(m, addrs.last())
    }
}

/// From `m1` to `m2` the balance of `a` and the total supply both moved by `delta`,
/// and no other balance changed.
pub open spec fn synced_step(m1: Map<DataKey, Entry>, m2: Map<DataKey, Entry>, a: Address, delta: int) -> bool {
    &&& balance_in(m2, a) == balance_in(m1, a) + delta
    &&& supply_in(m2) == supply_in(m1) + delta
    &&& forall|b: Address| b != a ==> #[trigger] balance_in(m2, b) == balance_in(m1, b)
}

/// A balance write for `a` followed by a total-supply write, both by `delta`, is a
/// synced step.
pub proof fn lemma_balance_then_supply_is_synced(
    m: Map<DataKey, Entry>,
    a: Address,
    delta: int,
    new_balance: i128,
    new_total: i128,
)
    requires
        new_balance == balance_in(m, a) + delta,
        new_total == supply_in(m) + delta,
    ensures
        synced_step(
            m,
            m.insert(DataKey::Balance(a), Entry::Amount(new_balance)).insert(
                DataKey::TotalSupply,
                Entry::Amount(new_total),
            ),
            a,
            delta,
        ),
{
}

/// One synced step moves the sum over a list of distinct addresses that holds `a` by
/// `delta`.
pub proof fn lemma_sum_after_step(
    m1: Map<DataKey, Entry>,
    m2: Map<DataKey, Entry>,
    addrs: Seq<Address>,
    a: Address,
    delta: int,
)
    requires
        synced_step(m1, m2, a, delta),
        addrs.no_duplicates(),
    ensures
        sum_balances(m2, addrs) == sum_balances(m1, addrs) + (if addrs.contains(a) {
            delta
        } else {
            0
        }),
    decreases addrs.len(),
{
    if addrs.len() > 0 {
        let rest = addrs.drop_last();
        assert(rest.no_duplicates());
        lemma_sum_after_step(m1, m2, rest, a, delta);
        if addrs.last() == a {
            assert(!rest.contains(a));
        } else {
            assert(balance_in(m2, addrs.last()) == balance_in(m1, addrs.last()));
            assert(addrs.contains(a) == rest.contains(a)) by {
                if addrs.contains(a) {
                    let i = choose|i: int| 0 <= i < addrs.len() && addrs[i] == a;
                    assert(rest[i] == a);
                }
            }
        }
    }
}

/// From `m1` to `m2`, `amount` moved from the balance of `from` to that of `to`, the
/// total supply stayed, and no other balance changed.
pub open spec fn transfer_step(
    m1: Map<DataKey, Entry>,
    m2: Map<DataKey, Entry>,
    from: Address,
    to: Address,
    amount: int,
) -> bool {
    &&& from != to
    &&& balance_in(m2, from) == balance_in(m1, from) - amount
    &&& balance_in(m2, to) == balance_in(m1, to) + amount
    &&& supply_in(m2) == supply_in(m1)
    &&& forall|b: Address| b != from && b != to ==> #[trigger] balance_in(m2, b) == balance_in(m1, b)
}

/// A debit of `amount` from `from` followed by a credit of `amount` to another address
/// `to` is a transfer step.
pub proof fn lemma_debit_then_credit_is_transfer(
    m: Map<DataKey, Entry>,
    from: Address,
    to: Address,
    amount: int,
    new_from: i128,
    new_to: i128,
)
    requires
        from != to,
        new_from == balance_in(m, from) - amount,
        new_to == balance_in(m, to) + amount,
    ensures
        transfer_step(
            m,
            m.insert(DataKey::Balance(from), Entry::Amount(new_from)).insert(
                DataKey::Balance(to),
                Entry::Amount(new_to),
            ),
            from,
            to,
            amount,
        ),
{
}

/// A transfer step moves the sum over a list of distinct addresses by what reached the
/// list minus what left it.
pub proof fn lemma_sum_after_transfer(
    m1: Map<DataKey, Entry>,
    m2: Map<DataKey, Entry>,
    addrs: Seq<Address>,
    from: Address,
    to: Address,
    amount: int,
)
    requires
        transfer_step(m1, m2, from, to, amount),
        addrs.no_duplicates(),
    ensures
        sum_balances(m2, addrs) == sum_balances(m1, addrs) + (if addrs.contains(to) {
            amount
        } else {
            0
        }) - (if addrs.contains(from) {
            amount
        } else {
            0
        }),
    decreases addrs.len(),
{
    if addrs.len() > 0 {
        let rest = addrs.drop_last();
        let x = addrs.last();
        assert(rest.no_duplicates());
        lemma_sum_after_transfer(m1, m2, rest, from, to, amount);
        assert forall|a: Address| a != x implies addrs.contains(a) == rest.contains(a) by {
            if addrs.contains(a) {
                let i = choose|i: int| 0 <= i < addrs.len() && addrs[i] == a;
                assert(rest[i] == a);
            }
        }
        if x == from {
            assert(!rest.contains(from));
        } else if x == to {
            assert(!rest.contains(to));
        } else {
            assert(balance_in(m2, x) == balance_in(m1, x));
        }
    }
}

/// One step of ledger activity: an issuance of `delta` to an address (a burn where it
/// is negative), matched by the same adjustment of the total supply; or a transfer of
/// an amount between two addresses.
pub enum LedgerStep {
    Issue(Address, int),
    Transfer(Address, Address, int),
}

/// Whether `m2` follows from `m1` by step `s`, all of whose addresses are in `addrs`.
pub open spec fn step_holds(
    m1: Map<DataKey, Entry>,
    m2: Map<DataKey, Entry>,
    s: LedgerStep,
    addrs: Seq<Address>,
) -> bool {
    match s {
        LedgerStep::Issue(a, delta) => addrs.contains(a) && synced_step(m1, m2, a, delta),
        LedgerStep::Transfer(from, to, amount) => addrs.contains(from) && addrs.contains(to)
            && transfer_step(m1, m2, from, to, amount),
    }
}

/// Where every credit or debit of a balance is either matched by the same adjustment
/// of the total supply or paired with the opposite change to another balance, the
/// total supply keeps equal to the sum of the balances of the addresses touched.
pub proof fn lemma_supply_tracks_balances(
    states: Seq<Map<DataKey, Entry>>,
    steps: Seq<LedgerStep>,
    addrs: Seq<Address>,
)
    requires
        states.len() == steps.len() + 1,
        addrs.no_duplicates(),
        sum_balances(states[0], addrs) == supply_in(states[0]),
        forall|i: int| 0 <= i < steps.len() ==> step_holds(states[i], states[i + 1], #[trigger] steps[i], addrs),
    ensures
        sum_balances(states.last(), addrs) == supply_in(states.last()),
    decreases steps.len(),
{
    if steps.len() > 0 {
        let n = steps.len() - 1;
        lemma_supply_tracks_balances(states.drop_last(), steps.drop_last(), addrs);
        assert(step_holds(states[n], states[n + 1], steps[n], addrs));
        match steps[n] {
            LedgerStep::Issue(a, delta) => {
                lemma_sum_after_step(states[n], states[n + 1], addrs, a, delta);
            },
            LedgerStep::Transfer(from, to, amount) => {
                lemma_sum_after_transfer(states[n], states[n + 1], addrs, from, to, amount);
            },
        }
    }
}

/// An address that no write ever touched has balance zero.
pub proof fn lemma_unwritten_balance_is_zero(m: Map<DataKey, Entry>, a: Address)
    requires
        !m.contains_key(DataKey::Balance(a)),
    ensures
        balance_in(m, a) == 0,
{
}

} // verus!
