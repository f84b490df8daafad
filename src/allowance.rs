//! Spending authorisations per (owner, spender) pair, which lapse with the ledger clock.
use crate::storage_types::{
    allowance_at, allowance_key, allowance_view, lemma_insert_fits, stored_allowance, well_typed,
    AllowanceValue, DataKey, Entry, TokenError,
};
use crate::store::{instance_entries, ledger_sequence, load_allowance, store_allowance};
use soroban_sdk::{Address, Env};
use vstd::prelude::*;

verus! {

/// Whether a record of `amount` expiring at `expiration_ledger` may be written at
/// ledger `ledger`: a positive amount must expire strictly later.
pub open spec fn expiration_ok(amount: i128, expiration_ledger: u32, ledger: u32) -> bool {
    !(amount > 0 && expiration_ledger <= ledger)
}

/// What spending `amount` out of the effective allowance `v` leaves, or why it fails.
pub open spec fn spend_outcome(v: AllowanceValue, amount: i128) -> Result<AllowanceValue, TokenError> {
    if v.amount < amount {
        Err(TokenError::InsufficientAllowance)
    } else if v.amount - amount > i128::MAX {
        Err(TokenError::ArithmeticOverflow)
    } else {
        Ok(AllowanceValue { amount: (v.amount - amount) as i128, expiration_ledger: v.expiration_ledger })
    }
}

/// The amount of a stored record, zero where there is none.
pub open spec fn stored_amount(stored: Option<AllowanceValue>) -> i128 {
    match stored {
        Some(v) => v.amount,
        None => 0,
    }
}

/// Decides whether a record of `amount` expiring at `expiration_ledger` may be written
/// at ledger `ledger`.
pub fn check_expiration(amount: i128, expiration_ledger: u32, ledger: u32) -> (r: Result<(), TokenError>)
    ensures
        r is Ok <==> expiration_ok(amount, expiration_ledger, ledger),
        r is Err ==> r == Err::<(), TokenError>(TokenError::InvalidExpiration),
{
    if expiration_ledger <= ledger && amount > 0 {
        Err(TokenError::InvalidExpiration)
    } else {
        Ok(())
    }
}

/// The record that spending `amount` out of the effective allowance `v` leaves.
pub fn spend_from(v: AllowanceValue, amount: i128) -> (r: Result<AllowanceValue, TokenError>)
    ensures
        r == spend_outcome(v, amount),
{
    if v.amount < amount {
        return Err(TokenError::InsufficientAllowance);
    }
    match v.amount.checked_sub(amount) {
        Some(left) => Ok(AllowanceValue { amount: left, expiration_ledger: v.expiration_ledger }),
        None => Err(TokenError::ArithmeticOverflow),
    }
}

/// The allowance that `from` granted to `spender`, as the current ledger sees it: no
/// record reads `{0, 0}`, an expired one reads as amount 0 with its expiration kept.
/// Storage is not rewritten.
pub fn read_allowance(e: &Env, from: Address, spender: Address) -> (r: AllowanceValue)
    requires
        well_typed(instance_entries(*e)),
    ensures
        exists|ledger: u32|
            r == #[trigger] allowance_view(stored_allowance(instance_entries(*e), from, spender), ledger),
        match stored_allowance(instance_entries(*e), from, spender) {
            None => r == AllowanceValue { amount: 0, expiration_ledger: 0 },
            Some(v) => r.expiration_ledger == v.expiration_ledger && (r.amount == v.amount || r.amount == 0),
        },
{
    let stored = load_allowance(e, &from, &spender);
    let ledger = ledger_sequence(e);
    let r = allowance_at(stored, ledger);
    assert(r == allowance_view(stored_allowance(instance_entries(*e), from, spender), ledger));
    r
}

/// Stores `{amount, expiration_ledger}` for (`from`, `spender`), replacing any earlier
/// record. Fails with `InvalidExpiration`, writing nothing, where `amount` is positive
/// and `expiration_ledger` is not after the current ledger.
pub fn write_allowance(
    e: &mut Env,
    from: Address,
    spender: Address,
    amount: i128,
    expiration_ledger: u32,
) -> (r: Result<(), TokenError>)
    requires
        well_typed(instance_entries(*old(e))),
    ensures
        well_typed(instance_entries(*final(e))),
        amount <= 0 ==> r is Ok,
        exists|ledger: u32|
            if #[trigger] expiration_ok(amount, expiration_ledger, ledger) {
                r is Ok && instance_entries(*final(e)) == instance_entries(*old(e)).insert(
                    allowance_key(from, spender),
                    Entry::Allowance(AllowanceValue { amount, expiration_ledger }),
                )
            } else {
                r == Err::<(), TokenError>(TokenError::InvalidExpiration) && *final(e) == *old(e)
            },
{
    let ledger = ledger_sequence(e);
    match check_expiration(amount, expiration_ledger, ledger) {
        Ok(()) => {
            let v = AllowanceValue { amount, expiration_ledger };
            store_allowance(e, &from, &spender, v);
            proof {
                lemma_insert_fits(instance_entries(*old(e)), allowance_key(from, spender), Entry::Allowance(v));
            }
            assert(expiration_ok(amount, expiration_ledger, ledger));
            Ok(())
        },
        Err(err) => {
            assert(!expiration_ok(amount, expiration_ledger, ledger));
            Err(err)
        },
    }
}

/// Spends `amount` out of the effective allowance of (`from`, `spender`) and stores
/// what is left with the expiration that was read. Fails with `InsufficientAllowance`
/// where the effective amount is below `amount`, and with `ArithmeticOverflow` where
/// the difference leaves the range of `i128`; either way nothing is written.
pub fn spend_allowance(e: &mut Env, from: Address, spender: Address, amount: i128) -> (r: Result<
    (),
    TokenError,
>)
    requires
        well_typed(instance_entries(*old(e))),
    ensures
        well_typed(instance_entries(*final(e))),
        amount > 0 && amount > stored_amount(stored_allowance(instance_entries(*old(e)), from, spender))
            ==> r == Err::<(), TokenError>(TokenError::InsufficientAllowance) && *final(e) == *old(e),
        exists|ledger: u32|
            match #[trigger] spend_outcome(
                allowance_view(stored_allowance(instance_entries(*old(e)), from, spender), ledger),
                amount,
            ) {
                Ok(v) => r is Ok && instance_entries(*final(e)) == instance_entries(*old(e)).insert(
                    allowance_key(from, spender),
                    Entry::Allowance(v),
                ),
                Err(err) => r == Err::<(), TokenError>(err) && *final(e) == *old(e),
            },
{
    let stored = load_allowance(e, &from, &spender);
    let ledger = ledger_sequence(e);
    let current = allowance_at(stored, ledger);
    match spend_from(current, amount) {
        Ok(v) => {
            store_allowance(e, &from, &spender, v);
            proof {
                lemma_insert_fits(instance_entries(*old(e)), allowance_key(from, spender), Entry::Allowance(v));
            }
            assert(spend_outcome(current, amount) == Ok::<AllowanceValue, TokenError>(v));
            Ok(())
        },
        Err(err) => {
            assert(spend_outcome(current, amount) == Err::<AllowanceValue, TokenError>(err));
            Err(err)
        },
    }
}

/// Once the ledger has reached a record's expiration, the record reads as amount zero
/// with its expiration kept.
pub proof fn lemma_expired_allowance_reads_zero(v: AllowanceValue, ledger: u32)
    requires
        v.expiration_ledger <= ledger,
    ensures
        allowance_view(Some(v), ledger) == (AllowanceValue { amount: 0, expiration_ledger: v.expiration_ledger }),
{
}

/// A record written for (`from`, `spender`) reads back exactly at any ledger before
/// its expiration.
pub proof fn lemma_write_then_read(
    m: Map<DataKey, Entry>,
    from: Address,
    spender: Address,
    v: AllowanceValue,
    ledger: u32,
)
    requires
        ledger < v.expiration_ledger,
    ensures
        allowance_view(
            stored_allowance(m.insert(allowance_key(from, spender), Entry::Allowance(v)), from, spender),
            ledger,
        ) == v,
{
}

/// Spending the whole effective allowance succeeds and leaves a record that reads as
/// zero at every ledger.
pub proof fn lemma_spend_all_leaves_zero(stored: Option<AllowanceValue>, ledger: u32, later: u32)
    ensures
        ({
            let eff = allowance_view(stored, ledger);
            match spend_outcome(eff, eff.amount) {
                Ok(v) => v.amount == 0 && v.expiration_ledger == eff.expiration_ledger
                    && allowance_view(Some(v), later).amount == 0,
                Err(_) => false,
            }
        }),
{
}

/// Spending more than the effective allowance fails for want of allowance.
pub proof fn lemma_overspend_fails(stored: Option<AllowanceValue>, ledger: u32, amount: i128)
    requires
        amount > allowance_view(stored, ledger).amount,
    ensures
        spend_outcome(allowance_view(stored, ledger), amount) == Err::<AllowanceValue, TokenError>(
            TokenError::InsufficientAllowance,
        ),
{
}

} // verus!
