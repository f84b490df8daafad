//! The token's view of the contract's instance storage and of the ledger clock.
//!
//! Each key of [`DataKey`] is laid out in instance storage as a symbol naming
//! its kind, followed by the addresses that it holds.
use crate::storage_types::{
    allowance_key, extended_live_until, AllowanceValue, DataKey, Entry, TokenMetadata,
};
use soroban_sdk::{Address, Env, Symbol};
use vstd::prelude::*;

verus! {

/// What the instance storage of the running contract holds, read as the token's schema.
///
/// `Env` is a shared handle: what is proved over it assumes that no other clone of
/// the same handle writes to the storage in between.
pub uninterp spec fn instance_entries(e: Env) -> Map<DataKey, Entry>;

/// The last ledger at which the running contract's instance entry is live.
pub uninterp spec fn instance_live_until(e: Env) -> u32;

/// Relies on `Instance::get` (through `Storage::get`): the stored administrator, if any.
#[verifier::external_body]
pub(crate) fn load_admin(e: &Env) -> (r: Option<Address>)
    requires
        instance_entries(*e).contains_key(DataKey::Admin) ==> instance_entries(
            *e,
        )[DataKey::Admin] is Admin,
    ensures
        r == (if instance_entries(*e).contains_key(DataKey::Admin) {
            Some(instance_entries(*e)[DataKey::Admin]->Admin_0)
        } else {
            None::<Address>
        }),
{
    e.storage().instance().get::<_, Address>(&Symbol::new(e, "Admin"))
}

/// Relies on `Instance::set`: the administrator entry is replaced, nothing else changes.
#[verifier::external_body]
pub(crate) fn store_admin(e: &mut Env, admin: &Address)
    ensures
        instance_entries(*final(e)) == instance_entries(*old(e)).insert(
            DataKey::Admin,
            Entry::Admin(*admin),
        ),
{
    e.storage().instance().set(&Symbol::new(e, "Admin"), admin)
}

/// Relies on `Instance::get`: the stored metadata, if any.
#[verifier::external_body]
pub(crate) fn load_metadata(e: &Env) -> (r: Option<TokenMetadata>)
    requires
        instance_entries(*e).contains_key(DataKey::Metadata) ==> instance_entries(
            *e,
        )[DataKey::Metadata] is Meta,
    ensures
        r == (if instance_entries(*e).contains_key(DataKey::Metadata) {
            Some(instance_entries(*e)[DataKey::Metadata]->Meta_0)
        } else {
            None::<TokenMetadata>
        }),
{
    e.storage()
        .instance()
        .get::<_, soroban_token_sdk::metadata::TokenMetadata>(&Symbol::new(e, "Metadata"))
        .map(|m| TokenMetadata { decimal: m.decimal, name: m.name, symbol: m.symbol })
}

/// Relies on `Instance::set`: the metadata entry is replaced, nothing else changes.
#[verifier::external_body]
pub(crate) fn store_metadata(e: &mut Env, m: TokenMetadata)
    ensures
        instance_entries(*final(e)) == instance_entries(*old(e)).insert(
            DataKey::Metadata,
            Entry::Meta(m),
        ),
{
    let m = soroban_token_sdk::metadata::TokenMetadata {
        decimal: m.decimal,
        name: m.name,
        symbol: m.symbol,
    };
    e.storage().instance().set(&Symbol::new(e, "Metadata"), &m)
}

/// Relies on `Instance::get`: the amount stored as the balance of `a`, if any.
#[verifier::external_body]
pub(crate) fn load_balance(e: &Env, a: &Address) -> (r: Option<i128>)
    requires
        instance_entries(*e).contains_key(DataKey::Balance(*a)) ==> instance_entries(
            *e,
        )[DataKey::Balance(*a)] is Amount,
    ensures
        r == (if instance_entries(*e).contains_key(DataKey::Balance(*a)) {
            Some(instance_entries(*e)[DataKey::Balance(*a)]->Amount_0)
        } else {
            None::<i128>
        }),
{
    e.storage().instance().get::<_, i128>(&(Symbol::new(e, "Balance"), a.clone()))
}

/// Relies on `Instance::set`: the balance of `a` is replaced, nothing else changes.
#[verifier::external_body]
pub(crate) fn store_balance(e: &mut Env, a: &Address, amount: i128)
    ensures
        instance_entries(*final(e)) == instance_entries(*old(e)).insert(
            DataKey::Balance(*a),
            Entry::Amount(amount),
        ),
{
    e.storage().instance().set(&(Symbol::new(e, "Balance"), a.clone()), &amount)
}

/// Relies on `Instance::get`: the stored total supply, if any.
#[verifier::external_body]
pub(crate) fn load_total_supply(e: &Env) -> (r: Option<i128>)
    requires
        instance_entries(*e).contains_key(DataKey::TotalSupply) ==> instance_entries(
            *e,
        )[DataKey::TotalSupply] is Amount,
    ensures
        r == (if instance_entries(*e).contains_key(DataKey::TotalSupply) {
            Some(instance_entries(*e)[DataKey::TotalSupply]->Amount_0)
        } else {
            None::<i128>
        }),
{
    e.storage().instance().get::<_, i128>(&Symbol::new(e, "TotalSupply"))
}

/// Relies on `Instance::set`: the total supply is replaced, nothing else changes.
#[verifier::external_body]
pub(crate) fn store_total_supply(e: &mut Env, amount: i128)
    ensures
        instance_entries(*final(e)) == instance_entries(*old(e)).insert(
            DataKey::TotalSupply,
            Entry::Amount(amount),
        ),
{
    e.storage().instance().set(&Symbol::new(e, "TotalSupply"), &amount)
}

/// Relies on `Instance::get`: the allowance record of (`from`, `spender`), if any.
#[verifier::external_body]
pub(crate) fn load_allowance(e: &Env, from: &Address, spender: &Address) -> (r: Option<
    AllowanceValue,
>)
    requires
        instance_entries(*e).contains_key(allowance_key(*from, *spender)) ==> instance_entries(
            *e,
        )[allowance_key(*from, *spender)] is Allowance,
    ensures
        r == (if instance_entries(*e).contains_key(allowance_key(*from, *spender)) {
            Some(instance_entries(*e)[allowance_key(*from, *spender)]->Allowance_0)
        } else {
            None::<AllowanceValue>
        }),
{
    e.storage()
        .instance()
        .get::<_, (i128, u32)>(&(Symbol::new(e, "Allowance"), from.clone(), spender.clone()))
        .map(|(amount, expiration_ledger)| AllowanceValue { amount, expiration_ledger })
}

/// Relies on `Instance::set`: the allowance record of (`from`, `spender`) is replaced,
/// nothing else changes.
#[verifier::external_body]
pub(crate) fn store_allowance(e: &mut Env, from: &Address, spender: &Address, v: AllowanceValue)
    ensures
        instance_entries(*final(e)) == instance_entries(*old(e)).insert(
            allowance_key(*from, *spender),
            Entry::Allowance(v),
        ),
{
    let key = (Symbol::new(e, "Allowance"), from.clone(), spender.clone());
    e.storage().instance().set(&key, &(v.amount, v.expiration_ledger))
}

/// Relies on `Ledger::sequence`: the current ledger sequence number. It moves with
/// the ledger, so nothing is stated of it.
#[verifier::external_body]
pub(crate) fn ledger_sequence(e: &Env) -> (r: u32) {
    e.ledger().sequence()
}

/// Relies on `Instance::extend_ttl`, which asks the host to extend the instance and
/// code entries of the running contract. The host refuses `threshold > extend_to`.
/// Otherwise, at the current ledger `l`, where the instance's remaining lifetime
/// (live-until minus `l`) is at most `threshold`, its live-until ledger becomes the
/// larger of the old one and `l + extend_to` capped at the network's maximum; else it
/// stays. A live entry has a live-until ledger no earlier than `l`. The stored entries
/// are left as they are.
#[verifier::external_body]
pub(crate) fn extend_ttl(e: &mut Env, threshold: u32, extend_to: u32)
    requires
        threshold <= extend_to,
    ensures
        instance_entries(*final(e)) == instance_entries(*old(e)),
        instance_live_until(*final(e)) >= instance_live_until(*old(e)),
        exists|ledger: u32, cap: u32|
            ledger <= instance_live_until(*old(e)) && instance_live_until(*final(e))
                == #[trigger] extended_live_until(
                instance_live_until(*old(e)),
                ledger,
                cap,
                threshold,
                extend_to,
            ),
{
    e.storage().instance().extend_ttl(threshold, extend_to)
}

} // verus!
