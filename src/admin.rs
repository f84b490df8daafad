//! The token's administrator.
use crate::storage_types::{
    lemma_insert_fits, well_typed, DataKey, Entry, TokenError,
};
use crate::store::{instance_entries, load_admin, store_admin};
use soroban_sdk::{Address, Env};
use vstd::prelude::*;

verus! {

/// The stored administrator, if one was written.
pub open spec fn admin_in(m: Map<DataKey, Entry>) -> Option<Address> {
    if m.contains_key(DataKey::Admin) && m[DataKey::Admin] is Admin {
        Some(m[DataKey::Admin]->Admin_0)
    } else {
        None
    }
}

/// The administrator; fails with `NotSet` where none was ever written.
pub fn read_administrator(e: &Env) -> (r: Result<Address, TokenError>)
    requires
        well_typed(instance_entries(*e)),
    ensures
        match admin_in(instance_entries(*e)) {
            Some(a) => r == Ok::<Address, TokenError>(a),
            None => r == Err::<Address, TokenError>(TokenError::NotSet),
        },
{
    match load_admin(e) {
        Some(a) => Ok(a),
        None => Err(TokenError::NotSet),
    }
}

/// Stores `admin` as the administrator, replacing any earlier one.
pub fn write_administrator(e: &mut Env, admin: &Address)
    requires
        well_typed(instance_entries(*old(e))),
    ensures
        well_typed(instance_entries(*final(e))),
        instance_entries(*final(e)) == instance_entries(*old(e)).insert(
            DataKey::Admin,
            Entry::Admin(*admin),
        ),
        admin_in(instance_entries(*final(e))) == Some(*admin),
{
    store_admin(e, admin);
    proof {
        lemma_insert_fits(instance_entries(*old(e)), DataKey::Admin, Entry::Admin(*admin));
    }
}

} // verus!
