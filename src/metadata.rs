//! The token's descriptor: name, symbol and decimal precision.
use crate::storage_types::{
    lemma_insert_fits, well_typed, DataKey, Entry, TokenError, TokenMetadata,
};
use crate::store::{instance_entries, load_metadata, store_metadata};
use soroban_sdk::Env;
use vstd::prelude::*;

verus! {

/// The stored descriptor, if one was written.
pub open spec fn metadata_in(m: Map<DataKey, Entry>) -> Option<TokenMetadata> {
    if m.contains_key(DataKey::Metadata) && m[DataKey::Metadata] is Meta {
        Some(m[DataKey::Metadata]->Meta_0)
    } else {
        None
    }
}

/// The descriptor; fails with `NotSet` where none was ever written.
pub fn read_metadata(e: &Env) -> (r: Result<TokenMetadata, TokenError>)
    requires
        well_typed(instance_entries(*e)),
    ensures
        match metadata_in(instance_entries(*e)) {
            Some(md) => r == Ok::<TokenMetadata, TokenError>(md),
            None => r == Err::<TokenMetadata, TokenError>(TokenError::NotSet),
        },
{
    match load_metadata(e) {
        Some(md) => Ok(md),
        None => Err(TokenError::NotSet),
    }
}

/// Stores `metadata` as the descriptor, replacing any earlier one in full.
pub fn write_metadata(e: &mut Env, metadata: TokenMetadata)
    requires
        well_typed(instance_entries(*old(e))),
    ensures
        well_typed(instance_entries(*final(e))),
        instance_entries(*final(e)) == instance_entries(*old(e)).insert(
            DataKey::Metadata,
            Entry::Meta(metadata),
        ),
{
    proof {
        lemma_insert_fits(instance_entries(*old(e)), DataKey::Metadata, Entry::Meta(metadata));
    }
    store_metadata(e, metadata);
}

/// The decimal precision; fails with `NotSet` where no descriptor was written.
pub fn read_decimal(e: &Env) -> (r: Result<u32, TokenError>)
    requires
        well_typed(instance_entries(*e)),
    ensures
        match metadata_in(instance_entries(*e)) {
            Some(md) => r == Ok::<u32, TokenError>(md.decimal),
            None => r == Err::<u32, TokenError>(TokenError::NotSet),
        },
{
    match read_metadata(e) {
        Ok(md) => Ok(md.decimal),
        Err(err) => Err(err),
    }
}

/// The name; fails with `NotSet` where no descriptor was written.
pub fn read_name(e: &Env) -> (r: Result<soroban_sdk::String, TokenError>)
    requires
        well_typed(instance_entries(*e)),
    ensures
        match metadata_in(instance_entries(*e)) {
            Some(md) => r == Ok::<soroban_sdk::String, TokenError>(md.name),
            None => r == Err::<soroban_sdk::String, TokenError>(TokenError::NotSet),
        },
{
    match read_metadata(e) {
        Ok(md) => Ok(md.name),
        Err(err) => Err(err),
    }
}

/// The symbol; fails with `NotSet` where no descriptor was written.
pub fn read_symbol(e: &Env) -> (r: Result<soroban_sdk::String, TokenError>)
    requires
        well_typed(instance_entries(*e)),
    ensures
        match metadata_in(instance_entries(*e)) {
            Some(md) => r == Ok::<soroban_sdk::String, TokenError>(md.symbol),
            None => r == Err::<soroban_sdk::String, TokenError>(TokenError::NotSet),
        },
{
    match read_metadata(e) {
        Ok(md) => Ok(md.symbol),
        Err(err) => Err(err),
    }
}

/// Once a descriptor is written it is what reads return, and a later write replaces
/// it in full.
pub proof fn lemma_metadata_last_write_wins(
    m: Map<DataKey, Entry>,
    first: TokenMetadata,
    second: TokenMetadata,
)
    ensures
        metadata_in(m.insert(DataKey::Metadata, Entry::Meta(first))) == Some(first),
        metadata_in(
            m.insert(DataKey::Metadata, Entry::Meta(first)).insert(DataKey::Metadata, Entry::Meta(second)),
        ) == Some(second),
{
}

} // verus!
