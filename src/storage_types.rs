use crate::store::{extend_ttl, instance_entries, instance_live_until};
use soroban_sdk::{Address, Env};
use vstd::prelude::*;

verus! {

/// The handle to the host: its contract storage and its ledger.
#[verifier::external_type_specification]
#[verifier::external_body]
pub struct ExEnv(Env);

/// An account or contract address. Two values are equal in specifications exactly
/// when they denote the same address.
#[verifier::external_type_specification]
#[verifier::external_body]
pub struct ExAddress(Address);

/// A string held by the host.
#[verifier::external_type_specification]
#[verifier::external_body]
pub struct ExSorobanString(soroban_sdk::String);

/// Relies on the derived `Clone` of `Address`: a clone is the same address.
pub assume_specification[ <Address as Clone>::clone ](a: &Address) -> (r: Address)
    ensures
        r == *a,
;

/// Ledgers of remaining lifetime at or below which the instance is extended.
pub const INSTANCE_LIFETIME_THRESHOLD: u32 = 86400;

/// Ledgers of lifetime that an extension grants.
pub const INSTANCE_BUMP_AMOUNT: u32 = 2592000;

/// The keys under which the token keeps its state in instance storage.
pub enum DataKey {
    Admin,
    Metadata,
    Balance(Address),
    Allowance(AllowanceDataKey),
    TotalSupply,
}

/// The (owner, spender) pair that an allowance is kept under.
pub struct AllowanceDataKey {
    pub from: Address,
    pub spender: Address,
}

/// An authorised amount and the first ledger at which it no longer applies.
#[derive(Clone, Copy, PartialEq, Eq, Structural, Debug)]
pub struct AllowanceValue {
    pub amount: i128,
    pub expiration_ledger: u32,
}

/// The token's descriptor: name, symbol and decimal precision.
pub struct TokenMetadata {
    pub decimal: u32,
    pub name: soroban_sdk::String,
    pub symbol: soroban_sdk::String,
}

/// The value held under a key of instance storage.
pub enum Entry {
    Admin(Address),
    Meta(TokenMetadata),
    Amount(i128),
    Allowance(AllowanceValue),
}

/// The failures that abort an operation on the ledger state.
#[derive(Clone, Copy, PartialEq, Eq, Structural, Debug)]
pub enum TokenError {
    InsufficientFunds,
    NegativeSupply,
    InsufficientAllowance,
    InvalidExpiration,
    NotSet,
    ArithmeticOverflow,
}

/// The key of the allowance that `from` granted to `spender`.
pub open spec fn allowance_key(from: Address, spender: Address) -> DataKey {
    DataKey::Allowance(AllowanceDataKey { from, spender })
}

/// Whether `v` has the shape that the schema keeps under `k`.
pub open spec fn entry_fits(k: DataKey, v: Entry) -> bool {
    match k {
        DataKey::Admin => v is Admin,
        DataKey::Metadata => v is Meta,
        DataKey::Balance(_) => v is Amount,
        DataKey::Allowance(_) => v is Allowance,
        DataKey::TotalSupply => v is Amount,
    }
}

/// Every stored entry has the shape that its key calls for.
pub open spec fn well_typed(m: Map<DataKey, Entry>) -> bool {
    forall|k: DataKey| #[trigger] m.contains_key(k) ==> entry_fits(k, m[k])
}

/// Storing an entry of the right shape keeps every entry of the right shape.
pub proof fn lemma_insert_fits(m: Map<DataKey, Entry>, k: DataKey, v: Entry)
    requires
        well_typed(m),
        entry_fits(k, v),
    ensures
        well_typed(m.insert(k, v)),
{
    assert forall|j: DataKey| #[trigger] m.insert(k, v).contains_key(j) implies entry_fits(
        j,
        m.insert(k, v)[j],
    ) by {
        if j != k {
            assert(m.contains_key(j));
        }
    }
}

/// The amount stored under `k`, zero where there is none.
pub open spec fn amount_or_zero(m: Map<DataKey, Entry>, k: DataKey) -> i128 {
    if m.contains_key(k) && m[k] is Amount {
        m[k]->Amount_0
    } else {
        0
    }
}

/// The balance of `a`: zero for an address that was never written.
pub open spec fn balance_in(m: Map<DataKey, Entry>, a: Address) -> i128 {
    amount_or_zero(m, DataKey::Balance(a))
}

/// The recorded total supply: zero where it was never written.
pub open spec fn supply_in(m: Map<DataKey, Entry>) -> i128 {
    amount_or_zero(m, DataKey::TotalSupply)
}

/// The allowance record stored for (`from`, `spender`), if any.
pub open spec fn stored_allowance(m: Map<DataKey, Entry>, from: Address, spender: Address) -> Option<
    AllowanceValue,
> {
    let k = allowance_key(from, spender);
    if m.contains_key(k) && m[k] is Allowance {
        Some(m[k]->Allowance_0)
    } else {
        None
    }
}

/// What an allowance record amounts to at ledger `ledger`: an absent record reads as
/// `{0, 0}`, an expired one keeps its expiration and spends nothing.
pub open spec fn allowance_view(stored: Option<AllowanceValue>, ledger: u32) -> AllowanceValue {
    match stored {
        None => AllowanceValue { amount: 0, expiration_ledger: 0 },
        Some(v) => if v.expiration_ledger <= ledger {
            AllowanceValue { amount: 0, expiration_ledger: v.expiration_ledger }
        } else {
            v
        },
    }
}

/// The allowance that `from` granted to `spender`, as seen at ledger `ledger`.
pub fn allowance_at(stored: Option<AllowanceValue>, ledger: u32) -> (r: AllowanceValue)
    ensures
        r == allowance_view(stored, ledger),
{
    match stored {
        None => AllowanceValue { amount: 0, expiration_ledger: 0 },
        Some(v) => {
            if v.expiration_ledger <= ledger {
                AllowanceValue { amount: 0, expiration_ledger: v.expiration_ledger }
            } else {
                v
            }
        },
    }
}

/// The live-until ledger of an entry that lived until `live_until`, after an extension
/// by `extend_to` ledgers with threshold `threshold` at ledger `ledger`, where the
/// network allows no later live-until ledger than `cap`.
pub open spec fn extended_live_until(
    live_until: u32,
    ledger: u32,
    cap: u32,
    threshold: u32,
    extend_to: u32,
) -> int {
    if live_until - ledger > threshold {
        live_until as int
    } else {
        let target = if ledger + extend_to <= cap {
            ledger + extend_to
        } else {
            cap as int
        };
        if target > live_until {
            target
        } else {
            live_until as int
        }
    }
}

/// Asks that the contract instance be kept alive: where its remaining lifetime is at
/// or below `INSTANCE_LIFETIME_THRESHOLD` ledgers, it is extended to
/// `INSTANCE_BUMP_AMOUNT` ledgers past the current one (as far as the network allows);
/// above that it is left as it is. The stored entries are not touched.
pub fn extend_instance_ttl(e: &mut Env)
    ensures
        instance_entries(*final(e)) == instance_entries(*old(e)),
        instance_live_until(*final(e)) >= instance_live_until(*old(e)),
        exists|ledger: u32, cap: u32|
            ledger <= instance_live_until(*old(e)) && instance_live_until(*final(e))
                == #[trigger] extended_live_until(
                instance_live_until(*old(e)),
                ledger,
                cap,
                INSTANCE_LIFETIME_THRESHOLD,
                INSTANCE_BUMP_AMOUNT,
            ),
{
    extend_ttl(e, INSTANCE_LIFETIME_THRESHOLD, INSTANCE_BUMP_AMOUNT);
}

/// Above the threshold an extension leaves the lifetime as it is; at or below it, the
/// lifetime reaches `ledger + extend_to` wherever the network's maximum allows that.
pub proof fn lemma_extension_policy(live_until: u32, ledger: u32, cap: u32, threshold: u32, extend_to: u32)
    requires
        ledger <= live_until,
    ensures
        live_until - ledger > threshold ==> extended_live_until(live_until, ledger, cap, threshold, extend_to)
            == live_until,
        live_until - ledger <= threshold && ledger + extend_to <= cap ==> extended_live_until(
            live_until,
            ledger,
            cap,
            threshold,
            extend_to,
        ) >= ledger + extend_to,
        extended_live_until(live_until, ledger, cap, threshold, extend_to) >= live_until,
{
}

} // verus!
