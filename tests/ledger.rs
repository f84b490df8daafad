use soroban_contract::admin::{read_administrator, write_administrator};
use soroban_contract::allowance::{
    check_expiration, read_allowance, spend_allowance, spend_from, write_allowance,
};
use soroban_contract::balance::{
    read_balance, read_total_supply, receive_balance, spend_balance, update_total_supply,
};
use soroban_contract::metadata::{
    read_decimal, read_metadata, read_name, read_symbol, write_metadata,
};
use soroban_contract::storage_types::{
    allowance_at, extend_instance_ttl, AllowanceValue, TokenError, TokenMetadata,
    INSTANCE_BUMP_AMOUNT, INSTANCE_LIFETIME_THRESHOLD,
};
use soroban_sdk::testutils::{
    Address as _, ContractFunctionSet, Deployer, EnvTestConfig, Ledger,
};
use soroban_sdk::{Address, Env, String, Val};

struct Bare;

impl ContractFunctionSet for Bare {
    fn call(&self, _func: &str, _env: Env, _args: &[Val]) -> Option<Val> {
        None
    }
}

fn setup() -> (Env, Address) {
    let env = Env::new_with_config(EnvTestConfig { capture_snapshot_at_drop: false });
    let id = env.register(Bare, ());
    env.ledger().set_sequence_number(1000);
    (env, id)
}

fn run<T>(env: &Env, id: &Address, f: impl FnOnce(&mut Env) -> T) -> T {
    env.as_contract(id, || {
        let mut e = env.clone();
        f(&mut e)
    })
}

fn metadata(env: &Env, name: &str, symbol: &str, decimal: u32) -> TokenMetadata {
    TokenMetadata {
        decimal,
        name: String::from_str(env, name),
        symbol: String::from_str(env, symbol),
    }
}

#[test]
fn fresh_address_has_zero_balance() {
    let (env, id) = setup();
    let a = Address::generate(&env);
    let b = Address::generate(&env);
    run(&env, &id, |e| {
        assert_eq!(read_balance(e, a.clone()), 0);
        receive_balance(e, b.clone(), 5).unwrap();
        assert_eq!(read_balance(e, a.clone()), 0);
        assert_eq!(read_total_supply(e), 0);
    });
}

#[test]
fn credit_then_debit_changes_balance() {
    let (env, id) = setup();
    let a = Address::generate(&env);
    run(&env, &id, |e| {
        assert_eq!(receive_balance(e, a.clone(), 100), Ok(()));
        assert_eq!(read_balance(e, a.clone()), 100);
        assert_eq!(receive_balance(e, a.clone(), 23), Ok(()));
        assert_eq!(read_balance(e, a.clone()), 123);
        assert_eq!(spend_balance(e, a.clone(), 23), Ok(()));
        assert_eq!(read_balance(e, a.clone()), 100);
        assert_eq!(spend_balance(e, a.clone(), 100), Ok(()));
        assert_eq!(read_balance(e, a.clone()), 0);
    });
}

#[test]
fn credit_overflow_writes_nothing() {
    let (env, id) = setup();
    let a = Address::generate(&env);
    run(&env, &id, |e| {
        receive_balance(e, a.clone(), i128::MAX).unwrap();
        assert_eq!(receive_balance(e, a.clone(), 1), Err(TokenError::ArithmeticOverflow));
        assert_eq!(read_balance(e, a.clone()), i128::MAX);
    });
}

#[test]
fn debit_overflow_writes_nothing() {
    let (env, id) = setup();
    let a = Address::generate(&env);
    run(&env, &id, |e| {
        receive_balance(e, a.clone(), 10).unwrap();
        assert_eq!(spend_balance(e, a.clone(), i128::MIN), Err(TokenError::ArithmeticOverflow));
        assert_eq!(read_balance(e, a.clone()), 10);
    });
}

#[test]
fn overdraft_fails_and_keeps_balance() {
    let (env, id) = setup();
    let a = Address::generate(&env);
    run(&env, &id, |e| {
        receive_balance(e, a.clone(), 50).unwrap();
        assert_eq!(spend_balance(e, a.clone(), 51), Err(TokenError::InsufficientFunds));
        assert_eq!(read_balance(e, a.clone()), 50);
        let fresh = Address::generate(&env);
        assert_eq!(spend_balance(e, fresh.clone(), 1), Err(TokenError::InsufficientFunds));
        assert_eq!(read_balance(e, fresh), 0);
    });
}

#[test]
fn total_supply_adjustments() {
    let (env, id) = setup();
    run(&env, &id, |e| {
        assert_eq!(read_total_supply(e), 0);
        assert_eq!(update_total_supply(e, 100), Ok(()));
        assert_eq!(read_total_supply(e), 100);
        assert_eq!(update_total_supply(e, -40), Ok(()));
        assert_eq!(read_total_supply(e), 60);
        assert_eq!(update_total_supply(e, -61), Err(TokenError::NegativeSupply));
        assert_eq!(read_total_supply(e), 60);
        assert_eq!(update_total_supply(e, i128::MAX), Err(TokenError::ArithmeticOverflow));
        assert_eq!(read_total_supply(e), 60);
        assert_eq!(update_total_supply(e, -60), Ok(()));
        assert_eq!(read_total_supply(e), 0);
    });
}

#[test]
fn supply_tracks_sum_of_balances() {
    let (env, id) = setup();
    let a = Address::generate(&env);
    let b = Address::generate(&env);
    let c = Address::generate(&env);
    run(&env, &id, |e| {
        let steps: [(&Address, i128); 6] = [(&a, 70), (&b, 30), (&a, -20), (&c, 5), (&b, -30), (&c, 15)];
        for (who, delta) in steps.iter() {
            if *delta >= 0 {
                receive_balance(e, (*who).clone(), *delta).unwrap();
            } else {
                spend_balance(e, (*who).clone(), -*delta).unwrap();
            }
            update_total_supply(e, *delta).unwrap();
            let sum = read_balance(e, a.clone()) + read_balance(e, b.clone()) + read_balance(e, c.clone());
            assert_eq!(sum, read_total_supply(e));
        }
        assert_eq!(read_total_supply(e), 70);
    });
}

#[test]
fn past_expiration_rejected_future_accepted() {
    let (env, id) = setup();
    let o = Address::generate(&env);
    let s = Address::generate(&env);
    run(&env, &id, |e| {
        assert_eq!(
            write_allowance(e, o.clone(), s.clone(), 100, 1000),
            Err(TokenError::InvalidExpiration)
        );
        assert_eq!(
            write_allowance(e, o.clone(), s.clone(), 100, 999),
            Err(TokenError::InvalidExpiration)
        );
        assert_eq!(
            read_allowance(e, o.clone(), s.clone()),
            AllowanceValue { amount: 0, expiration_ledger: 0 }
        );
        assert_eq!(write_allowance(e, o.clone(), s.clone(), 100, 1001), Ok(()));
        assert_eq!(
            read_allowance(e, o.clone(), s.clone()),
            AllowanceValue { amount: 100, expiration_ledger: 1001 }
        );
    });
}

#[test]
fn zero_amount_may_expire_in_the_past() {
    let (env, id) = setup();
    let o = Address::generate(&env);
    let s = Address::generate(&env);
    run(&env, &id, |e| {
        write_allowance(e, o.clone(), s.clone(), 30, 2000).unwrap();
        assert_eq!(write_allowance(e, o.clone(), s.clone(), 0, 10), Ok(()));
        assert_eq!(
            read_allowance(e, o.clone(), s.clone()),
            AllowanceValue { amount: 0, expiration_ledger: 10 }
        );
    });
}

#[test]
fn allowance_lapses_lazily() {
    let (env, id) = setup();
    let o = Address::generate(&env);
    let s = Address::generate(&env);
    run(&env, &id, |e| {
        write_allowance(e, o.clone(), s.clone(), 100, 1500).unwrap();
    });
    env.ledger().set_sequence_number(1499);
    run(&env, &id, |e| {
        assert_eq!(
            read_allowance(e, o.clone(), s.clone()),
            AllowanceValue { amount: 100, expiration_ledger: 1500 }
        );
    });
    env.ledger().set_sequence_number(1500);
    run(&env, &id, |e| {
        assert_eq!(
            read_allowance(e, o.clone(), s.clone()),
            AllowanceValue { amount: 0, expiration_ledger: 1500 }
        );
    });
    env.ledger().set_sequence_number(1000);
    run(&env, &id, |e| {
        assert_eq!(
            read_allowance(e, o.clone(), s.clone()),
            AllowanceValue { amount: 100, expiration_ledger: 1500 }
        );
    });
}

#[test]
fn overspend_fails_and_exact_spend_empties() {
    let (env, id) = setup();
    let o = Address::generate(&env);
    let s = Address::generate(&env);
    run(&env, &id, |e| {
        write_allowance(e, o.clone(), s.clone(), 40, 1100).unwrap();
        assert_eq!(spend_allowance(e, o.clone(), s.clone(), 41), Err(TokenError::InsufficientAllowance));
        assert_eq!(
            read_allowance(e, o.clone(), s.clone()),
            AllowanceValue { amount: 40, expiration_ledger: 1100 }
        );
        assert_eq!(spend_allowance(e, o.clone(), s.clone(), 15), Ok(()));
        assert_eq!(
            read_allowance(e, o.clone(), s.clone()),
            AllowanceValue { amount: 25, expiration_ledger: 1100 }
        );
        assert_eq!(spend_allowance(e, o.clone(), s.clone(), 25), Ok(()));
        assert_eq!(
            read_allowance(e, o.clone(), s.clone()),
            AllowanceValue { amount: 0, expiration_ledger: 1100 }
        );
    });
}

#[test]
fn expired_allowance_cannot_be_spent() {
    let (env, id) = setup();
    let o = Address::generate(&env);
    let s = Address::generate(&env);
    run(&env, &id, |e| {
        write_allowance(e, o.clone(), s.clone(), 40, 1100).unwrap();
    });
    env.ledger().set_sequence_number(1200);
    run(&env, &id, |e| {
        assert_eq!(spend_allowance(e, o.clone(), s.clone(), 1), Err(TokenError::InsufficientAllowance));
        assert_eq!(spend_allowance(e, o.clone(), s.clone(), 0), Ok(()));
    });
    env.ledger().set_sequence_number(1000);
    run(&env, &id, |e| {
        assert_eq!(
            read_allowance(e, o.clone(), s.clone()),
            AllowanceValue { amount: 0, expiration_ledger: 1100 }
        );
    });
}

#[test]
fn spend_overflow_is_reported() {
    let (env, id) = setup();
    let o = Address::generate(&env);
    let s = Address::generate(&env);
    run(&env, &id, |e| {
        write_allowance(e, o.clone(), s.clone(), 1, 1100).unwrap();
        assert_eq!(
            spend_allowance(e, o.clone(), s.clone(), i128::MIN),
            Err(TokenError::ArithmeticOverflow)
        );
        assert_eq!(
            read_allowance(e, o.clone(), s.clone()),
            AllowanceValue { amount: 1, expiration_ledger: 1100 }
        );
    });
}

#[test]
fn allowances_are_kept_per_pair() {
    let (env, id) = setup();
    let o = Address::generate(&env);
    let s = Address::generate(&env);
    run(&env, &id, |e| {
        write_allowance(e, o.clone(), s.clone(), 9, 1100).unwrap();
        assert_eq!(
            read_allowance(e, s.clone(), o.clone()),
            AllowanceValue { amount: 0, expiration_ledger: 0 }
        );
    });
}

#[test]
fn allowance_at_each_state() {
    let v = AllowanceValue { amount: 100, expiration_ledger: 50 };
    assert_eq!(allowance_at(None, 10), AllowanceValue { amount: 0, expiration_ledger: 0 });
    assert_eq!(allowance_at(Some(v), 49), v);
    assert_eq!(allowance_at(Some(v), 50), AllowanceValue { amount: 0, expiration_ledger: 50 });
    assert_eq!(allowance_at(Some(v), 51), AllowanceValue { amount: 0, expiration_ledger: 50 });
}

#[test]
fn check_expiration_rules() {
    assert_eq!(check_expiration(100, 10, 10), Err(TokenError::InvalidExpiration));
    assert_eq!(check_expiration(100, 11, 10), Ok(()));
    assert_eq!(check_expiration(0, 0, 10), Ok(()));
    assert_eq!(check_expiration(-5, 3, 10), Ok(()));
}

#[test]
fn spend_from_outcomes() {
    let v = AllowanceValue { amount: 40, expiration_ledger: 7 };
    assert_eq!(spend_from(v, 41), Err(TokenError::InsufficientAllowance));
    assert_eq!(spend_from(v, 40), Ok(AllowanceValue { amount: 0, expiration_ledger: 7 }));
    assert_eq!(spend_from(v, 12), Ok(AllowanceValue { amount: 28, expiration_ledger: 7 }));
    assert_eq!(spend_from(v, i128::MIN), Err(TokenError::ArithmeticOverflow));
}

#[test]
fn metadata_missing_then_written() {
    let (env, id) = setup();
    run(&env, &id, |e| {
        assert!(matches!(read_metadata(e), Err(TokenError::NotSet)));
        assert_eq!(read_name(e), Err(TokenError::NotSet));
        assert_eq!(read_symbol(e), Err(TokenError::NotSet));
        assert_eq!(read_decimal(e), Err(TokenError::NotSet));
        write_metadata(e, metadata(&env, "Token", "TKN", 7));
        assert_eq!(read_decimal(e), Ok(7));
        assert_eq!(read_name(e), Ok(String::from_str(&env, "Token")));
        assert_eq!(read_symbol(e), Ok(String::from_str(&env, "TKN")));
        write_metadata(e, metadata(&env, "Other", "OTH", 2));
        assert_eq!(read_decimal(e), Ok(2));
        assert_eq!(read_name(e), Ok(String::from_str(&env, "Other")));
        assert_eq!(read_symbol(e), Ok(String::from_str(&env, "OTH")));
        let md = read_metadata(e).unwrap();
        assert_eq!(md.decimal, 2);
    });
}

#[test]
fn administrator_missing_then_written() {
    let (env, id) = setup();
    let admin = Address::generate(&env);
    let next = Address::generate(&env);
    run(&env, &id, |e| {
        assert_eq!(read_administrator(e), Err(TokenError::NotSet));
        write_administrator(e, &admin);
        assert_eq!(read_administrator(e), Ok(admin.clone()));
        write_administrator(e, &next);
        assert_eq!(read_administrator(e), Ok(next.clone()));
    });
}

#[test]
fn extend_lifetime_leaves_state() {
    let (env, id) = setup();
    let a = Address::generate(&env);
    assert_eq!(INSTANCE_LIFETIME_THRESHOLD, 86400);
    assert_eq!(INSTANCE_BUMP_AMOUNT, 2592000);
    run(&env, &id, |e| {
        receive_balance(e, a.clone(), 8).unwrap();
        extend_instance_ttl(e);
        assert_eq!(read_balance(e, a.clone()), 8);
    });
}

#[test]
fn mint_approve_spend_transfer_scenario() {
    let (env, id) = setup();
    let a = Address::generate(&env);
    let b = Address::generate(&env);
    run(&env, &id, |e| {
        let tick: u32 = 1000;
        assert_eq!(read_balance(e, a.clone()), 0);
        receive_balance(e, a.clone(), 100).unwrap();
        update_total_supply(e, 100).unwrap();
        assert_eq!(read_balance(e, a.clone()), 100);
        assert_eq!(read_total_supply(e), 100);
        write_allowance(e, a.clone(), b.clone(), 40, tick + 1000).unwrap();
        assert_eq!(
            read_allowance(e, a.clone(), b.clone()),
            AllowanceValue { amount: 40, expiration_ledger: tick + 1000 }
        );
        spend_allowance(e, a.clone(), b.clone(), 40).unwrap();
        assert_eq!(
            read_allowance(e, a.clone(), b.clone()),
            AllowanceValue { amount: 0, expiration_ledger: tick + 1000 }
        );
        spend_balance(e, a.clone(), 40).unwrap();
        receive_balance(e, b.clone(), 40).unwrap();
        assert_eq!(read_balance(e, a.clone()), 60);
        assert_eq!(read_balance(e, b.clone()), 40);
        assert_eq!(read_total_supply(e), 100);
    });
}

#[test]
fn extend_lifetime_bumps_low_instance() {
    let (env, id) = setup();
    let before = env.deployer().get_contract_instance_ttl(&id);
    assert!(before <= INSTANCE_LIFETIME_THRESHOLD);
    run(&env, &id, |e| extend_instance_ttl(e));
    assert_eq!(env.deployer().get_contract_instance_ttl(&id), INSTANCE_BUMP_AMOUNT);
}

#[test]
fn extend_lifetime_above_threshold_is_noop() {
    let (env, id) = setup();
    run(&env, &id, |e| extend_instance_ttl(e));
    env.ledger().set_sequence_number(1000 + 10);
    let before = env.deployer().get_contract_instance_ttl(&id);
    assert_eq!(before, INSTANCE_BUMP_AMOUNT - 10);
    run(&env, &id, |e| extend_instance_ttl(e));
    assert_eq!(env.deployer().get_contract_instance_ttl(&id), before);
}
