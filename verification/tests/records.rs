use soroban_sdk::testutils::storage::Persistent;
use soroban_sdk::testutils::{ContractFunctionSet, EnvTestConfig, Ledger};
use soroban_sdk::{Env, IntoVal, Map as HostMap, String as HostString, Symbol, TryFromVal, Val};
use trustbridge_storage::storage::{
    build_stats, extend_record_ttl, get_admin, get_count, get_record, get_stats,
    get_verified_count, has_record, remove_record, require_initialized, set_count, set_record,
    set_verified_count, ContractError, ContributorRecord, Stats, LEDGERS_PER_DAY, TTL_BUMP,
    TTL_THRESHOLD,
};
use trustbridge_storage::value::Address;

struct Registry;

impl ContractFunctionSet for Registry {
    fn call(&self, _func: &str, _env: Env, _args: &[Val]) -> Option<Val> {
        None
    }
}

fn run(f: impl FnOnce(&mut Env)) {
    let env = Env::new_with_config(EnvTestConfig { capture_snapshot_at_drop: false });
    let id = env.register(Registry, ());
    let mut inner = env.clone();
    env.as_contract(&id, || f(&mut inner));
}

const MIN_TTL: u32 = 4096;

fn record(seed: u8) -> ContributorRecord {
    ContributorRecord {
        stellar_address: Address::Account([seed; 32]),
        registered_at: 1_700_000_000,
        verified: seed % 2 == 0,
    }
}

fn set_admin(env: &Env, key: [u8; 32]) {
    let contract = soroban_sdk::xdr::ScAddress::Contract(soroban_sdk::xdr::ContractId(
        soroban_sdk::xdr::Hash(key),
    ));
    let admin = soroban_sdk::Address::try_from_val(env, &contract).unwrap();
    env.storage().instance().set(&Symbol::new(env, "admin"), &admin);
}

fn ttl(env: &Env, username: &str) -> u32 {
    let key = (Symbol::new(env, "reg"), HostString::from_str(env, username));
    env.storage().persistent().get_ttl(&key)
}

#[test]
fn no_admin_before_initialization() {
    run(|env| {
        assert_eq!(require_initialized(env), Err(ContractError::NotInitialized));
        assert_eq!(get_admin(env), Err(ContractError::NotInitialized));
    });
}

#[test]
fn admin_is_read() {
    run(|env| {
        set_admin(env, [7; 32]);
        assert_eq!(require_initialized(env), Ok(()));
        assert_eq!(get_admin(env), Ok(Address::Contract([7; 32])));
    });
}

#[test]
fn records_are_read_back_and_removed() {
    run(|env| {
        assert_eq!(get_record(env, b"alice"), None);
        assert!(!has_record(env, b"alice"));
        set_record(env, b"alice", &record(1));
        set_record(env, b"bob", &record(2));
        assert_eq!(get_record(env, b"alice"), Some(record(1)));
        assert_eq!(get_record(env, b"bob"), Some(record(2)));
        assert!(has_record(env, b"alice"));
        set_record(env, b"alice", &record(4));
        assert_eq!(get_record(env, b"alice"), Some(record(4)));
        remove_record(env, b"alice");
        assert_eq!(get_record(env, b"alice"), None);
        assert!(!has_record(env, b"alice"));
        assert_eq!(get_record(env, b"bob"), Some(record(2)));
        remove_record(env, b"nobody");
    });
}

#[test]
fn records_of_contracts_are_read_back() {
    run(|env| {
        let owned = ContributorRecord {
            stellar_address: Address::Contract([9; 32]),
            registered_at: u32::MAX,
            verified: true,
        };
        set_record(env, b"", &owned);
        assert_eq!(get_record(env, b""), Some(owned));
    });
}

#[test]
fn a_record_is_laid_out_by_field_name() {
    run(|env| {
        set_record(env, b"alice", &record(2));
        let key = (Symbol::new(env, "reg"), HostString::from_str(env, "alice"));
        let fields: HostMap<Symbol, Val> = env.storage().persistent().get(&key).unwrap();
        assert_eq!(fields.len(), 3);
        let field = |name: &str| fields.get(Symbol::new(env, name)).unwrap();
        assert_eq!(u32::try_from_val(env, &field("registered_at")), Ok(1_700_000_000));
        assert_eq!(bool::try_from_val(env, &field("verified")), Ok(true));
        let owner = soroban_sdk::Address::try_from_val(env, &field("stellar_address")).unwrap();
        assert!(owner.to_string().to_string().starts_with('G'));
    });
}

#[test]
fn a_record_is_read_by_the_names_of_its_fields() {
    run(|env| {
        let owner = env.current_contract_address();
        let mut fields: HostMap<Symbol, Val> = HostMap::new(env);
        fields.set(Symbol::new(env, "registered_at"), 5u32.into_val(env));
        fields.set(Symbol::new(env, "stellar_address"), owner.into_val(env));
        fields.set(Symbol::new(env, "verified"), true.into_val(env));
        fields.set(Symbol::new(env, "zone"), 1u32.into_val(env));
        let key = (Symbol::new(env, "reg"), HostString::from_str(env, "alice"));
        env.storage().persistent().set(&key, &fields);
        let read = get_record(env, b"alice").unwrap();
        assert_eq!(read.registered_at, 5);
        assert!(read.verified);
    });
}

#[test]
fn extension_tells_whether_the_record_is_there() {
    run(|env| {
        assert!(!extend_record_ttl(env, b"alice"));
        set_record(env, b"alice", &record(1));
        assert!(extend_record_ttl(env, b"alice"));
        assert_eq!(get_record(env, b"alice"), Some(record(1)));
    });
}

#[test]
fn lifetimes_follow_the_policy() {
    assert_eq!(LEDGERS_PER_DAY, 17_280);
    assert_eq!(TTL_THRESHOLD, 518_400);
    assert_eq!(TTL_BUMP, 1_555_200);
    run(|env| {
        assert_eq!(env.ledger().get().min_persistent_entry_ttl, MIN_TTL);
        set_record(env, b"alice", &record(1));
        assert_eq!(ttl(env, "alice"), TTL_BUMP);
        // More than the threshold is left: no renewal.
        env.ledger().set_sequence_number(1000);
        get_record(env, b"alice");
        assert_eq!(ttl(env, "alice"), TTL_BUMP - 1000);
        env.ledger().set_sequence_number(TTL_BUMP - TTL_THRESHOLD - 1);
        has_record(env, b"alice");
        assert_eq!(ttl(env, "alice"), TTL_THRESHOLD + 1);
        // At the threshold: renewed by any access.
        env.ledger().set_sequence_number(TTL_BUMP - TTL_THRESHOLD);
        assert_eq!(ttl(env, "alice"), TTL_THRESHOLD);
        extend_record_ttl(env, b"alice");
        assert_eq!(ttl(env, "alice"), TTL_BUMP);
        get_record(env, b"alice");
        assert_eq!(ttl(env, "alice"), TTL_BUMP);
    });
}

#[test]
fn a_read_renews_only_its_own_record() {
    run(|env| {
        set_record(env, b"alice", &record(1));
        set_record(env, b"bob", &record(2));
        env.ledger().set_sequence_number(TTL_BUMP - 10);
        get_record(env, b"alice");
        assert_eq!(ttl(env, "alice"), TTL_BUMP);
        assert_eq!(ttl(env, "bob"), 10);
    });
}

#[test]
fn the_network_limits_lifetimes() {
    run(|env| {
        env.ledger().set_max_entry_ttl(600_000);
        set_record(env, b"alice", &record(1));
        assert_eq!(ttl(env, "alice"), 600_000);
    });
}

#[test]
fn counters_start_at_zero_and_are_read_back() {
    run(|env| {
        assert_eq!(get_count(env), 0);
        assert_eq!(get_verified_count(env), 0);
        set_count(env, 12);
        set_verified_count(env, 5);
        assert_eq!(get_count(env), 12);
        assert_eq!(get_verified_count(env), 5);
        assert_eq!(get_stats(env), Stats { total: 12, verified: 5 });
        assert_eq!(build_stats(3, 1), Stats { total: 3, verified: 1 });
    });
}
