use soroban_sdk::testutils::storage::Persistent;
use soroban_sdk::testutils::{ContractFunctionSet, EnvTestConfig, Ledger};
use soroban_sdk::{Env, String as HostString, Symbol, Val};
use trustbridge_storage::storage::{
    add_to_index, compact_chunked_index, get_admin, get_count, get_last_action,
    get_pending_reverify, get_record, get_registered_paginated_internal, remove_from_index,
    remove_record, set_count, set_last_action, set_pending_reverify, set_record, set_role,
    ContractError, ContributorRecord, Role, DEFAULT_PAGE_LIMIT, MAX_PAGE_LIMIT, TTL_BUMP,
};
use trustbridge_storage::value::Address;

struct Registry;

impl ContractFunctionSet for Registry {
    fn call(&self, _func: &str, _env: Env, _args: &[Val]) -> Option<Val> {
        None
    }
}

fn run(f: impl FnOnce(&mut Env)) {
    let env = Env::new_with_config(EnvTestConfig { capture_snapshot_at_drop: false });
    let id = env.register(Registry, ());
    let mut inner = env.clone();
    env.as_contract(&id, || f(&mut inner));
}

fn name(i: u32) -> Vec<u8> {
    format!("user{i}").into_bytes()
}

fn record(i: u32) -> ContributorRecord {
    ContributorRecord {
        stellar_address: Address::Contract([i as u8; 32]),
        registered_at: i,
        verified: false,
    }
}

fn initialize(env: &Env) {
    let admin = env.current_contract_address();
    env.storage().instance().set(&Symbol::new(env, "admin"), &admin);
}

fn register(env: &mut Env, n: u32) {
    for i in 0..n {
        set_record(env, &name(i), &record(i));
        add_to_index(env, &name(i));
        let count = get_count(env);
        set_count(env, count + 1);
    }
}

#[test]
fn export_needs_an_admin() {
    run(|env| {
        register(env, 1);
        assert_eq!(
            get_registered_paginated_internal(env, 0, 0),
            Err(ContractError::NotInitialized)
        );
    });
}

#[test]
fn an_empty_registry_exports_nothing() {
    run(|env| {
        initialize(env);
        let page = get_registered_paginated_internal(env, 0, 0).unwrap();
        assert!(page.records.is_empty());
        assert_eq!(page.next_cursor, None);
        assert_eq!(page.total, 0);
        assert!(!page.has_more);
    });
}

#[test]
fn a_page_pairs_usernames_with_records() {
    run(|env| {
        initialize(env);
        register(env, 3);
        let page = get_registered_paginated_internal(env, 1, 1).unwrap();
        assert_eq!(page.records, [(name(1), record(1))]);
        assert_eq!(page.next_cursor, Some(2));
        assert_eq!(page.total, 3);
        assert!(page.has_more);
        let page = get_registered_paginated_internal(env, 2, 1).unwrap();
        assert_eq!(page.records, [(name(2), record(2))]);
        assert_eq!(page.next_cursor, None);
        assert!(!page.has_more);
    });
}

#[test]
fn export_limits_default_and_are_clamped() {
    run(|env| {
        initialize(env);
        register(env, MAX_PAGE_LIMIT + 5);
        let page = get_registered_paginated_internal(env, 0, 0).unwrap();
        assert_eq!(page.records.len(), DEFAULT_PAGE_LIMIT as usize);
        assert_eq!(page.next_cursor, Some(DEFAULT_PAGE_LIMIT));
        let page = get_registered_paginated_internal(env, 0, u32::MAX).unwrap();
        assert_eq!(page.records.len(), MAX_PAGE_LIMIT as usize);
        assert_eq!(page.next_cursor, Some(MAX_PAGE_LIMIT));
        let page = get_registered_paginated_internal(env, MAX_PAGE_LIMIT, u32::MAX).unwrap();
        assert_eq!(page.records.len(), 5);
        assert_eq!(page.next_cursor, None);
        let page = get_registered_paginated_internal(env, MAX_PAGE_LIMIT + 5, 0).unwrap();
        assert!(page.records.is_empty());
        let page = get_registered_paginated_internal(env, u32::MAX, u32::MAX).unwrap();
        assert!(page.records.is_empty());
        assert_eq!(page.next_cursor, None);
        assert_eq!(page.total, MAX_PAGE_LIMIT + 5);
    });
}

#[test]
fn following_the_cursors_exports_every_record_once() {
    run(|env| {
        initialize(env);
        register(env, 23);
        let mut seen = Vec::new();
        let mut cursor = Some(0);
        while let Some(c) = cursor {
            let page = get_registered_paginated_internal(env, c, 7).unwrap();
            assert_eq!(page.has_more, page.next_cursor.is_some());
            seen.extend(page.records);
            cursor = page.next_cursor;
        }
        let expected: Vec<_> = (0..23).map(|i| (name(i), record(i))).collect();
        assert_eq!(seen, expected);
    });
}

#[test]
fn usernames_without_a_record_are_passed_over() {
    run(|env| {
        initialize(env);
        register(env, 4);
        remove_record(env, &name(1));
        let page = get_registered_paginated_internal(env, 0, 3).unwrap();
        assert_eq!(page.records, [(name(0), record(0)), (name(2), record(2))]);
        assert_eq!(page.next_cursor, Some(3));
    });
}

#[test]
fn the_total_count_bounds_the_cursor() {
    run(|env| {
        initialize(env);
        register(env, 4);
        set_count(env, 2);
        let page = get_registered_paginated_internal(env, 1, 0).unwrap();
        assert_eq!(page.records.len(), 3);
        assert_eq!(page.next_cursor, None);
        let page = get_registered_paginated_internal(env, 2, 0).unwrap();
        assert!(page.records.is_empty());
        assert_eq!(page.total, 2);
        // A count beyond the index gives an empty page without a successor.
        set_count(env, 9);
        let page = get_registered_paginated_internal(env, 6, 0).unwrap();
        assert!(page.records.is_empty());
        assert_eq!(page.next_cursor, None);
    });
}

#[test]
fn deregistration_takes_the_record_out_of_the_export() {
    run(|env| {
        initialize(env);
        register(env, 3);
        remove_record(env, &name(1));
        remove_from_index(env, &name(1));
        set_count(env, 2);
        let page = get_registered_paginated_internal(env, 0, 0).unwrap();
        assert_eq!(page.records, [(name(0), record(0)), (name(2), record(2))]);
    });
}

#[test]
fn compaction_changes_no_page() {
    run(|env| {
        initialize(env);
        register(env, 60);
        for i in 10..30 {
            remove_record(env, &name(i));
            remove_from_index(env, &name(i));
        }
        set_count(env, 40);
        let before = get_registered_paginated_internal(env, 5, 20).unwrap();
        compact_chunked_index(env);
        assert_eq!(get_registered_paginated_internal(env, 5, 20).unwrap(), before);
    });
}

#[test]
fn export_renews_the_records_of_its_page() {
    run(|env| {
        initialize(env);
        register(env, 2);
        env.ledger().set_sequence_number(TTL_BUMP - 10);
        get_registered_paginated_internal(env, 1, 0).unwrap();
        let key = |username: &str| (Symbol::new(env, "reg"), HostString::from_str(env, username));
        assert_eq!(env.storage().persistent().get_ttl(&key("user1")), TTL_BUMP);
        assert_eq!(env.storage().persistent().get_ttl(&key("user0")), 10);
    });
}

#[test]
fn reading_a_page_changes_no_page() {
    run(|env| {
        initialize(env);
        register(env, 30);
        let first = get_registered_paginated_internal(env, 0, 10).unwrap();
        let second = get_registered_paginated_internal(env, 10, 10).unwrap();
        assert_eq!(get_registered_paginated_internal(env, 0, 10).unwrap(), first);
        assert_eq!(get_registered_paginated_internal(env, 10, 10).unwrap(), second);
    });
}

#[test]
fn no_operation_changes_the_admin() {
    run(|env| {
        initialize(env);
        let admin = get_admin(env);
        register(env, 3);
        set_role(env, &Address::Account([1; 32]), &Role::Admin);
        remove_record(env, &name(0));
        remove_from_index(env, &name(0));
        compact_chunked_index(env);
        get_registered_paginated_internal(env, 0, 0).unwrap();
        assert_eq!(get_admin(env), admin);
    });
}

#[test]
fn entries_of_one_username_do_not_touch_each_other() {
    run(|env| {
        set_record(env, b"alice", &record(1));
        set_pending_reverify(env, b"alice", true);
        set_last_action(env, b"alice", 9);
        assert_eq!(get_record(env, b"alice"), Some(record(1)));
        assert!(get_pending_reverify(env, b"alice"));
        remove_record(env, b"alice");
        assert!(get_pending_reverify(env, b"alice"));
        assert_eq!(get_last_action(env, b"alice"), 9);
    });
}

#[test]
fn the_export_is_read_in_as_many_calls_as_there_are_pages() {
    run(|env| {
        initialize(env);
        let calls = |env: &mut Env, limit: u32| {
            let mut n = 0;
            let mut cursor = Some(0);
            while let Some(c) = cursor {
                cursor = get_registered_paginated_internal(env, c, limit).unwrap().next_cursor;
                n += 1;
            }
            n
        };
        assert_eq!(calls(env, 7), 1);
        register(env, 21);
        assert_eq!(calls(env, 7), 3);
        assert_eq!(calls(env, 8), 3);
        assert_eq!(calls(env, 10), 3);
        assert_eq!(calls(env, 20), 2);
        assert_eq!(calls(env, 21), 1);
        assert_eq!(calls(env, 0), 2);
        assert_eq!(calls(env, u32::MAX), 1);
    });
}
