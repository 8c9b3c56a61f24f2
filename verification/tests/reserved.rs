use soroban_sdk::testutils::{ContractFunctionSet, EnvTestConfig};
use soroban_sdk::{Env, Val};
use trustbridge_storage::storage::{
    add_to_reserved, get_reserved_list, is_reserved, remove_from_reserved, set_reserved_list,
    ContractError, MAX_RESERVED,
};
use trustbridge_storage::usernames::{eq_ignore_ascii_case, same_username, UsernameList};

struct Registry;

impl ContractFunctionSet for Registry {
    fn call(&self, _func: &str, _env: Env, _args: &[Val]) -> Option<Val> {
        None
    }
}

fn run(f: impl FnOnce(&mut Env)) {
    let env = Env::new_with_config(EnvTestConfig { capture_snapshot_at_drop: false });
    let id = env.register(Registry, ());
    let mut inner = env.clone();
    env.as_contract(&id, || f(&mut inner));
}

#[test]
fn nothing_is_reserved_at_first() {
    run(|env| {
        assert_eq!(get_reserved_list(env).len(), 0);
        assert!(!is_reserved(env, b"admin"));
        assert_eq!(remove_from_reserved(env, b"admin"), Err(ContractError::NotReserved));
    });
}

#[test]
fn reservations_disregard_case() {
    run(|env| {
        assert_eq!(add_to_reserved(env, b"Admin"), Ok(()));
        assert!(is_reserved(env, b"Admin"));
        assert!(is_reserved(env, b"admin"));
        assert!(is_reserved(env, b"ADMIN"));
        assert!(!is_reserved(env, b"admin1"));
        assert!(!is_reserved(env, b"admi"));
        assert_eq!(add_to_reserved(env, b"aDMIN"), Err(ContractError::AlreadyReserved));
        assert_eq!(get_reserved_list(env).len(), 1);
        assert_eq!(get_reserved_list(env).get(0), Some(b"Admin".to_vec()));
    });
}

#[test]
fn removal_frees_the_name_in_any_case() {
    run(|env| {
        add_to_reserved(env, b"root").unwrap();
        add_to_reserved(env, b"Admin").unwrap();
        add_to_reserved(env, b"support").unwrap();
        assert_eq!(remove_from_reserved(env, b"ADMIN"), Ok(()));
        assert!(!is_reserved(env, b"admin"));
        assert!(is_reserved(env, b"root"));
        assert!(is_reserved(env, b"support"));
        assert_eq!(get_reserved_list(env).len(), 2);
        assert_eq!(get_reserved_list(env).get(1), Some(b"support".to_vec()));
        assert_eq!(remove_from_reserved(env, b"ADMIN"), Err(ContractError::NotReserved));
        assert_eq!(add_to_reserved(env, b"admin"), Ok(()));
    });
}

#[test]
fn removal_takes_out_every_variant() {
    run(|env| {
        let mut list = UsernameList::new(env);
        for name in [&b"a"[..], b"B", b"A", b"b"] {
            list.push_back(name);
        }
        set_reserved_list(env, &list);
        assert_eq!(remove_from_reserved(env, b"a"), Ok(()));
        let list = get_reserved_list(env);
        assert_eq!(list.len(), 2);
        assert_eq!(list.get(0), Some(b"B".to_vec()));
        assert_eq!(list.get(1), Some(b"b".to_vec()));
    });
}

#[test]
fn the_reserved_list_is_bounded() {
    run(|env| {
        let mut list = UsernameList::new(env);
        for i in 0..MAX_RESERVED - 1 {
            list.push_back(format!("name{i}").as_bytes());
        }
        set_reserved_list(env, &list);
        assert_eq!(add_to_reserved(env, b"last"), Ok(()));
        assert_eq!(get_reserved_list(env).len(), MAX_RESERVED);
        assert_eq!(add_to_reserved(env, b"more"), Err(ContractError::ReservedListFull));
        assert!(!is_reserved(env, b"more"));
        // A name that is reserved is reported as such even when the list is full.
        assert_eq!(add_to_reserved(env, b"LAST"), Err(ContractError::AlreadyReserved));
        assert_eq!(remove_from_reserved(env, b"name0"), Ok(()));
        assert_eq!(add_to_reserved(env, b"more"), Ok(()));
    });
}

#[test]
fn only_ascii_letters_are_folded() {
    assert!(eq_ignore_ascii_case(b"aZ09-_", b"Az09-_"));
    assert!(eq_ignore_ascii_case(b"", b""));
    assert!(!eq_ignore_ascii_case(b"a", b""));
    // The neighbours of the letters are left alone.
    assert!(!eq_ignore_ascii_case(b"@", b"`"));
    assert!(!eq_ignore_ascii_case(b"[", b"{"));
    assert!(!eq_ignore_ascii_case(&[0xc4], &[0xe4]));
    assert!(same_username(b"abc", b"abc"));
    assert!(!same_username(b"abc", b"abC"));
    assert!(!same_username(b"abc", b"ab"));
}
