use soroban_sdk::testutils::storage::Persistent;
use soroban_sdk::testutils::{ContractFunctionSet, EnvTestConfig, Ledger};
use soroban_sdk::{Env, String as HostString, Symbol, Val};
use trustbridge_storage::storage::activity::cooldown_applies;
use trustbridge_storage::storage::{
    clear_pending_reverify, get_last_action, get_pending_reverify, is_in_cooldown, set_cooldown,
    set_last_action, set_pending_reverify, TTL_BUMP,
};

struct Registry;

impl ContractFunctionSet for Registry {
    fn call(&self, _func: &str, _env: Env, _args: &[Val]) -> Option<Val> {
        None
    }
}

fn run(f: impl FnOnce(&mut Env)) {
    let env = Env::new_with_config(EnvTestConfig { capture_snapshot_at_drop: false });
    let id = env.register(Registry, ());
    let mut inner = env.clone();
    env.as_contract(&id, || f(&mut inner));
}

#[test]
fn pending_reverification_is_kept_by_username() {
    run(|env| {
        assert!(!get_pending_reverify(env, b"alice"));
        set_pending_reverify(env, b"alice", true);
        assert!(get_pending_reverify(env, b"alice"));
        assert!(!get_pending_reverify(env, b"bob"));
        set_pending_reverify(env, b"bob", true);
        set_pending_reverify(env, b"alice", false);
        assert!(!get_pending_reverify(env, b"alice"));
        set_pending_reverify(env, b"alice", true);
        clear_pending_reverify(env, b"alice");
        assert!(!get_pending_reverify(env, b"alice"));
        assert!(get_pending_reverify(env, b"bob"));
        let key = (Symbol::new(env, "pend_rev"), HostString::from_str(env, "alice"));
        assert!(!env.storage().persistent().has(&key));
    });
}

#[test]
fn a_pending_flag_keeps_the_lifetime_of_a_new_entry() {
    run(|env| {
        set_pending_reverify(env, b"alice", true);
        let key = (Symbol::new(env, "pend_rev"), HostString::from_str(env, "alice"));
        assert_eq!(env.storage().persistent().get_ttl(&key), 4095);
    });
}

#[test]
fn last_actions_are_kept_by_username() {
    run(|env| {
        assert_eq!(get_last_action(env, b"alice"), 0);
        set_last_action(env, b"alice", 1_700_000_000);
        assert_eq!(get_last_action(env, b"alice"), 1_700_000_000);
        assert_eq!(get_last_action(env, b"bob"), 0);
        let key = (Symbol::new(env, "lastact"), HostString::from_str(env, "alice"));
        assert_eq!(env.storage().persistent().get_ttl(&key), TTL_BUMP);
    });
}

#[test]
fn the_cooldown_runs_out() {
    run(|env| {
        set_cooldown(env, 60);
        set_last_action(env, b"alice", 1000);
        env.ledger().set_timestamp(1000);
        assert!(is_in_cooldown(env, b"alice"));
        env.ledger().set_timestamp(1059);
        assert!(is_in_cooldown(env, b"alice"));
        env.ledger().set_timestamp(1060);
        assert!(!is_in_cooldown(env, b"alice"));
    });
}

#[test]
fn one_action_blocks_nobody_else() {
    run(|env| {
        set_cooldown(env, 60);
        env.ledger().set_timestamp(1000);
        set_last_action(env, b"alice", 1000);
        assert!(is_in_cooldown(env, b"alice"));
        assert!(!is_in_cooldown(env, b"bob"));
    });
}

#[test]
fn a_cooldown_of_zero_disables_the_check() {
    run(|env| {
        env.ledger().set_timestamp(1000);
        set_last_action(env, b"alice", 1000);
        assert!(!is_in_cooldown(env, b"alice"));
        set_cooldown(env, 0);
        assert!(!is_in_cooldown(env, b"alice"));
        set_cooldown(env, 1);
        assert!(is_in_cooldown(env, b"alice"));
    });
}

#[test]
fn cooldown_decisions() {
    assert!(cooldown_applies(10, 10, 1));
    assert!(!cooldown_applies(11, 10, 1));
    assert!(cooldown_applies(0, 10, 1));
    assert!(!cooldown_applies(0, 0, 100));
    assert!(!cooldown_applies(0, 100, 0));
    assert!(cooldown_applies(u64::MAX - 1, u64::MAX - 5, u64::MAX));
    assert!(!cooldown_applies(u64::MAX, u64::MAX - 5, u64::MAX));
}
