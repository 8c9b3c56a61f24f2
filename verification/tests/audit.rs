use soroban_sdk::testutils::{ContractFunctionSet, EnvTestConfig};
use soroban_sdk::{Env, IntoVal, Map as HostMap, Symbol, Val, Vec as HostVec};
use trustbridge_storage::audit::{AuditLog, AuditLogEntry, AuditStats};
use trustbridge_storage::storage::{
    get_audit_logs, get_audit_stats, push_audit_entry, set_audit_stats, MAX_AUDIT_LOG_ENTRIES,
};
use trustbridge_storage::value::Address;

struct Registry;

impl ContractFunctionSet for Registry {
    fn call(&self, _func: &str, _env: Env, _args: &[Val]) -> Option<Val> {
        None
    }
}

fn run(f: impl FnOnce(&mut Env)) {
    let env = Env::new_with_config(EnvTestConfig { capture_snapshot_at_drop: false });
    let id = env.register(Registry, ());
    let mut inner = env.clone();
    env.as_contract(&id, || f(&mut inner));
}

fn entry(i: u32) -> AuditLogEntry {
    AuditLogEntry {
        event_type: i % 7,
        timestamp: i as u64,
        actor: Address::Account([i as u8; 32]),
    }
}

#[test]
fn the_log_starts_empty() {
    run(|env| {
        assert_eq!(get_audit_logs(env).len(), 0);
        assert_eq!(get_audit_stats(env), AuditStats::default());
        assert_eq!(get_audit_stats(env).total_events, 0);
    });
}

#[test]
fn events_are_logged_in_order_and_counted() {
    run(|env| {
        push_audit_entry(env, entry(1));
        push_audit_entry(env, entry(2));
        let log = get_audit_logs(env);
        assert_eq!(log.len(), 2);
        assert_eq!(log.get(0), Some(entry(1)));
        assert_eq!(log.get(1), Some(entry(2)));
        assert_eq!(log.get(2), None);
        assert_eq!(get_audit_stats(env), AuditStats { total_events: 2, last_event_type: 2 });
    });
}

#[test]
fn a_full_log_drops_its_oldest_entries() {
    run(|env| {
        for i in 0..MAX_AUDIT_LOG_ENTRIES {
            push_audit_entry(env, entry(i));
        }
        assert_eq!(get_audit_logs(env).len(), MAX_AUDIT_LOG_ENTRIES);
        assert_eq!(get_audit_logs(env).get(0), Some(entry(0)));
        push_audit_entry(env, entry(200));
        push_audit_entry(env, entry(201));
        let log = get_audit_logs(env);
        assert_eq!(log.len(), MAX_AUDIT_LOG_ENTRIES);
        assert_eq!(log.get(0), Some(entry(2)));
        assert_eq!(log.get(98), Some(entry(200)));
        assert_eq!(log.get(99), Some(entry(201)));
        assert_eq!(get_audit_stats(env).total_events, 102);
    });
}

#[test]
fn an_entry_is_read_by_the_names_of_its_fields() {
    run(|env| {
        push_audit_entry(env, entry(1));
        let key = Symbol::new(env, "adt_log");
        let stored: HostVec<HostMap<Symbol, Val>> = env.storage().instance().get(&key).unwrap();
        let mut fields = stored.get(0).unwrap();
        fields.set(Symbol::new(env, "note"), 1u32.into_val(env));
        env.storage().instance().set(&key, &HostVec::from_array(env, [fields.clone()]));
        assert_eq!(get_audit_logs(env).get(0), Some(entry(1)));
        push_audit_entry(env, entry(2));
        assert_eq!(get_audit_logs(env).get(1), Some(entry(2)));
        let stored: HostVec<HostMap<Symbol, Val>> = env.storage().instance().get(&key).unwrap();
        assert_eq!(stored.get(0), Some(fields));
    });
}

#[test]
fn statistics_are_read_back_and_saturate() {
    run(|env| {
        let stats = AuditStats { total_events: u64::MAX, last_event_type: 4 };
        set_audit_stats(env, &stats);
        assert_eq!(get_audit_stats(env), stats);
        push_audit_entry(env, entry(5));
        assert_eq!(
            get_audit_stats(env),
            AuditStats { total_events: u64::MAX, last_event_type: 5 }
        );
        assert_eq!(get_audit_logs(env).len(), 1);
    });
}

#[test]
fn an_empty_log_has_nothing_to_drop() {
    run(|env| {
        let mut log = AuditLog::new(env);
        log.pop_front();
        assert_eq!(log.len(), 0);
        log.push_back(&entry(1));
        log.push_back(&entry(2));
        log.pop_front();
        assert_eq!(log.len(), 1);
        assert_eq!(log.get(0), Some(entry(2)));
    });
}
