//! The audit log on the ledger: a bounded log, and statistics over all events.

use crate::audit::{
    entry_value, is_log, is_stats, log_of, stats_from_val, stats_of, stats_to_val, stats_value,
    AuditLog, AuditLogEntry, AuditStats,
};
use crate::host::{env_host, instance_get, instance_set, running, state};
use crate::keys::{
    lemma_single_distinct, single, single_key, AUDIT_LOG_KEY, AUDIT_STATS_KEY,
    MAX_AUDIT_LOG_ENTRIES,
};
use crate::ledger::LedgerState;
use crate::value::Value;
use soroban_sdk::Env;
use vstd::prelude::*;

verus! {

/// The log entry holds a list of audit entries, if it is there.
pub open spec fn audit_log_ok(s: LedgerState) -> bool {
    s.instance.contains_key(single(AUDIT_LOG_KEY)) ==> is_log(s.instance[single(AUDIT_LOG_KEY)])
}

/// The items of the audit log, as they are stored.
pub open spec fn audit_items_of(s: LedgerState) -> Seq<Value> {
    if s.instance.contains_key(single(AUDIT_LOG_KEY)) {
        s.instance[single(AUDIT_LOG_KEY)]->List_0
    } else {
        Seq::empty()
    }
}

/// The audit log, oldest entry first.
pub open spec fn audit_log_of(s: LedgerState) -> Seq<AuditLogEntry> {
    log_of(Value::List(audit_items_of(s)))
}

/// The statistics entry holds statistics, if it is there.
pub open spec fn audit_stats_ok(s: LedgerState) -> bool {
    s.instance.contains_key(single(AUDIT_STATS_KEY)) ==> is_stats(
        s.instance[single(AUDIT_STATS_KEY)],
    )
}

/// The audit statistics, those of no events if none are recorded.
pub open spec fn audit_stats_of(s: LedgerState) -> AuditStats {
    if s.instance.contains_key(single(AUDIT_STATS_KEY)) {
        stats_of(s.instance[single(AUDIT_STATS_KEY)])
    } else {
        AuditStats::none()
    }
}

/// A log after one more entry. A full log drops its oldest entry.
pub open spec fn logged<T>(log: Seq<T>, entry: T) -> Seq<T> {
    if log.len() >= MAX_AUDIT_LOG_ENTRIES {
        log.drop_first().push(entry)
    } else {
        log.push(entry)
    }
}

/// The state after an event is logged and counted.
pub open spec fn audited(s: LedgerState, entry: AuditLogEntry) -> LedgerState {
    s.put_instance(
        single(AUDIT_STATS_KEY),
        stats_value(audit_stats_of(s).recorded(entry.event_type)),
    ).put_instance(
        single(AUDIT_LOG_KEY),
        Value::List(logged(audit_items_of(s), entry_value(entry))),
    )
}

/// Returns the audit log.
pub fn get_audit_logs(env: &Env) -> (r: AuditLog)
    requires
        running(*env),
        audit_log_ok(state(*env)),
    ensures
        r.wf(),
        r.host() == env_host(*env),
        r.items() == audit_items_of(state(*env)),
        r@ == audit_log_of(state(*env)),
{
    proof {
        reveal_strlit("adt_log");
    }
    match instance_get(env, single_key(env, AUDIT_LOG_KEY)) {
        Some(v) => AuditLog::from_val(env, v),
        None => AuditLog::new(env),
    }
}

/// Logs an event and counts it. A full log drops its oldest entry.
pub fn push_audit_entry(env: &mut Env, entry: AuditLogEntry)
    requires
        running(*old(env)),
        audit_log_ok(state(*old(env))),
        audit_stats_ok(state(*old(env))),
    ensures
        state(*final(env)) == audited(state(*old(env)), entry),
{
    proof {
        reveal_strlit("adt_log");
        lemma_single_distinct();
    }
    let mut logs = get_audit_logs(env);
    let mut stats = get_audit_stats(env);
    stats.record_event(entry.event_type);
    set_audit_stats(env, &stats);
    if logs.len() >= MAX_AUDIT_LOG_ENTRIES {
        logs.pop_front();
    }
    logs.push_back(&entry);
    let key = single_key(env, AUDIT_LOG_KEY);
    instance_set(env, key, logs.to_val());
}

/// Returns the audit statistics.
pub fn get_audit_stats(env: &Env) -> (r: AuditStats)
    requires
        running(*env),
        audit_stats_ok(state(*env)),
    ensures
        r == audit_stats_of(state(*env)),
{
    proof {
        reveal_strlit("adt_stat");
    }
    match instance_get(env, single_key(env, AUDIT_STATS_KEY)) {
        Some(v) => stats_from_val(env, v),
        None => AuditStats::default(),
    }
}

/// Overwrites the audit statistics.
pub fn set_audit_stats(env: &mut Env, stats: &AuditStats)
    requires
        running(*old(env)),
    ensures
        state(*final(env)) == state(*old(env)).put_instance(
            single(AUDIT_STATS_KEY),
            stats_value(*stats),
        ),
{
    proof {
        reveal_strlit("adt_stat");
    }
    let key = single_key(env, AUDIT_STATS_KEY);
    let v = stats_to_val(env, stats);
    instance_set(env, key, v);
}

} // verus!
