//! Laws of the audit log.

use crate::audit::{
    entry_value, is_entry, is_log, law_entry_round_trip, law_stats_round_trip, log_of,
    stats_value, AuditLogEntry, AuditStats,
};
use crate::keys::{lemma_single_distinct, single, AUDIT_STATS_KEY, MAX_AUDIT_LOG_ENTRIES};
use crate::ledger::LedgerState;
use crate::storage::audit_log::{
    audit_items_of, audit_log_of, audit_log_ok, audit_stats_of, audit_stats_ok, audited, logged,
};
use crate::value::{is_table, Value};
use vstd::prelude::*;

verus! {

/// The state after several events are logged, one after another.
pub open spec fn audited_all(s: LedgerState, entries: Seq<AuditLogEntry>) -> LedgerState
    decreases entries.len(),
{
    if entries.len() == 0 {
        s
    } else {
        audited(audited_all(s, entries.drop_last()), entries.last())
    }
}

/// The last entries of a list, as many as the log holds.
pub open spec fn latest(entries: Seq<AuditLogEntry>) -> Seq<AuditLogEntry> {
    if entries.len() <= MAX_AUDIT_LOG_ENTRIES {
        entries
    } else {
        entries.skip(entries.len() - MAX_AUDIT_LOG_ENTRIES)
    }
}

/// Audit statistics are read back, and leave the log as it is.
pub proof fn law_audit_stats_read_back(s: LedgerState, stats: AuditStats)
    ensures
        ({
            let t = s.put_instance(single(AUDIT_STATS_KEY), stats_value(stats));
            &&& audit_stats_ok(t)
            &&& audit_stats_of(t) == stats
            &&& audit_log_of(t) == audit_log_of(s)
        }),
{
    law_stats_round_trip(stats);
    lemma_single_distinct();
}

/// One more entry on stored items that can be read is one more entry of the log.
pub proof fn law_logged_readable(items: Seq<Value>, entry: AuditLogEntry)
    ensures
        log_of(Value::List(logged(items, entry_value(entry)))) == logged(
            log_of(Value::List(items)),
            entry,
        ),
        is_log(Value::List(items)) ==> is_log(Value::List(logged(items, entry_value(entry)))),
{
    let longer = logged(items, entry_value(entry));
    law_entry_round_trip(entry);
    assert(log_of(Value::List(longer)) =~= logged(log_of(Value::List(items)), entry));
    if is_log(Value::List(items)) {
        let log = Value::List(items);
        assert forall|i: int| 0 <= i < longer.len() implies is_entry(#[trigger] longer[i])
            && is_table(longer[i]) by {
            if items.len() >= MAX_AUDIT_LOG_ENTRIES && i < longer.len() - 1 {
                assert(longer[i] == log->List_0[i + 1]);
            } else if i < longer.len() - 1 {
                assert(longer[i] == log->List_0[i]);
            }
        }
    }
}

/// An event that is logged is the last entry of the log, and is counted. The log
/// drops its oldest entry where it is full, and no other.
pub proof fn law_audited(s: LedgerState, entry: AuditLogEntry)
    ensures
        audit_log_ok(s) ==> audit_log_ok(audited(s, entry)),
        audit_stats_ok(audited(s, entry)),
        audit_log_of(audited(s, entry)) == logged(audit_log_of(s), entry),
        audit_log_of(audited(s, entry)).last() == entry,
        audit_stats_of(audited(s, entry)) == audit_stats_of(s).recorded(entry.event_type),
        audit_log_of(s).len() <= MAX_AUDIT_LOG_ENTRIES ==> audit_log_of(audited(s, entry)).len()
            <= MAX_AUDIT_LOG_ENTRIES,
{
    lemma_single_distinct();
    law_stats_round_trip(audit_stats_of(s).recorded(entry.event_type));
    law_logged_readable(audit_items_of(s), entry);
}

/// However many events are logged, the log holds the latest, oldest first, and the
/// statistics count them all.
pub proof fn law_log_holds_latest(s: LedgerState, entries: Seq<AuditLogEntry>)
    requires
        audit_log_of(s).len() <= MAX_AUDIT_LOG_ENTRIES,
    ensures
        audit_log_of(audited_all(s, entries)) == latest(audit_log_of(s) + entries),
        audit_stats_of(s).total_events + entries.len() <= u64::MAX ==> audit_stats_of(
            audited_all(s, entries),
        ).total_events == audit_stats_of(s).total_events + entries.len(),
    decreases entries.len(),
{
    let log = audit_log_of(s);
    if entries.len() == 0 {
        assert(log + entries =~= log);
    } else {
        let front = entries.drop_last();
        let before = audited_all(s, front);
        law_log_holds_latest(s, front);
        law_audited(before, entries.last());
        assert(log + entries =~= (log + front).push(entries.last()));
        assert(latest(log + entries) =~= logged(latest(log + front), entries.last()));
    }
}

} // verus!
