//! Audit entries and statistics.

use crate::codec::{address_of, field, field_of};
use crate::host::{
    address_val, env_host, list_env, list_get, list_host, list_items, list_len, list_new,
    list_pop_front, list_push_back, list_val, record_fields, record_new, record_set, record_val,
    u32_val, u64_val, val_host, val_list, val_record, val_u32, val_u64, value_of,
};
use crate::value::{is_storable, is_symbol, is_table, Address, Value};
use soroban_sdk::{Env, Val};
use vstd::prelude::*;

verus! {

/// One audited event.
#[derive(Clone, Copy, Debug, PartialEq, Eq)]
pub struct AuditLogEntry {
    /// The code of the kind of event.
    pub event_type: u32,
    /// Ledger timestamp of the event.
    pub timestamp: u64,
    /// Address that caused the event.
    pub actor: Address,
}

/// What is counted of all events, those that the log has dropped among them.
#[derive(Clone, Copy, Debug, PartialEq, Eq, Structural)]
pub struct AuditStats {
    /// Number of events, as far as it can be counted.
    pub total_events: u64,
    /// The code of the kind of the latest event, 0 before the first.
    pub last_event_type: u32,
}

impl Default for AuditStats {
    fn default() -> (r: AuditStats)
        ensures
            r == AuditStats::none(),
    {
        AuditStats { total_events: 0, last_event_type: 0 }
    }
}

impl AuditStats {
    /// The statistics of no events.
    pub open spec fn none() -> AuditStats {
        AuditStats { total_events: 0, last_event_type: 0 }
    }

    /// The statistics after one more event.
    pub open spec fn recorded(self, event_type: u32) -> AuditStats {
        AuditStats {
            total_events: if self.total_events < u64::MAX {
                (self.total_events + 1) as u64
            } else {
                u64::MAX
            },
            last_event_type: event_type,
        }
    }

    /// Counts one more event.
    pub fn record_event(&mut self, event_type: u32)
        ensures
            *final(self) == old(self).recorded(event_type),
    {
        self.total_events = self.total_events.saturating_add(1);
        self.last_event_type = event_type;
    }
}

/// The value that holds an audit entry.
pub open spec fn entry_value(e: AuditLogEntry) -> Value {
    Value::Record(
        map![
            "actor"@ => Value::Address(e.actor),
            "event_type"@ => Value::U32(e.event_type),
            "timestamp"@ => Value::U64(e.timestamp),
        ],
    )
}

/// Whether a value holds an audit entry.
pub open spec fn is_entry(v: Value) -> bool {
    &&& v is Record
    &&& field_of(v, "actor") is Address
    &&& field_of(v, "event_type") is U32
    &&& field_of(v, "timestamp") is U64
}

/// The audit entry that a value holds.
pub open spec fn entry_of(v: Value) -> AuditLogEntry {
    AuditLogEntry {
        event_type: field_of(v, "event_type")->U32_0,
        timestamp: field_of(v, "timestamp")->U64_0,
        actor: field_of(v, "actor")->Address_0,
    }
}

/// The names of the fields of an entry are symbols, and differ.
proof fn lemma_entry_names()
    ensures
        is_symbol("actor"@),
        is_symbol("event_type"@),
        is_symbol("timestamp"@),
        "actor"@ != "event_type"@,
        "actor"@ != "timestamp"@,
        "event_type"@ != "timestamp"@,
{
    reveal_strlit("actor");
    reveal_strlit("event_type");
    reveal_strlit("timestamp");
}

/// An audit entry is read back as it was written.
pub proof fn law_entry_round_trip(e: AuditLogEntry)
    ensures
        is_entry(entry_value(e)),
        is_table(entry_value(e)),
        entry_of(entry_value(e)) == e,
{
    lemma_entry_names();
}

/// Encodes an audit entry.
fn entry_to_val(env: &Env, e: &AuditLogEntry) -> (v: Val)
    ensures
        value_of(v) == entry_value(*e),
        val_host(v) == env_host(*env),
{
    proof {
        lemma_entry_names();
    }
    let mut m = record_new(env);
    record_set(&mut m, "actor", address_val(env, e.actor));
    record_set(&mut m, "event_type", u32_val(env, e.event_type));
    record_set(&mut m, "timestamp", u64_val(env, e.timestamp));
    assert(record_fields(m) =~= entry_value(*e)->Record_0);
    record_val(&m)
}

/// Decodes an audit entry.
fn entry_from_val(env: &Env, v: Val) -> (e: AuditLogEntry)
    requires
        is_entry(value_of(v)),
        val_host(v) == env_host(*env),
    ensures
        e == entry_of(value_of(v)),
{
    proof {
        lemma_entry_names();
    }
    let m = val_record(env, v);
    AuditLogEntry {
        actor: address_of(env, field(env, &m, "actor")),
        event_type: val_u32(env, field(env, &m, "event_type")),
        timestamp: val_u64(env, field(env, &m, "timestamp")),
    }
}

/// The value that holds audit statistics.
pub open spec fn stats_value(s: AuditStats) -> Value {
    Value::Record(
        map![
            "last_event_type"@ => Value::U32(s.last_event_type),
            "total_events"@ => Value::U64(s.total_events),
        ],
    )
}

/// Whether a value holds audit statistics.
pub open spec fn is_stats(v: Value) -> bool {
    &&& v is Record
    &&& field_of(v, "last_event_type") is U32
    &&& field_of(v, "total_events") is U64
}

/// The audit statistics that a value holds.
pub open spec fn stats_of(v: Value) -> AuditStats {
    AuditStats {
        total_events: field_of(v, "total_events")->U64_0,
        last_event_type: field_of(v, "last_event_type")->U32_0,
    }
}

/// The names of the fields of statistics are symbols, and differ.
proof fn lemma_stats_names()
    ensures
        is_symbol("last_event_type"@),
        is_symbol("total_events"@),
        "last_event_type"@ != "total_events"@,
{
    reveal_strlit("last_event_type");
    reveal_strlit("total_events");
}

/// Audit statistics are read back as they were written.
pub proof fn law_stats_round_trip(s: AuditStats)
    ensures
        is_stats(stats_value(s)),
        stats_of(stats_value(s)) == s,
{
    lemma_stats_names();
}

/// Encodes audit statistics.
pub(crate) fn stats_to_val(env: &Env, s: &AuditStats) -> (v: Val)
    ensures
        value_of(v) == stats_value(*s),
        is_storable(value_of(v)),
        val_host(v) == env_host(*env),
{
    proof {
        lemma_stats_names();
    }
    let mut m = record_new(env);
    record_set(&mut m, "last_event_type", u32_val(env, s.last_event_type));
    record_set(&mut m, "total_events", u64_val(env, s.total_events));
    assert(record_fields(m) =~= stats_value(*s)->Record_0);
    record_val(&m)
}

/// Decodes audit statistics.
pub(crate) fn stats_from_val(env: &Env, v: Val) -> (s: AuditStats)
    requires
        is_stats(value_of(v)),
        val_host(v) == env_host(*env),
    ensures
        s == stats_of(value_of(v)),
{
    proof {
        lemma_stats_names();
    }
    let m = val_record(env, v);
    AuditStats {
        last_event_type: val_u32(env, field(env, &m, "last_event_type")),
        total_events: val_u64(env, field(env, &m, "total_events")),
    }
}

/// Whether a value holds a list of audit entries. What an entry holds beside its
/// fields is no deeper than a list of scalars.
pub open spec fn is_log(v: Value) -> bool {
    v matches Value::List(items) && forall|i: int|
        0 <= i < items.len() ==> is_entry(#[trigger] items[i]) && is_table(items[i])
}

/// The audit entries that a value holds.
pub open spec fn log_of(v: Value) -> Seq<AuditLogEntry>
    recommends
        is_log(v),
{
    Seq::new(v->List_0.len(), |i: int| entry_of(v->List_0[i]))
}

/// A host vector of audit entries.
pub struct AuditLog {
    list: soroban_sdk::Vec<Val>,
}

impl View for AuditLog {
    type V = Seq<AuditLogEntry>;

    open spec fn view(&self) -> Seq<AuditLogEntry> {
        log_of(Value::List(self.items()))
    }
}

impl AuditLog {
    /// What the items of the vector hold.
    pub closed spec fn items(&self) -> Seq<Value> {
        list_items(self.list)
    }

    /// Every item of the vector is an audit entry.
    pub open spec fn wf(&self) -> bool {
        is_log(Value::List(self.items()))
    }

    /// The host that holds the vector.
    pub closed spec fn host(&self) -> int {
        list_host(self.list)
    }

    /// The empty log.
    pub fn new(env: &Env) -> (r: AuditLog)
        ensures
            r.wf(),
            r.host() == env_host(*env),
            r.items() == Seq::<Value>::empty(),
            r@ == Seq::<AuditLogEntry>::empty(),
    {
        let r = AuditLog { list: list_new(env) };
        assert(r@ =~= Seq::<AuditLogEntry>::empty());
        r
    }

    /// The number of entries.
    pub fn len(&self) -> (r: u32)
        ensures
            r == self@.len(),
            r == self.items().len(),
    {
        list_len(&self.list)
    }

    /// The entry at position `i`, if there is one.
    pub fn get(&self, i: u32) -> (r: Option<AuditLogEntry>)
        requires
            self.wf(),
        ensures
            r == (if i < self@.len() {
                Some(self@[i as int])
            } else {
                None
            }),
    {
        match list_get(&self.list, i) {
            Some(v) => {
                proof {
                    let log = Value::List(self.items());
                    assert(is_entry(log->List_0[i as int]));
                }
                Some(entry_from_val(list_env(&self.list), v))
            },
            None => None,
        }
    }

    /// Appends an entry.
    pub fn push_back(&mut self, entry: &AuditLogEntry)
        requires
            old(self).wf(),
            old(self)@.len() < u32::MAX,
        ensures
            final(self).wf(),
            final(self).host() == old(self).host(),
            final(self).items() == old(self).items().push(entry_value(*entry)),
            final(self)@ == old(self)@.push(*entry),
    {
        proof {
            law_entry_round_trip(*entry);
        }
        let v = entry_to_val(list_env(&self.list), entry);
        list_push_back(&mut self.list, v);
        assert(self@ =~= old(self)@.push(*entry));
    }

    /// Drops the oldest entry, if there is one.
    pub fn pop_front(&mut self)
        requires
            old(self).wf(),
        ensures
            final(self).wf(),
            final(self).host() == old(self).host(),
            old(self)@.len() > 0 ==> final(self).items() == old(self).items().drop_first(),
            old(self)@.len() > 0 ==> final(self)@ == old(self)@.drop_first(),
            old(self)@.len() == 0 ==> final(self)@ == old(self)@,
    {
        let _ = list_pop_front(&mut self.list);
        proof {
            if old(self)@.len() > 0 {
                let before = old(self).items();
                let after = self.items();
                assert forall|i: int| 0 <= i < after.len() implies is_entry(#[trigger] after[i])
                    && is_table(after[i]) by {
                    assert(after[i] == before[i + 1]);
                }
                assert(self@ =~= old(self)@.drop_first());
            }
        }
    }

    /// The log that a value holds.
    pub(crate) fn from_val(env: &Env, v: Val) -> (r: AuditLog)
        requires
            is_log(value_of(v)),
            val_host(v) == env_host(*env),
        ensures
            r.wf(),
            r.host() == env_host(*env),
            Value::List(r.items()) == value_of(v),
    {
        AuditLog { list: val_list(env, v) }
    }

    /// The value that holds the log.
    pub(crate) fn to_val(&self) -> (r: Val)
        requires
            self.wf(),
        ensures
            value_of(r) == Value::List(self.items()),
            val_host(r) == self.host(),
            is_storable(value_of(r)),
    {
        list_val(&self.list)
    }
}

} // verus!
