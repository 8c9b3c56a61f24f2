//! Where each thing is stored, and in what form: the keys, the values, and what is
//! read from them.

use crate::audit::{
    entry_of, entry_value, is_entry, is_log, is_stats, log_of, stats_of, stats_value,
    AuditLogEntry, AuditStats,
};
use crate::codec::{
    attestation_of, attestation_value, config_of, config_value, is_attestation, is_config,
    is_provenance, is_record, is_version, provenance_of, provenance_value, record_of,
    record_value, version_of, version_value,
};
use crate::keys::{
    chunk_key, last_action_key, pending_key, record_key, role_key, single, ADMIN_KEY, ATTEST_KEY,
    AUDIT_LOG_KEY, AUDIT_STATS_KEY, CHUNK_CNT_KEY, CHUNK_KEY, CHUNK_SIZE, COOLDOWN_KEY, COUNT_KEY,
    DEFAULT_PAGE_LIMIT, EMERGENCY_PAUSE_KEY, EMERGENCY_PAUSE_TS_KEY, INDEX_KEY, LAST_ACT_KEY,
    LAST_UPG_KEY, LEDGERS_PER_DAY, MAX_AUDIT_LOG_ENTRIES, MAX_PAGE_LIMIT, MAX_RESERVED,
    PAUSED_KEY, PAUSE_REASON_KEY, PENDING_REVERIFY_KEY, PROV_KEY, REG_KEY, RESERVED_KEY, ROLE_KEY,
    TTL_BUMP, TTL_THRESHOLD, VCOUNT_KEY, VERSION_KEY, VER_CFG_KEY, VER_KEY,
};
use crate::ledger::LedgerState;
use crate::storage::audit_log::{
    audit_items_of, audit_log_of, audit_log_ok, audit_stats_of, audit_stats_ok,
};
use crate::storage::entries::{bool_at, holds_bool, holds_u32, holds_u64, u32_at, u64_at};
use crate::storage::index::{
    chunk_count_of, chunk_count_ok, chunk_of, chunk_ok, index_of, index_ok, put_chunk_count,
    put_index,
};
use crate::storage::records::{admin_of, admin_ok, is_initialized, record_at, record_ok};
use crate::storage::reserved::{put_reserved, reserved_of, reserved_ok};
use crate::storage::roles::{role_at, role_ok};
use crate::storage::settings::{
    attestation_at, attestation_ok, config_at, config_ok, pause_reason_at, pause_reason_ok,
    paused, provenance_at, provenance_ok, version_at, version_ok,
};
use crate::types::{
    ContributorRecord, ExportPage, PauseReason, Role, VerificationConfig, VerificationConfigView,
    WasmAttestation, WasmProvenance, WasmProvenanceView,
};
use crate::usernames::{is_usernames, usernames_of, usernames_value};
use crate::value::{is_symbol, is_table, Address, Value};
use vstd::prelude::*;

verus! {

/// The limits of the registry.
pub proof fn law_limits()
    ensures
        CHUNK_SIZE == 50,
        DEFAULT_PAGE_LIMIT == 20,
        MAX_PAGE_LIMIT == 100,
        MAX_RESERVED == 200,
        MAX_AUDIT_LOG_ENTRIES == 100,
        LEDGERS_PER_DAY == 17_280,
        TTL_THRESHOLD == 30 * 17_280,
        TTL_BUMP == 90 * 17_280,
{
}

/// The names of the entries.
pub proof fn law_names()
    ensures
        ADMIN_KEY@ == "admin"@,
        VER_CFG_KEY@ == "vrfy_cfg"@,
        COUNT_KEY@ == "count"@,
        VCOUNT_KEY@ == "vcount"@,
        INDEX_KEY@ == "idx"@,
        PAUSED_KEY@ == "pause"@,
        COOLDOWN_KEY@ == "cdown"@,
        EMERGENCY_PAUSE_KEY@ == "emrg_ps"@,
        EMERGENCY_PAUSE_TS_KEY@ == "emerg_ts"@,
        LAST_UPG_KEY@ == "lastupg"@,
        VER_KEY@ == "ver"@,
        VERSION_KEY@ == "ver"@,
        CHUNK_CNT_KEY@ == "chkcnt"@,
        PROV_KEY@ == "prov"@,
        ATTEST_KEY@ == "attest"@,
        AUDIT_LOG_KEY@ == "adt_log"@,
        AUDIT_STATS_KEY@ == "adt_stat"@,
        PAUSE_REASON_KEY@ == "p_reason"@,
        RESERVED_KEY@ == "reserved"@,
        REG_KEY@ == "reg"@,
        PENDING_REVERIFY_KEY@ == "pend_rev"@,
        CHUNK_KEY@ == "chunk"@,
        LAST_ACT_KEY@ == "lastact"@,
        ROLE_KEY@ == "role"@,
{
}

/// A single entry is under a symbol, and an entry of a family under the pair of the
/// family's symbol and what tells the entry apart.
pub proof fn law_keys(name: &str, u: Seq<u8>, c: u32, a: Address)
    ensures
        single(name) == Value::Symbol(name@),
        record_key(u) == Value::List(seq![Value::Symbol("reg"@), Value::Str(u)]),
        pending_key(u) == Value::List(seq![Value::Symbol("pend_rev"@), Value::Str(u)]),
        last_action_key(u) == Value::List(seq![Value::Symbol("lastact"@), Value::Str(u)]),
        chunk_key(c) == Value::List(seq![Value::Symbol("chunk"@), Value::U32(c)]),
        role_key(a) == Value::List(seq![Value::Symbol("role"@), Value::Address(a)]),
{
}

/// The symbols are the strings of at most 32 letters, digits and underscores.
pub proof fn law_symbols(s: Seq<char>)
    ensures
        is_symbol(s) <==> s.len() <= 32 && forall|i: int|
            0 <= i < s.len() ==> ('a' <= #[trigger] s[i] && s[i] <= 'z') || ('A' <= s[i] && s[i]
                <= 'Z') || ('0' <= s[i] && s[i] <= '9') || s[i] == '_',
{
}

/// What a write or a removal does to the entries and to their lifetimes: it touches
/// one entry. A new persistent entry gets the shortest lifetime, and one that is
/// there keeps its own.
pub proof fn law_writes(s: LedgerState, key: Value, v: Value)
    ensures
        s.put_instance(key, v) == (LedgerState { instance: s.instance.insert(key, v), ..s }),
        s.remove_instance(key) == (LedgerState { instance: s.instance.remove(key), ..s }),
        s.put(key, v) == (LedgerState {
            persistent: s.persistent.insert(key, v),
            live_until: s.put(key, v).live_until,
            ..s
        }),
        s.persistent.contains_key(key) ==> s.put(key, v).live_until == s.live_until,
        !s.persistent.contains_key(key) && s.runs() ==> s.put(key, v).live_until
            == s.live_until.insert(
            key,
            (if s.min_ttl == 0 {
                s.sequence as int
            } else {
                s.sequence + s.min_ttl - 1
            }) as u32,
        ),
        s.remove(key) == (LedgerState {
            persistent: s.persistent.remove(key),
            live_until: s.live_until.remove(key),
            ..s
        }),
{
}

/// A contract runs where it has been called in a ledger from which the longest and
/// the shortest lifetime can be counted.
pub proof fn law_running(s: LedgerState)
    ensures
        s.runs() <==> s.in_contract && s.ledger_known && s.sequence + s.max_ttl <= u32::MAX + (
        if s.max_ttl == 0 {
            0int
        } else {
            1
        }) && s.sequence + s.min_ttl <= u32::MAX + (if s.min_ttl == 0 {
            0int
        } else {
            1
        }),
{
}

/// A number or flag is what its entry holds, and 0 or false where there is none.
pub proof fn law_scalars(entries: Map<Value, Value>, key: Value)
    ensures
        holds_u32(entries, key) <==> (entries.contains_key(key) ==> entries[key] is U32),
        holds_u64(entries, key) <==> (entries.contains_key(key) ==> entries[key] is U64),
        holds_bool(entries, key) <==> (entries.contains_key(key) ==> entries[key] is Bool),
        !entries.contains_key(key) ==> u32_at(entries, key) == 0 && u64_at(entries, key) == 0
            && !bool_at(entries, key),
        entries.contains_key(key) && entries[key] is U32 ==> entries[key] == Value::U32(
            u32_at(entries, key),
        ),
        entries.contains_key(key) && entries[key] is U64 ==> entries[key] == Value::U64(
            u64_at(entries, key),
        ),
        entries.contains_key(key) && entries[key] is Bool ==> entries[key] == Value::Bool(
            bool_at(entries, key),
        ),
{
}

/// A list of usernames is a list of strings, one per username and in order.
pub proof fn law_usernames_layout(v: Value, usernames: Seq<Seq<u8>>)
    ensures
        usernames_value(usernames) == Value::List(
            Seq::new(usernames.len(), |i: int| Value::Str(usernames[i])),
        ),
        is_usernames(v) <==> v is List && forall|i: int|
            0 <= i < v->List_0.len() ==> (#[trigger] v->List_0[i]) is Str,
        is_usernames(v) ==> usernames_of(v).len() == v->List_0.len() && forall|i: int|
            0 <= i < v->List_0.len() ==> #[trigger] v->List_0[i] == Value::Str(usernames_of(v)[i]),
{
}

/// The flat index and the reserved list are read from their entries, and are empty
/// where there is none. The number of chunks is read from its entry, and each chunk
/// from its own.
pub proof fn law_lists_layout(s: LedgerState, c: u32, list: Seq<Seq<u8>>, n: u32)
    ensures
        ({
            let key = Value::Symbol("idx"@);
            &&& index_ok(s) <==> (s.instance.contains_key(key) ==> is_usernames(s.instance[key]))
            &&& !s.instance.contains_key(key) ==> index_of(s).len() == 0
            &&& s.instance.contains_key(key) ==> index_of(s) == usernames_of(s.instance[key])
            &&& put_index(s, list) == s.put_instance(key, usernames_value(list))
        }),
        ({
            let key = Value::Symbol("reserved"@);
            &&& reserved_ok(s) <==> (s.instance.contains_key(key) ==> is_usernames(
                s.instance[key],
            ))
            &&& !s.instance.contains_key(key) ==> reserved_of(s).len() == 0
            &&& s.instance.contains_key(key) ==> reserved_of(s) == usernames_of(s.instance[key])
            &&& put_reserved(s, list) == s.put_instance(key, usernames_value(list))
        }),
        ({
            let key = Value::Symbol("chkcnt"@);
            &&& chunk_count_ok(s) <==> holds_u32(s.instance, key)
            &&& chunk_count_of(s) == u32_at(s.instance, key)
            &&& put_chunk_count(s, n) == s.put_instance(key, Value::U32(n))
        }),
        ({
            let key = Value::List(seq![Value::Symbol("chunk"@), Value::U32(c)]);
            &&& chunk_ok(s, c) <==> (s.persistent.contains_key(key) ==> is_usernames(
                s.persistent[key],
            ))
            &&& !s.persistent.contains_key(key) ==> chunk_of(s, c).len() == 0
            &&& s.persistent.contains_key(key) ==> chunk_of(s, c) == usernames_of(
                s.persistent[key],
            )
        }),
{
}

/// The contract is initialized exactly if it has an admin entry, and the admin is
/// the address in it.
pub proof fn law_admin_layout(s: LedgerState)
    ensures
        is_initialized(s) <==> s.instance.contains_key(Value::Symbol("admin"@)),
        admin_ok(s) <==> (s.instance.contains_key(Value::Symbol("admin"@)) ==> s.instance[
            Value::Symbol("admin"@)
        ] is Address),
        !is_initialized(s) ==> admin_of(s) == None::<Address>,
        is_initialized(s) && admin_ok(s) ==> admin_of(s).is_some() && s.instance[Value::Symbol(
            "admin"@,
        )] == Value::Address(admin_of(s).unwrap()),
{
}

/// A record is written as three fields, and read by their names.
pub proof fn law_record_layout(r: ContributorRecord, f: Map<Seq<char>, Value>)
    ensures
        record_value(r) == Value::Record(
            map![
                "registered_at"@ => Value::U32(r.registered_at),
                "stellar_address"@ => Value::Address(r.stellar_address),
                "verified"@ => Value::Bool(r.verified),
            ],
        ),
        ({
            let v = Value::Record(f);
            let typed = {
                &&& f.contains_key("registered_at"@) && f["registered_at"@] is U32
                &&& f.contains_key("stellar_address"@) && f["stellar_address"@] is Address
                &&& f.contains_key("verified"@) && f["verified"@] is Bool
            };
            &&& is_record(v) <==> typed
            &&& typed ==> f["registered_at"@] == Value::U32(record_of(v).registered_at)
            &&& typed ==> f["stellar_address"@] == Value::Address(record_of(v).stellar_address)
            &&& typed ==> f["verified"@] == Value::Bool(record_of(v).verified)
        }),
        forall|v: Value| #[trigger] is_record(v) ==> v is Record,
{
}

/// A contributor has a record exactly if the entry is there, and it is the one that
/// the entry holds.
pub proof fn law_record_entry(s: LedgerState, u: Seq<u8>)
    ensures
        ({
            let key = Value::List(seq![Value::Symbol("reg"@), Value::Str(u)]);
            &&& record_ok(s, u) <==> (s.persistent.contains_key(key) ==> is_record(
                s.persistent[key],
            ))
            &&& !s.persistent.contains_key(key) ==> record_at(s, u) == None::<ContributorRecord>
            &&& s.persistent.contains_key(key) ==> record_at(s, u) == Some(
                record_of(s.persistent[key]),
            )
        }),
{
}

/// A provenance is written as six fields, and read by their names. The hash that it
/// replaced is void, or missing, where there is none.
pub proof fn law_provenance_layout(p: WasmProvenanceView, f: Map<Seq<char>, Value>)
    ensures
        provenance_value(p) == Value::Record(
            map![
                "attested"@ => Value::Bool(p.attested),
                "previous_wasm_hash"@ => match p.previous_wasm_hash {
                    Some(h) => Value::Hash(h),
                    None => Value::Void,
                },
                "upgraded_at"@ => Value::U64(p.upgraded_at),
                "upgraded_by"@ => Value::Address(p.upgraded_by),
                "version"@ => Value::List(
                    Seq::new(p.version.len(), |i: int| Value::U32(p.version[i])),
                ),
                "wasm_hash"@ => Value::Hash(p.wasm_hash),
            ],
        ),
        ({
            let v = Value::Record(f);
            let q = provenance_of(v);
            let typed = {
                &&& f.contains_key("attested"@) && f["attested"@] is Bool
                &&& f.contains_key("previous_wasm_hash"@) ==> f["previous_wasm_hash"@] is Hash
                    || f["previous_wasm_hash"@] is Void
                &&& f.contains_key("upgraded_at"@) && f["upgraded_at"@] is U64
                &&& f.contains_key("upgraded_by"@) && f["upgraded_by"@] is Address
                &&& f.contains_key("version"@) && f["version"@] is List && forall|i: int|
                    0 <= i < f["version"@]->List_0.len() ==> (
                    #[trigger] f["version"@]->List_0[i]) is U32
                &&& f.contains_key("wasm_hash"@) && f["wasm_hash"@] is Hash
            };
            &&& is_provenance(v) <==> typed
            &&& typed ==> {
                &&& f["attested"@] == Value::Bool(q.attested)
                &&& q.previous_wasm_hash.is_some() <==> f.contains_key("previous_wasm_hash"@)
                    && f["previous_wasm_hash"@] is Hash
                &&& q.previous_wasm_hash matches Some(h) ==> f["previous_wasm_hash"@]
                    == Value::Hash(h)
                &&& f["upgraded_at"@] == Value::U64(q.upgraded_at)
                &&& f["upgraded_by"@] == Value::Address(q.upgraded_by)
                &&& q.version.len() == f["version"@]->List_0.len()
                &&& forall|i: int|
                    0 <= i < q.version.len() ==> #[trigger] f["version"@]->List_0[i]
                        == Value::U32(q.version[i])
                &&& f["wasm_hash"@] == Value::Hash(q.wasm_hash)
            }
        }),
        forall|v: Value| #[trigger] is_provenance(v) ==> v is Record,
{
}

/// An attestation is written as four fields, and read by their names.
pub proof fn law_attestation_layout(a: WasmAttestation, f: Map<Seq<char>, Value>)
    ensures
        attestation_value(a) == Value::Record(
            map![
                "attested_at"@ => Value::U64(a.attested_at),
                "attested_by"@ => Value::Address(a.attested_by),
                "expires_at"@ => Value::U64(a.expires_at),
                "wasm_hash"@ => Value::Hash(a.wasm_hash),
            ],
        ),
        ({
            let v = Value::Record(f);
            let b = attestation_of(v);
            let typed = {
                &&& f.contains_key("attested_at"@) && f["attested_at"@] is U64
                &&& f.contains_key("attested_by"@) && f["attested_by"@] is Address
                &&& f.contains_key("expires_at"@) && f["expires_at"@] is U64
                &&& f.contains_key("wasm_hash"@) && f["wasm_hash"@] is Hash
            };
            &&& is_attestation(v) <==> typed
            &&& typed ==> {
                &&& f["attested_at"@] == Value::U64(b.attested_at)
                &&& f["attested_by"@] == Value::Address(b.attested_by)
                &&& f["expires_at"@] == Value::U64(b.expires_at)
                &&& f["wasm_hash"@] == Value::Hash(b.wasm_hash)
            }
        }),
        forall|v: Value| #[trigger] is_attestation(v) ==> v is Record,
{
}

/// A verification configuration is written as three fields, and read by their names.
pub proof fn law_config_layout(c: VerificationConfigView, f: Map<Seq<char>, Value>)
    ensures
        config_value(c) == Value::Record(
            map![
                "attestation"@ => Value::Symbol(c.attestation),
                "expires_in"@ => Value::U64(c.expires_in),
                "threshold"@ => Value::U32(c.threshold),
            ],
        ),
        ({
            let v = Value::Record(f);
            let d = config_of(v);
            let typed = {
                &&& f.contains_key("attestation"@) && f["attestation"@] is Symbol
                &&& f.contains_key("expires_in"@) && f["expires_in"@] is U64
                &&& f.contains_key("threshold"@) && f["threshold"@] is U32
            };
            &&& is_config(v) <==> typed
            &&& typed ==> {
                &&& f["attestation"@] == Value::Symbol(d.attestation)
                &&& f["expires_in"@] == Value::U64(d.expires_in)
                &&& f["threshold"@] == Value::U32(d.threshold)
            }
        }),
        forall|v: Value| #[trigger] is_config(v) ==> v is Record,
{
}

/// A version is a list of three numbers.
pub proof fn law_version_layout(t: (u32, u32, u32), v: Value)
    ensures
        version_value(t) == Value::List(seq![Value::U32(t.0), Value::U32(t.1), Value::U32(t.2)]),
        is_version(v) <==> exists|x: (u32, u32, u32)|
            v == Value::List(seq![Value::U32(#[trigger] x.0), Value::U32(x.1), Value::U32(x.2)]),
        is_version(v) ==> v == Value::List(
            seq![
                Value::U32(version_of(v).0),
                Value::U32(version_of(v).1),
                Value::U32(version_of(v).2),
            ],
        ),
{
    if is_version(v) {
        let x = version_of(v);
        assert(v->List_0 =~= seq![Value::U32(x.0), Value::U32(x.1), Value::U32(x.2)]);
    }
}

/// Each setting is what its entry holds, and is absent where there is none. A
/// contract without a pause flag is not paused, and one without a reason has the
/// reason `Other`.
pub proof fn law_settings_layout(s: LedgerState)
    ensures
        ({
            let key = Value::Symbol("ver"@);
            &&& version_ok(s) <==> (s.instance.contains_key(key) ==> is_version(s.instance[key]))
            &&& version_at(s) == (if s.instance.contains_key(key) {
                Some(version_of(s.instance[key]))
            } else {
                None
            })
        }),
        ({
            let key = Value::Symbol("prov"@);
            &&& provenance_ok(s) <==> (s.instance.contains_key(key) ==> is_provenance(
                s.instance[key],
            ))
            &&& provenance_at(s) == (if s.instance.contains_key(key) {
                Some(provenance_of(s.instance[key]))
            } else {
                None
            })
        }),
        ({
            let key = Value::Symbol("attest"@);
            &&& attestation_ok(s) <==> (s.instance.contains_key(key) ==> is_attestation(
                s.instance[key],
            ))
            &&& attestation_at(s) == (if s.instance.contains_key(key) {
                Some(attestation_of(s.instance[key]))
            } else {
                None
            })
        }),
        ({
            let key = Value::Symbol("vrfy_cfg"@);
            &&& config_ok(s) <==> (s.instance.contains_key(key) ==> is_config(s.instance[key]))
            &&& config_at(s) == (if s.instance.contains_key(key) {
                Some(config_of(s.instance[key]))
            } else {
                None
            })
        }),
        ({
            let key = Value::Symbol("p_reason"@);
            &&& !s.instance.contains_key(key) ==> pause_reason_ok(s) && pause_reason_at(s)
                == PauseReason::Other
            &&& s.instance.contains_key(key) && pause_reason_ok(s) ==> s.instance[key]
                == Value::U32(pause_reason_at(s).spec_code())
            &&& s.instance.contains_key(key) && (exists|reason: PauseReason|
                s.instance[key] == Value::U32(#[trigger] reason.spec_code())) ==> pause_reason_ok(s)
        }),
        ({
            let key = Value::Symbol("pause"@);
            !s.instance.contains_key(key) || s.instance[key] is Bool ==> (paused(s)
                <==> s.instance.contains_key(key) && s.instance[key] == Value::Bool(true))
        }),
{
}

/// The codes of roles and of pause reasons.
pub proof fn law_codes(code: u32)
    ensures
        Role::Admin.spec_code() == 1,
        Role::Upgrader.spec_code() == 2,
        Role::Verifier.spec_code() == 3,
        Role::spec_from_code(code).is_some() <==> 1 <= code <= 3,
        Role::spec_from_code(code) matches Some(role) ==> role.spec_code() == code,
        PauseReason::Maintenance.spec_code() == 1,
        PauseReason::SecurityIncident.spec_code() == 2,
        PauseReason::RegulatoryHold.spec_code() == 3,
        PauseReason::Unpause.spec_code() == 4,
        PauseReason::Other.spec_code() == 99,
        PauseReason::spec_from_code(code).is_some() <==> 1 <= code <= 4 || code == 99,
        PauseReason::spec_from_code(code) matches Some(reason) ==> reason.spec_code() == code,
{
}

/// The role of an address is the one whose code its entry holds, and it has none
/// where there is no entry.
pub proof fn law_role_layout(s: LedgerState, a: Address)
    ensures
        ({
            let key = Value::List(seq![Value::Symbol("role"@), Value::Address(a)]);
            &&& !s.persistent.contains_key(key) ==> role_ok(s, a) && role_at(s, a) == None::<Role>
            &&& s.persistent.contains_key(key) && role_ok(s, a) ==> role_at(s, a).is_some()
                && s.persistent[key] == Value::U32(role_at(s, a).unwrap().spec_code())
            &&& s.persistent.contains_key(key) && (exists|role: Role|
                s.persistent[key] == Value::U32(#[trigger] role.spec_code())) ==> role_ok(s, a)
        }),
{
}

/// An audit entry is written as three fields, and read by their names.
pub proof fn law_entry_layout(e: AuditLogEntry, f: Map<Seq<char>, Value>)
    ensures
        entry_value(e) == Value::Record(
            map![
                "actor"@ => Value::Address(e.actor),
                "event_type"@ => Value::U32(e.event_type),
                "timestamp"@ => Value::U64(e.timestamp),
            ],
        ),
        ({
            let v = Value::Record(f);
            let d = entry_of(v);
            let typed = {
                &&& f.contains_key("actor"@) && f["actor"@] is Address
                &&& f.contains_key("event_type"@) && f["event_type"@] is U32
                &&& f.contains_key("timestamp"@) && f["timestamp"@] is U64
            };
            &&& is_entry(v) <==> typed
            &&& typed ==> {
                &&& f["actor"@] == Value::Address(d.actor)
                &&& f["event_type"@] == Value::U32(d.event_type)
                &&& f["timestamp"@] == Value::U64(d.timestamp)
            }
        }),
        forall|v: Value| #[trigger] is_entry(v) ==> v is Record,
{
}

/// Audit statistics are written as two fields, and read by their names.
pub proof fn law_stats_layout(t: AuditStats, f: Map<Seq<char>, Value>)
    ensures
        stats_value(t) == Value::Record(
            map![
                "last_event_type"@ => Value::U32(t.last_event_type),
                "total_events"@ => Value::U64(t.total_events),
            ],
        ),
        ({
            let v = Value::Record(f);
            let d = stats_of(v);
            let typed = {
                &&& f.contains_key("last_event_type"@) && f["last_event_type"@] is U32
                &&& f.contains_key("total_events"@) && f["total_events"@] is U64
            };
            &&& is_stats(v) <==> typed
            &&& typed ==> {
                &&& f["last_event_type"@] == Value::U32(d.last_event_type)
                &&& f["total_events"@] == Value::U64(d.total_events)
            }
        }),
        forall|v: Value| #[trigger] is_stats(v) ==> v is Record,
{
}

/// The audit log is the list in its entry, item by item, and is empty where there is
/// none. The statistics are those in their entry, and count nothing where there is
/// none.
pub proof fn law_audit_layout(s: LedgerState, items: Seq<Value>)
    ensures
        log_of(Value::List(items)).len() == items.len(),
        forall|i: int|
            0 <= i < items.len() ==> #[trigger] log_of(Value::List(items))[i] == entry_of(items[i]),
        is_log(Value::List(items)) <==> forall|i: int|
            0 <= i < items.len() ==> is_entry(#[trigger] items[i]) && is_table(items[i]),
        ({
            let key = Value::Symbol("adt_log"@);
            &&& audit_log_ok(s) <==> (s.instance.contains_key(key) ==> is_log(s.instance[key]))
            &&& audit_log_of(s) == log_of(Value::List(audit_items_of(s)))
            &&& !s.instance.contains_key(key) ==> audit_items_of(s).len() == 0
            &&& s.instance.contains_key(key) && audit_log_ok(s) ==> s.instance[key] == Value::List(
                audit_items_of(s),
            )
        }),
        ({
            let key = Value::Symbol("adt_stat"@);
            &&& audit_stats_ok(s) <==> (s.instance.contains_key(key) ==> is_stats(s.instance[key]))
            &&& !s.instance.contains_key(key) ==> audit_stats_of(s) == (AuditStats {
                total_events: 0,
                last_event_type: 0,
            })
            &&& s.instance.contains_key(key) ==> audit_stats_of(s) == stats_of(s.instance[key])
        }),
{
    if is_log(Value::List(items)) {
        let v = Value::List(items);
        assert forall|i: int| 0 <= i < items.len() implies is_entry(#[trigger] items[i])
            && is_table(items[i]) by {
            assert(is_entry(v->List_0[i]));
        }
    }
}

/// Statistics count each event once, as far as they can count, and keep the kind of
/// the latest.
pub proof fn law_counting(t: AuditStats, event_type: u32)
    ensures
        AuditStats::none().total_events == 0,
        AuditStats::none().last_event_type == 0,
        t.total_events < u64::MAX ==> t.recorded(event_type).total_events == t.total_events + 1,
        t.total_events == u64::MAX ==> t.recorded(event_type).total_events == u64::MAX,
        t.recorded(event_type).last_event_type == event_type,
{
}

/// What a page, a provenance or a configuration says is what its fields hold.
pub proof fn law_views(page: ExportPage, p: WasmProvenance, c: VerificationConfig)
    ensures
        page@.records.len() == page.records@.len(),
        forall|i: int|
            0 <= i < page.records@.len() ==> #[trigger] page@.records[i] == (
                page.records@[i].0@,
                page.records@[i].1,
            ),
        page@.next_cursor == page.next_cursor,
        page@.total == page.total,
        page@.has_more == page.has_more,
        p@.wasm_hash == p.wasm_hash,
        p@.previous_wasm_hash == p.previous_wasm_hash,
        p@.upgraded_by == p.upgraded_by,
        p@.upgraded_at == p.upgraded_at,
        p@.version == p.version@,
        p@.attested == p.attested,
        c@.attestation == c.attestation@,
        c@.expires_in == c.expires_in,
        c@.threshold == c.threshold,
{
}

} // verus!
