//! What every storage operation keeps: entries that can be read, and the admin.

use crate::audit::{
    entry_value, is_log, is_stats, law_stats_round_trip, stats_value, AuditLogEntry, AuditStats,
};
use crate::codec::{
    attestation_value, config_value, is_attestation, is_config, is_provenance, is_record,
    is_version, law_attestation_round_trip, law_config_round_trip, law_provenance_round_trip,
    law_record_round_trip, law_version_round_trip, provenance_value, record_value, version_value,
};
use crate::keys::{
    chunk_key, family_names, last_action_key, law_family_names, law_member_keys, law_single_names,
    member, pending_key, record_key, role_key, single, single_names, ADMIN_KEY, ATTEST_KEY,
    AUDIT_LOG_KEY, AUDIT_STATS_KEY, CHUNK_CNT_KEY, CHUNK_KEY, COOLDOWN_KEY, COUNT_KEY,
    EMERGENCY_PAUSE_KEY, EMERGENCY_PAUSE_TS_KEY, INDEX_KEY, LAST_ACT_KEY, LAST_UPG_KEY,
    PAUSED_KEY, PAUSE_REASON_KEY, PENDING_REVERIFY_KEY, PROV_KEY, REG_KEY, RESERVED_KEY, ROLE_KEY,
    VCOUNT_KEY, VER_CFG_KEY, VER_KEY,
};
use crate::laws::audit::law_logged_readable;
use crate::ledger::LedgerState;
use crate::storage::audit_log::{
    audit_items_of, audit_log_ok, audit_stats_of, audit_stats_ok, audited, logged,
};
use crate::storage::entries::{holds_bool, holds_u32, holds_u64, renew};
use crate::storage::export::visit_records;
use crate::storage::index::{
    added, chunk_count_of, chunk_of, chunk_ok, chunks_needed, compacted, held, index_of, index_ok,
    piece, put_chunk, put_chunk_count, put_index, put_pieces, remove_chunks, removed,
    strip_chunks, visit_chunk, without,
};
use crate::storage::records::{admin_of, admin_ok, put_record, record_ok, visit_record};
use crate::storage::reserved::{put_reserved, reserved_ok};
use crate::storage::roles::role_ok;
use crate::storage::settings::{
    attestation_ok, config_ok, pause_reason_ok, provenance_ok, version_ok,
};
use crate::types::{
    ContributorRecord, PauseReason, Role, VerificationConfigView, WasmAttestation,
    WasmProvenanceView,
};
use crate::usernames::{is_usernames, law_usernames_round_trip, usernames_value};
use crate::value::{Address, Value};
use vstd::prelude::*;

verus! {

/// Whether `v` is what the instance entry `key` is for.
pub open spec fn instance_fits(key: Value, v: Value) -> bool {
    &&& key == single(ADMIN_KEY) ==> v is Address
    &&& key == single(VER_CFG_KEY) ==> is_config(v)
    &&& key == single(COUNT_KEY) ==> v is U32
    &&& key == single(VCOUNT_KEY) ==> v is U32
    &&& key == single(INDEX_KEY) ==> is_usernames(v)
    &&& key == single(PAUSED_KEY) ==> v is Bool
    &&& key == single(COOLDOWN_KEY) ==> v is U64
    &&& key == single(EMERGENCY_PAUSE_KEY) ==> v is Bool
    &&& key == single(EMERGENCY_PAUSE_TS_KEY) ==> v is U64
    &&& key == single(LAST_UPG_KEY) ==> v is U64
    &&& key == single(VER_KEY) ==> is_version(v)
    &&& key == single(CHUNK_CNT_KEY) ==> v is U32
    &&& key == single(PROV_KEY) ==> is_provenance(v)
    &&& key == single(ATTEST_KEY) ==> is_attestation(v)
    &&& key == single(AUDIT_LOG_KEY) ==> is_log(v)
    &&& key == single(AUDIT_STATS_KEY) ==> is_stats(v)
    &&& key == single(PAUSE_REASON_KEY) ==> v is U32 && PauseReason::spec_from_code(
        v->U32_0,
    ).is_some()
    &&& key == single(RESERVED_KEY) ==> is_usernames(v)
}

/// Whether `v` is what the persistent entry `key` is for.
pub open spec fn persistent_fits(key: Value, v: Value) -> bool {
    &&& forall|u: Seq<u8>| key == #[trigger] record_key(u) ==> is_record(v)
    &&& forall|u: Seq<u8>| key == #[trigger] pending_key(u) ==> v is Bool
    &&& forall|c: u32| key == #[trigger] chunk_key(c) ==> is_usernames(v)
    &&& forall|u: Seq<u8>| key == #[trigger] last_action_key(u) ==> v is U64
    &&& forall|a: Address|
        key == #[trigger] role_key(a) ==> v is U32 && Role::spec_from_code(v->U32_0).is_some()
}

/// Every entry of the registry holds what it is for: nothing that an operation
/// reads is of another type.
pub open spec fn readable(s: LedgerState) -> bool {
    &&& forall|key: Value| #[trigger]
        s.instance.contains_key(key) ==> instance_fits(key, s.instance[key])
    &&& forall|key: Value| #[trigger]
        s.persistent.contains_key(key) ==> persistent_fits(key, s.persistent[key])
}

/// What every operation keeps between the state before it and the one after: the
/// entries stay readable, the admin stays the same, and the contract goes on
/// running in the same ledger.
pub open spec fn keeps(s: LedgerState, t: LedgerState) -> bool {
    &&& readable(s) ==> readable(t)
    &&& admin_of(t) == admin_of(s)
    &&& t.host == s.host
    &&& t.in_contract == s.in_contract
    &&& t.ledger_known == s.ledger_known
    &&& t.sequence == s.sequence
    &&& t.max_ttl == s.max_ttl
    &&& t.min_ttl == s.min_ttl
    &&& t.timestamp == s.timestamp
}

/// A contract without entries is readable.
pub proof fn law_empty_ledger_readable(s: LedgerState)
    requires
        s.instance == Map::<Value, Value>::empty(),
        s.persistent == Map::<Value, Value>::empty(),
    ensures
        readable(s),
{
}

/// Writing the admin address, as initialization does, keeps the entries readable.
pub proof fn law_initialize_readable(s: LedgerState, admin: Address)
    requires
        readable(s),
    ensures
        readable(s.put_instance(single(ADMIN_KEY), Value::Address(admin))),
        admin_of(s.put_instance(single(ADMIN_KEY), Value::Address(admin))) == Some(admin),
{
    lemma_instance_fits(Value::Address(admin));
}

/// In a readable state every operation can read what it needs.
pub proof fn law_readable_entries(s: LedgerState)
    requires
        readable(s),
    ensures
        admin_ok(s),
        config_ok(s),
        holds_u32(s.instance, single(COUNT_KEY)),
        holds_u32(s.instance, single(VCOUNT_KEY)),
        index_ok(s),
        holds_bool(s.instance, single(PAUSED_KEY)),
        holds_u64(s.instance, single(COOLDOWN_KEY)),
        holds_bool(s.instance, single(EMERGENCY_PAUSE_KEY)),
        holds_u64(s.instance, single(EMERGENCY_PAUSE_TS_KEY)),
        holds_u64(s.instance, single(LAST_UPG_KEY)),
        version_ok(s),
        holds_u32(s.instance, single(CHUNK_CNT_KEY)),
        provenance_ok(s),
        attestation_ok(s),
        audit_log_ok(s),
        audit_stats_ok(s),
        pause_reason_ok(s),
        reserved_ok(s),
        forall|u: Seq<u8>| #[trigger] record_ok(s, u),
        forall|u: Seq<u8>| holds_bool(s.persistent, #[trigger] pending_key(u)),
        forall|c: u32| #[trigger] chunk_ok(s, c),
        forall|u: Seq<u8>| holds_u64(s.persistent, #[trigger] last_action_key(u)),
        forall|a: Address| #[trigger] role_ok(s, a),
{
}

/// What fits each instance entry.
proof fn lemma_instance_fits(v: Value)
    ensures
        instance_fits(single(ADMIN_KEY), v) == (v is Address),
        instance_fits(single(VER_CFG_KEY), v) == is_config(v),
        instance_fits(single(COUNT_KEY), v) == (v is U32),
        instance_fits(single(VCOUNT_KEY), v) == (v is U32),
        instance_fits(single(INDEX_KEY), v) == is_usernames(v),
        instance_fits(single(PAUSED_KEY), v) == (v is Bool),
        instance_fits(single(COOLDOWN_KEY), v) == (v is U64),
        instance_fits(single(EMERGENCY_PAUSE_KEY), v) == (v is Bool),
        instance_fits(single(EMERGENCY_PAUSE_TS_KEY), v) == (v is U64),
        instance_fits(single(LAST_UPG_KEY), v) == (v is U64),
        instance_fits(single(VER_KEY), v) == is_version(v),
        instance_fits(single(CHUNK_CNT_KEY), v) == (v is U32),
        instance_fits(single(PROV_KEY), v) == is_provenance(v),
        instance_fits(single(ATTEST_KEY), v) == is_attestation(v),
        instance_fits(single(AUDIT_LOG_KEY), v) == is_log(v),
        instance_fits(single(AUDIT_STATS_KEY), v) == is_stats(v),
        instance_fits(single(PAUSE_REASON_KEY), v) == (v is U32 && PauseReason::spec_from_code(
            v->U32_0,
        ).is_some()),
        instance_fits(single(RESERVED_KEY), v) == is_usernames(v),
{
    lemma_names();
}

/// The names of single entries by their position.
proof fn lemma_names()
    ensures
        single_names().no_duplicates(),
        single_names().len() == 18,
        single_names()[0] == ADMIN_KEY@,
        single_names()[1] == VER_CFG_KEY@,
        single_names()[2] == COUNT_KEY@,
        single_names()[3] == VCOUNT_KEY@,
        single_names()[4] == INDEX_KEY@,
        single_names()[5] == PAUSED_KEY@,
        single_names()[6] == COOLDOWN_KEY@,
        single_names()[7] == EMERGENCY_PAUSE_KEY@,
        single_names()[8] == EMERGENCY_PAUSE_TS_KEY@,
        single_names()[9] == LAST_UPG_KEY@,
        single_names()[10] == VER_KEY@,
        single_names()[11] == CHUNK_CNT_KEY@,
        single_names()[12] == PROV_KEY@,
        single_names()[13] == ATTEST_KEY@,
        single_names()[14] == AUDIT_LOG_KEY@,
        single_names()[15] == AUDIT_STATS_KEY@,
        single_names()[16] == PAUSE_REASON_KEY@,
        single_names()[17] == RESERVED_KEY@,
{
    law_single_names();
}

/// What fits each persistent entry.
proof fn lemma_persistent_fits(v: Value, u: Seq<u8>, c: u32, a: Address)
    ensures
        persistent_fits(record_key(u), v) == is_record(v),
        persistent_fits(pending_key(u), v) == (v is Bool),
        persistent_fits(chunk_key(c), v) == is_usernames(v),
        persistent_fits(last_action_key(u), v) == (v is U64),
        persistent_fits(role_key(a), v) == (v is U32 && Role::spec_from_code(v->U32_0).is_some()),
{
    law_family_names();
    let names = family_names();
    assert(names[0] == REG_KEY@ && names[1] == PENDING_REVERIFY_KEY@ && names[2] == CHUNK_KEY@
        && names[3] == LAST_ACT_KEY@ && names[4] == ROLE_KEY@);
    assert forall|m: &str, x: Value, n: &str, y: Value| #[trigger]
        member(m, x) == #[trigger] member(n, y) implies m@ == n@ by {
        law_member_keys(m, x, n, y);
    }
}

/// Writing an instance entry other than the admin's.
proof fn lemma_put_instance_keeps(s: LedgerState, key: Value, v: Value)
    requires
        instance_fits(key, v),
        key != single(ADMIN_KEY),
    ensures
        keeps(s, s.put_instance(key, v)),
{
}

/// Writing a persistent entry.
proof fn lemma_put_keeps(s: LedgerState, key: Value, v: Value)
    requires
        persistent_fits(key, v),
    ensures
        keeps(s, s.put(key, v)),
        keeps(s, renew(s.put(key, v), key)),
{
}

/// The operations on settings and counters keep the entries readable and the
/// admin as it is.
pub proof fn law_settings_keep(
    s: LedgerState,
    n: u32,
    time: u64,
    flag: bool,
    version: (u32, u32, u32),
    provenance: WasmProvenanceView,
    attestation: WasmAttestation,
    config: VerificationConfigView,
    reason: PauseReason,
)
    ensures
        keeps(s, s.put_instance(single(COUNT_KEY), Value::U32(n))),
        keeps(s, s.put_instance(single(VCOUNT_KEY), Value::U32(n))),
        keeps(s, s.put_instance(single(PAUSED_KEY), Value::Bool(flag))),
        keeps(s, s.put_instance(single(COOLDOWN_KEY), Value::U64(time))),
        keeps(s, s.put_instance(single(EMERGENCY_PAUSE_KEY), Value::Bool(flag))),
        keeps(s, s.put_instance(single(EMERGENCY_PAUSE_TS_KEY), Value::U64(time))),
        keeps(s, s.put_instance(single(LAST_UPG_KEY), Value::U64(time))),
        keeps(s, s.put_instance(single(VER_KEY), version_value(version))),
        keeps(s, s.put_instance(single(PROV_KEY), provenance_value(provenance))),
        keeps(s, s.put_instance(single(ATTEST_KEY), attestation_value(attestation))),
        keeps(s, s.remove_instance(single(ATTEST_KEY))),
        keeps(s, s.put_instance(single(VER_CFG_KEY), config_value(config))),
        keeps(s, s.put_instance(single(PAUSE_REASON_KEY), Value::U32(reason.spec_code()))),
{
    lemma_names();
    lemma_instance_fits(Value::U32(n));
    lemma_instance_fits(Value::U64(time));
    lemma_instance_fits(Value::Bool(flag));
    law_version_round_trip(version);
    lemma_instance_fits(version_value(version));
    law_provenance_round_trip(provenance);
    lemma_instance_fits(provenance_value(provenance));
    law_attestation_round_trip(attestation);
    lemma_instance_fits(attestation_value(attestation));
    law_config_round_trip(config);
    lemma_instance_fits(config_value(config));
    lemma_instance_fits(Value::U32(reason.spec_code()));
    lemma_put_instance_keeps(s, single(COUNT_KEY), Value::U32(n));
    lemma_put_instance_keeps(s, single(VCOUNT_KEY), Value::U32(n));
    lemma_put_instance_keeps(s, single(PAUSED_KEY), Value::Bool(flag));
    lemma_put_instance_keeps(s, single(COOLDOWN_KEY), Value::U64(time));
    lemma_put_instance_keeps(s, single(EMERGENCY_PAUSE_KEY), Value::Bool(flag));
    lemma_put_instance_keeps(s, single(EMERGENCY_PAUSE_TS_KEY), Value::U64(time));
    lemma_put_instance_keeps(s, single(LAST_UPG_KEY), Value::U64(time));
    lemma_put_instance_keeps(s, single(VER_KEY), version_value(version));
    lemma_put_instance_keeps(s, single(PROV_KEY), provenance_value(provenance));
    lemma_put_instance_keeps(s, single(ATTEST_KEY), attestation_value(attestation));
    lemma_put_instance_keeps(s, single(VER_CFG_KEY), config_value(config));
    lemma_put_instance_keeps(s, single(PAUSE_REASON_KEY), Value::U32(reason.spec_code()));
}

/// The operations on a contributor, a role, the audit log and the reserved list
/// keep the entries readable and the admin as it is.
pub proof fn law_entries_keep(
    s: LedgerState,
    u: Seq<u8>,
    record: ContributorRecord,
    flag: bool,
    time: u64,
    address: Address,
    role: Role,
    stats: AuditStats,
    entry: AuditLogEntry,
    list: Seq<Seq<u8>>,
)
    ensures
        keeps(s, visit_record(s, u)),
        keeps(s, put_record(s, u, record)),
        keeps(s, s.remove(record_key(u))),
        keeps(s, s.put(pending_key(u), Value::Bool(flag))),
        keeps(s, s.remove(pending_key(u))),
        keeps(s, renew(s.put(last_action_key(u), Value::U64(time)), last_action_key(u))),
        keeps(s, s.put(role_key(address), Value::U32(role.spec_code()))),
        keeps(s, s.remove(role_key(address))),
        keeps(s, s.put_instance(single(AUDIT_STATS_KEY), stats_value(stats))),
        keeps(s, audited(s, entry)),
        keeps(s, put_reserved(s, list)),
{
    lemma_names();
    let recorded = audit_stats_of(s).recorded(entry.event_type);
    let log = Value::List(logged(audit_items_of(s), entry_value(entry)));
    law_record_round_trip(record);
    lemma_persistent_fits(record_value(record), u, 0, address);
    lemma_persistent_fits(Value::Bool(flag), u, 0, address);
    lemma_persistent_fits(Value::U64(time), u, 0, address);
    lemma_persistent_fits(Value::U32(role.spec_code()), u, 0, address);
    lemma_put_keeps(s, record_key(u), record_value(record));
    lemma_put_keeps(s, pending_key(u), Value::Bool(flag));
    lemma_put_keeps(s, last_action_key(u), Value::U64(time));
    lemma_put_keeps(s, role_key(address), Value::U32(role.spec_code()));
    law_stats_round_trip(stats);
    lemma_instance_fits(stats_value(stats));
    lemma_put_instance_keeps(s, single(AUDIT_STATS_KEY), stats_value(stats));
    law_stats_round_trip(recorded);
    lemma_instance_fits(stats_value(recorded));
    lemma_put_instance_keeps(s, single(AUDIT_STATS_KEY), stats_value(recorded));
    let counted = s.put_instance(single(AUDIT_STATS_KEY), stats_value(recorded));
    lemma_instance_fits(log);
    if readable(s) {
        law_readable_entries(s);
        law_logged_readable(audit_items_of(s), entry);
        lemma_put_instance_keeps(counted, single(AUDIT_LOG_KEY), log);
    }
    law_usernames_round_trip(list);
    lemma_instance_fits(usernames_value(list));
    lemma_put_instance_keeps(
        s,
        single(RESERVED_KEY),
        usernames_value(list),
    );
}

/// The operations on the index, and the export, keep the entries readable and
/// the admin as it is.
pub proof fn law_index_keeps(s: LedgerState, list: Seq<Seq<u8>>, n: u32, u: Seq<u8>)
    ensures
        keeps(s, put_index(s, list)),
        keeps(s, put_chunk_count(s, n)),
        keeps(s, visit_chunk(s, n)),
        keeps(s, put_chunk(s, n, list)),
        keeps(s, added(s, u)),
        keeps(s, removed(s, u)),
        keeps(s, compacted(s)),
        keeps(s, visit_records(s, list)),
{
    lemma_put_index_keeps(s, list);
    lemma_put_chunk_count_keeps(s, n);
    lemma_put_chunk_keeps(s, n, list);
    lemma_visit_records_keeps(s, list);
    // Adding.
    let count = chunk_count_of(s);
    let last = (count - 1) as u32;
    let indexed = put_index(s, index_of(s).push(u));
    let read = if count == 0 {
        indexed
    } else {
        visit_chunk(indexed, last)
    };
    lemma_put_index_keeps(s, index_of(s).push(u));
    lemma_put_chunk_keeps(read, count, seq![u]);
    lemma_put_chunk_count_keeps(put_chunk(read, count, seq![u]), (count + 1) as u32);
    lemma_put_chunk_keeps(read, last, chunk_of(s, last).push(u));
    // Removing.
    let shorter = put_index(s, without(index_of(s), u));
    let stripped = strip_chunks(shorter, u, count);
    lemma_put_index_keeps(s, without(index_of(s), u));
    lemma_strip_chunks_keeps(shorter, u, count);
    lemma_remove_chunks_keeps(stripped, count);
    lemma_put_chunk_count_keeps(remove_chunks(stripped, count), 0);
    // Compacting.
    let needed = chunks_needed(index_of(s).len()) as u32;
    let cleared = remove_chunks(s, count);
    lemma_remove_chunks_keeps(s, count);
    lemma_put_pieces_keeps(cleared, index_of(s), needed);
    lemma_put_chunk_count_keeps(put_pieces(cleared, index_of(s), needed), needed);
}

proof fn lemma_put_index_keeps(s: LedgerState, list: Seq<Seq<u8>>)
    ensures
        keeps(s, put_index(s, list)),
{
    lemma_names();
    law_usernames_round_trip(list);
    lemma_instance_fits(usernames_value(list));
    lemma_put_instance_keeps(s, single(INDEX_KEY), usernames_value(list));
}

proof fn lemma_put_chunk_count_keeps(s: LedgerState, n: u32)
    ensures
        keeps(s, put_chunk_count(s, n)),
{
    lemma_names();
    lemma_instance_fits(Value::U32(n));
    lemma_put_instance_keeps(s, single(CHUNK_CNT_KEY), Value::U32(n));
}

proof fn lemma_put_chunk_keeps(s: LedgerState, c: u32, list: Seq<Seq<u8>>)
    ensures
        keeps(s, put_chunk(s, c, list)),
{
    law_usernames_round_trip(list);
    lemma_persistent_fits(
        usernames_value(list),
        Seq::empty(),
        c,
        arbitrary(),
    );
    lemma_put_keeps(s, chunk_key(c), usernames_value(list));
}

proof fn lemma_strip_chunks_keeps(s: LedgerState, u: Seq<u8>, n: u32)
    ensures
        keeps(s, strip_chunks(s, u, n)),
    decreases n,
{
    if n > 0 {
        let c = (n - 1) as u32;
        lemma_strip_chunks_keeps(s, u, c);
        let before = strip_chunks(s, u, c);
        let read = if held(s, u, c) {
            before
        } else {
            visit_chunk(before, c)
        };
        lemma_put_chunk_keeps(read, c, without(chunk_of(s, c), u));
    }
}

proof fn lemma_visit_records_keeps(s: LedgerState, usernames: Seq<Seq<u8>>)
    ensures
        keeps(s, visit_records(s, usernames)),
    decreases usernames.len(),
{
    if usernames.len() > 0 {
        lemma_visit_records_keeps(s, usernames.drop_last());
    }
}

proof fn lemma_remove_chunks_keeps(s: LedgerState, n: u32)
    ensures
        keeps(s, remove_chunks(s, n)),
    decreases n,
{
    if n > 0 {
        lemma_remove_chunks_keeps(s, (n - 1) as u32);
    }
}

proof fn lemma_put_pieces_keeps(s: LedgerState, index: Seq<Seq<u8>>, n: u32)
    ensures
        keeps(s, put_pieces(s, index, n)),
    decreases n,
{
    if n > 0 {
        let last = (n - 1) as u32;
        lemma_put_pieces_keeps(s, index, last);
        lemma_put_chunk_keeps(
            put_pieces(s, index, last),
            last,
            piece(index, last),
        );
    }
}

/// Writing or removing one instance entry leaves the other ones as they are.
pub proof fn law_single_entries_independent(s: LedgerState, i: int, j: int, v: Value)
    requires
        0 <= i < single_names().len(),
        0 <= j < single_names().len(),
        i != j,
    ensures
        ({
            let key = Value::Symbol(single_names()[i]);
            let other = Value::Symbol(single_names()[j]);
            &&& s.put_instance(key, v).instance.contains_key(other) == s.instance.contains_key(
                other,
            )
            &&& s.put_instance(key, v).instance[other] == s.instance[other]
            &&& s.remove_instance(key).instance.contains_key(other) == s.instance.contains_key(
                other,
            )
            &&& s.remove_instance(key).instance[other] == s.instance[other]
        }),
{
    lemma_names();
}

/// Writing, removing or renewing one persistent entry leaves every other one as it
/// is, whether it is of the same family or of another, and its lifetime too.
pub proof fn law_members_independent(
    s: LedgerState,
    a: &str,
    x: Value,
    b: &str,
    y: Value,
    v: Value,
)
    requires
        a@ != b@ || x != y,
    ensures
        ({
            let key = member(a, x);
            let other = member(b, y);
            &&& s.put(key, v).persistent.contains_key(other) == s.persistent.contains_key(other)
            &&& s.put(key, v).persistent[other] == s.persistent[other]
            &&& s.put(key, v).live_until[other] == s.live_until[other]
            &&& s.remove(key).persistent.contains_key(other) == s.persistent.contains_key(other)
            &&& s.remove(key).persistent[other] == s.persistent[other]
            &&& s.remove(key).live_until[other] == s.live_until[other]
            &&& renew(s, key).persistent == s.persistent
            &&& renew(s, key).live_until[other] == s.live_until[other]
        }),
{
    law_member_keys(a, x, b, y);
}

} // verus!
