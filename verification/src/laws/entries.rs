//! What is written is read back, and touches nothing else.

use crate::codec::{
    attestation_value, config_value, law_attestation_round_trip, law_config_round_trip,
    law_provenance_round_trip, law_record_round_trip, law_version_round_trip, provenance_value,
    version_value,
};
use crate::keys::{
    last_action_key, law_member_keys, pending_key, record_key, role_key, single, ATTEST_KEY,
    LAST_ACT_KEY, PAUSED_KEY, PAUSE_REASON_KEY, PENDING_REVERIFY_KEY, PROV_KEY, REG_KEY, ROLE_KEY,
    VER_CFG_KEY, VER_KEY,
};
use crate::ledger::LedgerState;
use crate::storage::entries::{bool_at, holds_bool, holds_u32, holds_u64, renew, u32_at, u64_at};
use crate::storage::records::{put_record, record_at, record_ok, visit_record};
use crate::storage::roles::{role_at, role_ok};
use crate::storage::settings::{
    attestation_at, attestation_ok, config_at, config_ok, pause_reason_at, pause_reason_ok,
    paused, provenance_at, provenance_ok, version_at, version_ok,
};
use crate::types::{
    law_pause_reason_codes, law_role_codes, ContributorRecord, PauseReason, Role,
    VerificationConfigView, WasmAttestation, WasmProvenanceView,
};
use crate::value::{Address, Value};
use vstd::prelude::*;

verus! {

/// A record that is written is read back, and the records of others stay as they
/// are.
pub proof fn law_record_read_back(
    s: LedgerState,
    u: Seq<u8>,
    record: ContributorRecord,
    v: Seq<u8>,
)
    ensures
        record_ok(put_record(s, u, record), u),
        record_at(put_record(s, u, record), u) == Some(record),
        v != u ==> record_at(put_record(s, u, record), v) == record_at(s, v),
{
    law_record_round_trip(record);
    law_member_keys(REG_KEY, Value::Str(u), REG_KEY, Value::Str(v));
}

/// A record that is removed is gone, and the records of others stay as they are.
pub proof fn law_record_removed(s: LedgerState, u: Seq<u8>, v: Seq<u8>)
    ensures
        record_at(s.remove(record_key(u)), u).is_none(),
        v != u ==> record_at(s.remove(record_key(u)), v) == record_at(s, v),
{
    law_member_keys(REG_KEY, Value::Str(u), REG_KEY, Value::Str(v));
}

/// Reading or extending a record changes no record.
pub proof fn law_record_access(s: LedgerState, u: Seq<u8>, v: Seq<u8>)
    ensures
        record_at(visit_record(s, u), v) == record_at(s, v),
        record_ok(visit_record(s, u), v) == record_ok(s, v),
{
}

/// A number or flag that is written to an instance entry is read back.
pub proof fn law_numbers_read_back(s: LedgerState, name: &str, n: u32, time: u64, flag: bool)
    ensures
        holds_u32(s.put_instance(single(name), Value::U32(n)).instance, single(name)),
        u32_at(s.put_instance(single(name), Value::U32(n)).instance, single(name)) == n,
        holds_u64(s.put_instance(single(name), Value::U64(time)).instance, single(name)),
        u64_at(s.put_instance(single(name), Value::U64(time)).instance, single(name)) == time,
        holds_bool(s.put_instance(single(name), Value::Bool(flag)).instance, single(name)),
        bool_at(s.put_instance(single(name), Value::Bool(flag)).instance, single(name)) == flag,
{
}

/// The contract is paused exactly if that was the last setting.
pub proof fn law_pause_read_back(s: LedgerState, flag: bool)
    ensures
        paused(s.put_instance(single(PAUSED_KEY), Value::Bool(flag))) == flag,
{
}

/// The reason of a pause is read back, and is `Other` where none was written.
pub proof fn law_pause_reason_read_back(s: LedgerState, reason: PauseReason)
    ensures
        ({
            let t = s.put_instance(single(PAUSE_REASON_KEY), Value::U32(reason.spec_code()));
            pause_reason_ok(t) && pause_reason_at(t) == reason
        }),
        !s.instance.contains_key(single(PAUSE_REASON_KEY)) ==> pause_reason_at(s)
            == PauseReason::Other,
{
    law_pause_reason_codes(reason.spec_code());
}

/// A version is read back.
pub proof fn law_version_read_back(s: LedgerState, version: (u32, u32, u32))
    ensures
        version_ok(s.put_instance(single(VER_KEY), version_value(version))),
        version_at(s.put_instance(single(VER_KEY), version_value(version))) == Some(version),
{
    law_version_round_trip(version);
}

/// A provenance is read back.
pub proof fn law_provenance_read_back(s: LedgerState, p: WasmProvenanceView)
    ensures
        provenance_ok(s.put_instance(single(PROV_KEY), provenance_value(p))),
        provenance_at(s.put_instance(single(PROV_KEY), provenance_value(p))) == Some(p),
{
    law_provenance_round_trip(p);
}

/// An attestation is read back until it is removed.
pub proof fn law_attestation_read_back(s: LedgerState, a: WasmAttestation)
    ensures
        attestation_ok(s.put_instance(single(ATTEST_KEY), attestation_value(a))),
        attestation_at(s.put_instance(single(ATTEST_KEY), attestation_value(a))) == Some(a),
        attestation_at(s.remove_instance(single(ATTEST_KEY))).is_none(),
{
    law_attestation_round_trip(a);
}

/// A verification configuration is read back, and writing it twice is writing it
/// once.
pub proof fn law_config_read_back(s: LedgerState, c: VerificationConfigView)
    ensures
        ({
            let t = s.put_instance(single(VER_CFG_KEY), config_value(c));
            &&& config_ok(t)
            &&& config_at(t) == Some(c)
            &&& t.put_instance(single(VER_CFG_KEY), config_value(c)) == t
        }),
{
    let t = s.put_instance(single(VER_CFG_KEY), config_value(c));
    law_config_round_trip(c);
    assert(t.put_instance(single(VER_CFG_KEY), config_value(c)).instance =~= t.instance);
}

/// A pending reverification is read back until it is cleared, and the flags of
/// others stay as they are.
pub proof fn law_pending_read_back(s: LedgerState, u: Seq<u8>, flag: bool, v: Seq<u8>)
    ensures
        ({
            let t = s.put(pending_key(u), Value::Bool(flag));
            &&& holds_bool(t.persistent, pending_key(u))
            &&& bool_at(t.persistent, pending_key(u)) == flag
            &&& v != u ==> bool_at(t.persistent, pending_key(v)) == bool_at(
                s.persistent,
                pending_key(v),
            )
        }),
        ({
            let t = s.remove(pending_key(u));
            &&& holds_bool(t.persistent, pending_key(u))
            &&& !bool_at(t.persistent, pending_key(u))
            &&& v != u ==> bool_at(t.persistent, pending_key(v)) == bool_at(
                s.persistent,
                pending_key(v),
            )
        }),
{
    law_member_keys(PENDING_REVERIFY_KEY, Value::Str(u), PENDING_REVERIFY_KEY, Value::Str(v));
}

/// The time of a last action is read back, and those of others stay as they are.
pub proof fn law_last_action_read_back(s: LedgerState, u: Seq<u8>, time: u64, v: Seq<u8>)
    ensures
        ({
            let t = renew(s.put(last_action_key(u), Value::U64(time)), last_action_key(u));
            &&& holds_u64(t.persistent, last_action_key(u))
            &&& u64_at(t.persistent, last_action_key(u)) == time
            &&& v != u ==> u64_at(t.persistent, last_action_key(v)) == u64_at(
                s.persistent,
                last_action_key(v),
            )
        }),
{
    law_member_keys(LAST_ACT_KEY, Value::Str(u), LAST_ACT_KEY, Value::Str(v));
}

/// A role is read back until it is taken, and the roles of others stay as they
/// are.
pub proof fn law_role_read_back(s: LedgerState, a: Address, role: Role, b: Address)
    ensures
        ({
            let t = s.put(role_key(a), Value::U32(role.spec_code()));
            &&& role_ok(t, a)
            &&& role_at(t, a) == Some(role)
            &&& b != a ==> role_at(t, b) == role_at(s, b)
        }),
        ({
            let t = s.remove(role_key(a));
            &&& role_at(t, a).is_none()
            &&& b != a ==> role_at(t, b) == role_at(s, b)
        }),
{
    law_role_codes(role, role.spec_code());
    law_member_keys(ROLE_KEY, Value::Address(a), ROLE_KEY, Value::Address(b));
}

} // verus!
