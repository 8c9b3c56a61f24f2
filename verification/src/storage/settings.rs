//! The contract-wide settings: pauses, cooldown, version, upgrades and
//! verification.

use crate::codec::{
    attestation_from_val, attestation_of, attestation_to_val, attestation_value, config_from_val,
    config_of, config_to_val, config_value, is_attestation, is_config, is_provenance, is_version,
    provenance_from_val, provenance_of, provenance_to_val, provenance_value, version_from_val,
    version_of, version_to_val, version_value,
};
use crate::host::{
    instance_get, instance_has, instance_remove, instance_set, running, state, val_u32,
};
use crate::keys::{
    single, single_key, ATTEST_KEY, COOLDOWN_KEY, EMERGENCY_PAUSE_KEY, EMERGENCY_PAUSE_TS_KEY,
    LAST_UPG_KEY, PAUSED_KEY, PAUSE_REASON_KEY, PROV_KEY, VERSION_KEY, VER_CFG_KEY,
};
use crate::ledger::LedgerState;
use crate::storage::entries::{
    bool_at, holds_bool, holds_u64, read_bool, read_u64, u64_at, write_bool, write_u32, write_u64,
};
use crate::types::{
    ContractError, PauseReason, VerificationConfig, VerificationConfigView, WasmAttestation,
    WasmProvenance, WasmProvenanceView,
};
use crate::value::{is_symbol, Value};
use soroban_sdk::Env;
use vstd::prelude::*;

verus! {

/// The version entry holds a version, if it is there.
pub open spec fn version_ok(s: LedgerState) -> bool {
    s.instance.contains_key(single(VERSION_KEY)) ==> is_version(s.instance[single(VERSION_KEY)])
}

/// The recorded version, if there is one.
pub open spec fn version_at(s: LedgerState) -> Option<(u32, u32, u32)> {
    if s.instance.contains_key(single(VERSION_KEY)) {
        Some(version_of(s.instance[single(VERSION_KEY)]))
    } else {
        None
    }
}

/// The provenance entry holds a provenance, if it is there.
pub open spec fn provenance_ok(s: LedgerState) -> bool {
    s.instance.contains_key(single(PROV_KEY)) ==> is_provenance(s.instance[single(PROV_KEY)])
}

/// The provenance of the deployed WASM, if there is one.
pub open spec fn provenance_at(s: LedgerState) -> Option<WasmProvenanceView> {
    if s.instance.contains_key(single(PROV_KEY)) {
        Some(provenance_of(s.instance[single(PROV_KEY)]))
    } else {
        None
    }
}

/// The attestation entry holds an attestation, if it is there.
pub open spec fn attestation_ok(s: LedgerState) -> bool {
    s.instance.contains_key(single(ATTEST_KEY)) ==> is_attestation(s.instance[single(ATTEST_KEY)])
}

/// The pending attestation, if there is one.
pub open spec fn attestation_at(s: LedgerState) -> Option<WasmAttestation> {
    if s.instance.contains_key(single(ATTEST_KEY)) {
        Some(attestation_of(s.instance[single(ATTEST_KEY)]))
    } else {
        None
    }
}

/// The configuration entry holds a verification configuration, if it is there.
pub open spec fn config_ok(s: LedgerState) -> bool {
    s.instance.contains_key(single(VER_CFG_KEY)) ==> is_config(s.instance[single(VER_CFG_KEY)])
}

/// The verification configuration, if there is one.
pub open spec fn config_at(s: LedgerState) -> Option<VerificationConfigView> {
    if s.instance.contains_key(single(VER_CFG_KEY)) {
        Some(config_of(s.instance[single(VER_CFG_KEY)]))
    } else {
        None
    }
}

/// The reason entry holds the code of a reason, if it is there.
pub open spec fn pause_reason_ok(s: LedgerState) -> bool {
    s.instance.contains_key(single(PAUSE_REASON_KEY)) ==> {
        &&& s.instance[single(PAUSE_REASON_KEY)] is U32
        &&& PauseReason::spec_from_code(
            s.instance[single(PAUSE_REASON_KEY)]->U32_0,
        ).is_some()
    }
}

/// The reason of the last pause or unpause, or `Other` if none is recorded.
pub open spec fn pause_reason_at(s: LedgerState) -> PauseReason {
    if s.instance.contains_key(single(PAUSE_REASON_KEY)) {
        PauseReason::spec_from_code(s.instance[single(PAUSE_REASON_KEY)]->U32_0).unwrap()
    } else {
        PauseReason::Other
    }
}

/// Whether the contract is paused.
pub open spec fn paused(s: LedgerState) -> bool {
    bool_at(s.instance, single(PAUSED_KEY))
}

/// Returns the action cooldown in seconds. It is 0, which disables it, until it
/// is set.
pub fn get_cooldown(env: &Env) -> (r: u64)
    requires
        running(*env),
        holds_u64(state(*env).instance, single(COOLDOWN_KEY)),
    ensures
        r == u64_at(state(*env).instance, single(COOLDOWN_KEY)),
{
    proof {
        reveal_strlit("cdown");
    }
    read_u64(env, COOLDOWN_KEY)
}

/// Sets the action cooldown.
pub fn set_cooldown(env: &mut Env, cooldown_seconds: u64)
    requires
        running(*old(env)),
    ensures
        state(*final(env)) == state(*old(env)).put_instance(
            single(COOLDOWN_KEY),
            Value::U64(cooldown_seconds),
        ),
{
    proof {
        reveal_strlit("cdown");
    }
    write_u64(env, COOLDOWN_KEY, cooldown_seconds);
}

/// Returns the emergency pause flag.
pub fn get_emergency_pause(env: &Env) -> (r: bool)
    requires
        running(*env),
        holds_bool(state(*env).instance, single(EMERGENCY_PAUSE_KEY)),
    ensures
        r == bool_at(state(*env).instance, single(EMERGENCY_PAUSE_KEY)),
{
    proof {
        reveal_strlit("emrg_ps");
    }
    read_bool(env, EMERGENCY_PAUSE_KEY)
}

/// Sets the emergency pause flag.
pub fn set_emergency_pause(env: &mut Env, flag: bool)
    requires
        running(*old(env)),
    ensures
        state(*final(env)) == state(*old(env)).put_instance(
            single(EMERGENCY_PAUSE_KEY),
            Value::Bool(flag),
        ),
{
    proof {
        reveal_strlit("emrg_ps");
    }
    write_bool(env, EMERGENCY_PAUSE_KEY, flag);
}

/// Returns the timestamp of the emergency pause, or 0.
pub fn get_emergency_pause_ts(env: &Env) -> (r: u64)
    requires
        running(*env),
        holds_u64(state(*env).instance, single(EMERGENCY_PAUSE_TS_KEY)),
    ensures
        r == u64_at(state(*env).instance, single(EMERGENCY_PAUSE_TS_KEY)),
{
    proof {
        reveal_strlit("emerg_ts");
    }
    read_u64(env, EMERGENCY_PAUSE_TS_KEY)
}

/// Sets the timestamp of the emergency pause.
pub fn set_emergency_pause_ts(env: &mut Env, ts: u64)
    requires
        running(*old(env)),
    ensures
        state(*final(env)) == state(*old(env)).put_instance(
            single(EMERGENCY_PAUSE_TS_KEY),
            Value::U64(ts),
        ),
{
    proof {
        reveal_strlit("emerg_ts");
    }
    write_u64(env, EMERGENCY_PAUSE_TS_KEY, ts);
}

/// Returns `true` if the contract's pause flag is set.
pub fn is_paused(env: &Env) -> (r: bool)
    requires
        running(*env),
        holds_bool(state(*env).instance, single(PAUSED_KEY)),
    ensures
        r == paused(state(*env)),
{
    proof {
        reveal_strlit("pause");
    }
    read_bool(env, PAUSED_KEY)
}

/// Refuses the call while the contract is paused.
pub fn require_not_paused(env: &Env) -> (r: Result<(), ContractError>)
    requires
        running(*env),
        holds_bool(state(*env).instance, single(PAUSED_KEY)),
    ensures
        r == (if paused(state(*env)) {
            Err::<(), ContractError>(ContractError::Paused)
        } else {
            Ok(())
        }),
{
    if is_paused(env) {
        Err(ContractError::Paused)
    } else {
        Ok(())
    }
}

/// Sets the contract's pause flag.
pub fn set_paused(env: &mut Env, paused: bool)
    requires
        running(*old(env)),
    ensures
        state(*final(env)) == state(*old(env)).put_instance(
            single(PAUSED_KEY),
            Value::Bool(paused),
        ),
{
    proof {
        reveal_strlit("pause");
    }
    write_bool(env, PAUSED_KEY, paused);
}

/// Returns the timestamp of the last upgrade, or 0.
pub fn get_last_upgrade(env: &Env) -> (r: u64)
    requires
        running(*env),
        holds_u64(state(*env).instance, single(LAST_UPG_KEY)),
    ensures
        r == u64_at(state(*env).instance, single(LAST_UPG_KEY)),
{
    proof {
        reveal_strlit("lastupg");
    }
    read_u64(env, LAST_UPG_KEY)
}

/// Sets the timestamp of the last upgrade.
pub fn set_last_upgrade(env: &mut Env, timestamp: u64)
    requires
        running(*old(env)),
    ensures
        state(*final(env)) == state(*old(env)).put_instance(
            single(LAST_UPG_KEY),
            Value::U64(timestamp),
        ),
{
    proof {
        reveal_strlit("lastupg");
    }
    write_u64(env, LAST_UPG_KEY, timestamp);
}

/// Returns the version recorded when the contract was initialized, or `None`
/// for an instance older than version tracking.
pub fn get_version(env: &Env) -> (r: Option<(u32, u32, u32)>)
    requires
        running(*env),
        version_ok(state(*env)),
    ensures
        r == version_at(state(*env)),
{
    proof {
        reveal_strlit("ver");
    }
    match instance_get(env, single_key(env, VERSION_KEY)) {
        Some(v) => Some(version_from_val(env, v)),
        None => None,
    }
}

/// Records the version.
pub fn set_version(env: &mut Env, version: (u32, u32, u32))
    requires
        running(*old(env)),
    ensures
        state(*final(env)) == state(*old(env)).put_instance(
            single(VERSION_KEY),
            version_value(version),
        ),
{
    proof {
        reveal_strlit("ver");
    }
    let key = single_key(env, VERSION_KEY);
    let v = version_to_val(env, version);
    instance_set(env, key, v);
}

/// Returns the provenance of the deployed WASM. `None` before the first upgrade.
pub fn get_wasm_provenance(env: &Env) -> (r: Option<WasmProvenance>)
    requires
        running(*env),
        provenance_ok(state(*env)),
    ensures
        match r {
            Some(provenance) => provenance_at(state(*env)) == Some(provenance@),
            None => provenance_at(state(*env)).is_none(),
        },
{
    proof {
        reveal_strlit("prov");
    }
    match instance_get(env, single_key(env, PROV_KEY)) {
        Some(v) => Some(provenance_from_val(env, v)),
        None => None,
    }
}

/// Records the provenance of the deployed WASM.
pub fn set_wasm_provenance(env: &mut Env, provenance: &WasmProvenance)
    requires
        running(*old(env)),
        provenance.version@.len() <= u32::MAX,
    ensures
        state(*final(env)) == state(*old(env)).put_instance(
            single(PROV_KEY),
            provenance_value(provenance@),
        ),
{
    proof {
        reveal_strlit("prov");
    }
    let key = single_key(env, PROV_KEY);
    let v = provenance_to_val(env, provenance);
    instance_set(env, key, v);
}

/// Returns the pending upgrade attestation, if one has been published, whether
/// it has expired or not.
pub fn get_wasm_attestation(env: &Env) -> (r: Option<WasmAttestation>)
    requires
        running(*env),
        attestation_ok(state(*env)),
    ensures
        r == attestation_at(state(*env)),
{
    proof {
        reveal_strlit("attest");
    }
    match instance_get(env, single_key(env, ATTEST_KEY)) {
        Some(v) => Some(attestation_from_val(env, v)),
        None => None,
    }
}

/// Publishes an upgrade attestation.
pub fn set_wasm_attestation(env: &mut Env, attestation: &WasmAttestation)
    requires
        running(*old(env)),
    ensures
        state(*final(env)) == state(*old(env)).put_instance(
            single(ATTEST_KEY),
            attestation_value(*attestation),
        ),
{
    proof {
        reveal_strlit("attest");
    }
    let key = single_key(env, ATTEST_KEY);
    let v = attestation_to_val(env, attestation);
    instance_set(env, key, v);
}

/// Removes the pending upgrade attestation.
pub fn remove_wasm_attestation(env: &mut Env)
    requires
        running(*old(env)),
    ensures
        state(*final(env)) == state(*old(env)).remove_instance(single(ATTEST_KEY)),
{
    proof {
        reveal_strlit("attest");
    }
    let key = single_key(env, ATTEST_KEY);
    instance_remove(env, key);
}

/// Returns whether verification has been configured.
pub fn is_verification_configured(env: &Env) -> (r: bool)
    requires
        running(*env),
    ensures
        r == config_at(state(*env)).is_some(),
{
    proof {
        reveal_strlit("vrfy_cfg");
    }
    instance_has(env, single_key(env, VER_CFG_KEY))
}

/// Returns the verification configuration, if there is one.
pub fn get_verification_config(env: &Env) -> (r: Option<VerificationConfig>)
    requires
        running(*env),
        config_ok(state(*env)),
    ensures
        match r {
            Some(config) => config_at(state(*env)) == Some(config@),
            None => config_at(state(*env)).is_none(),
        },
{
    proof {
        reveal_strlit("vrfy_cfg");
    }
    match instance_get(env, single_key(env, VER_CFG_KEY)) {
        Some(v) => Some(config_from_val(env, v)),
        None => None,
    }
}

/// Stores the verification configuration. A caller that wants it written once
/// asks `is_verification_configured` first.
pub fn set_verification_config(env: &mut Env, attestation: String, expires_in: u64, threshold: u32)
    requires
        running(*old(env)),
        is_symbol(attestation@),
    ensures
        state(*final(env)) == state(*old(env)).put_instance(
            single(VER_CFG_KEY),
            config_value(
                (VerificationConfigView { attestation: attestation@, expires_in, threshold }),
            ),
        ),
{
    proof {
        reveal_strlit("vrfy_cfg");
    }
    let config = VerificationConfig { attestation, expires_in, threshold };
    let key = single_key(env, VER_CFG_KEY);
    let v = config_to_val(env, &config);
    instance_set(env, key, v);
}

/// Returns the reason stored when the contract was last paused or unpaused, or
/// `PauseReason::Other` if none has been stored yet.
pub fn get_pause_reason(env: &Env) -> (r: PauseReason)
    requires
        running(*env),
        pause_reason_ok(state(*env)),
    ensures
        r == pause_reason_at(state(*env)),
{
    proof {
        reveal_strlit("p_reason");
    }
    match instance_get(env, single_key(env, PAUSE_REASON_KEY)) {
        Some(v) => PauseReason::from_code(val_u32(env, v)).unwrap(),
        None => PauseReason::Other,
    }
}

/// Stores the reason of a pause or unpause beside the pause flag.
pub fn set_pause_reason(env: &mut Env, reason: PauseReason)
    requires
        running(*old(env)),
    ensures
        state(*final(env)) == state(*old(env)).put_instance(
            single(PAUSE_REASON_KEY),
            Value::U32(reason.spec_code()),
        ),
{
    proof {
        reveal_strlit("p_reason");
    }
    write_u32(env, PAUSE_REASON_KEY, reason.code());
}

} // verus!
