use soroban_sdk::testutils::{ContractFunctionSet, EnvTestConfig};
use soroban_sdk::{BytesN, Env, Map as HostMap, Symbol, TryFromVal, Val, Vec as HostVec};
use trustbridge_storage::storage::{
    get_cooldown, get_emergency_pause, get_emergency_pause_ts, get_last_upgrade,
    get_pause_reason, get_verification_config, get_version, get_wasm_attestation,
    get_wasm_provenance, is_paused, is_verification_configured, remove_wasm_attestation,
    require_not_paused, set_cooldown, set_emergency_pause, set_emergency_pause_ts,
    set_last_upgrade, set_pause_reason, set_paused, set_verification_config, set_version,
    set_wasm_attestation, set_wasm_provenance, ContractError, PauseReason, VerificationConfig,
    WasmAttestation, WasmProvenance,
};
use trustbridge_storage::value::Address;

struct Registry;

impl ContractFunctionSet for Registry {
    fn call(&self, _func: &str, _env: Env, _args: &[Val]) -> Option<Val> {
        None
    }
}

fn run(f: impl FnOnce(&mut Env)) {
    let env = Env::new_with_config(EnvTestConfig { capture_snapshot_at_drop: false });
    let id = env.register(Registry, ());
    let mut inner = env.clone();
    env.as_contract(&id, || f(&mut inner));
}

fn provenance() -> WasmProvenance {
    WasmProvenance {
        wasm_hash: [1; 32],
        previous_wasm_hash: Some([2; 32]),
        upgraded_by: Address::Account([3; 32]),
        upgraded_at: u64::MAX,
        version: vec![1, 2, 3],
        attested: true,
    }
}

fn attestation() -> WasmAttestation {
    WasmAttestation {
        wasm_hash: [4; 32],
        expires_at: 0,
        attested_by: Address::Contract([5; 32]),
        attested_at: 9_000_000_000,
    }
}

#[test]
fn numbers_and_flags_start_unset_and_are_read_back() {
    run(|env| {
        assert_eq!(get_cooldown(env), 0);
        assert!(!get_emergency_pause(env));
        assert_eq!(get_emergency_pause_ts(env), 0);
        assert_eq!(get_last_upgrade(env), 0);
        set_cooldown(env, 86_400);
        set_emergency_pause(env, true);
        set_emergency_pause_ts(env, u64::MAX);
        set_last_upgrade(env, 1_700_000_000);
        assert_eq!(get_cooldown(env), 86_400);
        assert!(get_emergency_pause(env));
        assert_eq!(get_emergency_pause_ts(env), u64::MAX);
        assert_eq!(get_last_upgrade(env), 1_700_000_000);
        set_emergency_pause(env, false);
        assert!(!get_emergency_pause(env));
    });
}

#[test]
fn a_paused_contract_refuses() {
    run(|env| {
        assert!(!is_paused(env));
        assert_eq!(require_not_paused(env), Ok(()));
        set_paused(env, true);
        assert!(is_paused(env));
        assert_eq!(require_not_paused(env), Err(ContractError::Paused));
        assert!(!get_emergency_pause(env));
        set_paused(env, false);
        assert_eq!(require_not_paused(env), Ok(()));
    });
}

#[test]
fn pause_reasons_are_read_back() {
    run(|env| {
        assert_eq!(get_pause_reason(env), PauseReason::Other);
        for (reason, code) in [
            (PauseReason::Maintenance, 1u32),
            (PauseReason::SecurityIncident, 2),
            (PauseReason::RegulatoryHold, 3),
            (PauseReason::Unpause, 4),
            (PauseReason::Other, 99),
        ] {
            set_pause_reason(env, reason);
            assert_eq!(get_pause_reason(env), reason);
            let stored: u32 = env
                .storage()
                .instance()
                .get(&Symbol::new(env, "p_reason"))
                .unwrap();
            assert_eq!(stored, code);
        }
    });
}

#[test]
fn the_version_is_read_back() {
    run(|env| {
        assert_eq!(get_version(env), None);
        set_version(env, (1, 20, 300));
        assert_eq!(get_version(env), Some((1, 20, 300)));
        let stored: (u32, u32, u32) = env
            .storage()
            .instance()
            .get(&Symbol::new(env, "ver"))
            .unwrap();
        assert_eq!(stored, (1, 20, 300));
    });
}

#[test]
fn the_provenance_is_read_back() {
    run(|env| {
        assert_eq!(get_wasm_provenance(env), None);
        set_wasm_provenance(env, &provenance());
        assert_eq!(get_wasm_provenance(env), Some(provenance()));
        let first = WasmProvenance {
            previous_wasm_hash: None,
            version: vec![],
            attested: false,
            ..provenance()
        };
        set_wasm_provenance(env, &first);
        assert_eq!(get_wasm_provenance(env), Some(first));
    });
}

#[test]
fn the_provenance_is_laid_out_by_field_name() {
    run(|env| {
        set_wasm_provenance(env, &provenance());
        let fields: HostMap<Symbol, Val> = env
            .storage()
            .instance()
            .get(&Symbol::new(env, "prov"))
            .unwrap();
        assert_eq!(fields.len(), 6);
        let field = |name: &str| fields.get(Symbol::new(env, name)).unwrap();
        let hash = BytesN::<32>::try_from_val(env, &field("wasm_hash")).unwrap();
        assert_eq!(hash.to_array(), [1; 32]);
        let replaced = Option::<BytesN<32>>::try_from_val(env, &field("previous_wasm_hash"));
        assert_eq!(replaced.unwrap().unwrap().to_array(), [2; 32]);
        assert_eq!(u64::try_from_val(env, &field("upgraded_at")), Ok(u64::MAX));
        let version = HostVec::<u32>::try_from_val(env, &field("version")).unwrap();
        assert_eq!(version, HostVec::from_array(env, [1, 2, 3]));
        assert_eq!(bool::try_from_val(env, &field("attested")), Ok(true));
        assert!(soroban_sdk::Address::try_from_val(env, &field("upgraded_by")).is_ok());
    });
}

#[test]
fn a_provenance_without_a_predecessor_is_read() {
    run(|env| {
        set_wasm_provenance(env, &provenance());
        let key = Symbol::new(env, "prov");
        let mut fields: HostMap<Symbol, Val> = env.storage().instance().get(&key).unwrap();
        fields.remove(Symbol::new(env, "previous_wasm_hash"));
        env.storage().instance().set(&key, &fields);
        let expected = WasmProvenance { previous_wasm_hash: None, ..provenance() };
        assert_eq!(get_wasm_provenance(env), Some(expected));
    });
}

#[test]
fn the_attestation_is_read_back_until_removed() {
    run(|env| {
        assert_eq!(get_wasm_attestation(env), None);
        set_wasm_attestation(env, &attestation());
        // It is returned whether it has expired or not.
        assert_eq!(get_wasm_attestation(env), Some(attestation()));
        remove_wasm_attestation(env);
        assert_eq!(get_wasm_attestation(env), None);
        remove_wasm_attestation(env);
    });
}

#[test]
fn the_verification_config_is_read_back() {
    run(|env| {
        assert!(!is_verification_configured(env));
        assert_eq!(get_verification_config(env), None);
        set_verification_config(env, "github_oauth".to_string(), 3600, 2);
        assert!(is_verification_configured(env));
        let expected = VerificationConfig {
            attestation: "github_oauth".to_string(),
            expires_in: 3600,
            threshold: 2,
        };
        assert_eq!(get_verification_config(env), Some(expected.clone()));
        set_verification_config(env, "github_oauth".to_string(), 3600, 2);
        assert_eq!(get_verification_config(env), Some(expected));
        let fields: HostMap<Symbol, Val> = env
            .storage()
            .instance()
            .get(&Symbol::new(env, "vrfy_cfg"))
            .unwrap();
        let kind = Symbol::try_from_val(env, &fields.get(Symbol::new(env, "attestation")).unwrap());
        assert_eq!(kind, Ok(Symbol::new(env, "github_oauth")));
    });
}

#[test]
fn settings_do_not_touch_each_other() {
    run(|env| {
        set_version(env, (1, 0, 0));
        set_cooldown(env, 5);
        set_last_upgrade(env, 6);
        set_emergency_pause_ts(env, 7);
        set_paused(env, true);
        set_wasm_attestation(env, &attestation());
        set_wasm_provenance(env, &provenance());
        remove_wasm_attestation(env);
        assert_eq!(get_version(env), Some((1, 0, 0)));
        assert_eq!(get_cooldown(env), 5);
        assert_eq!(get_last_upgrade(env), 6);
        assert_eq!(get_emergency_pause_ts(env), 7);
        assert!(is_paused(env));
        assert!(!get_emergency_pause(env));
        assert_eq!(get_wasm_provenance(env), Some(provenance()));
    });
}
