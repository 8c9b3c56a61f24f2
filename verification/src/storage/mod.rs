//! The storage operations of the registry.
//!
//! The contributor records and what is tracked of each contributor are
//! persistent entries, whose lifetimes are renewed as they are used. Everything
//! that the contract holds once is an instance entry.
//!
//! An operation asks that a contract is running in a ledger, and that each entry it
//! reads holds what the entry is for. A contract without entries meets the latter, and
//! every operation keeps it: see `laws::ledger`.

pub mod activity;
pub mod audit_log;
pub mod entries;
pub mod export;
pub mod index;
pub mod records;
pub mod reserved;
pub mod roles;
pub mod settings;

pub use crate::keys::{
    ADMIN_KEY, ATTEST_KEY, AUDIT_LOG_KEY, AUDIT_STATS_KEY, CHUNK_CNT_KEY, CHUNK_KEY, CHUNK_SIZE,
    COOLDOWN_KEY, COUNT_KEY, DEFAULT_PAGE_LIMIT, EMERGENCY_PAUSE_KEY, EMERGENCY_PAUSE_TS_KEY,
    INDEX_KEY, LAST_ACT_KEY, LAST_UPG_KEY, LEDGERS_PER_DAY, MAX_AUDIT_LOG_ENTRIES,
    MAX_PAGE_LIMIT, MAX_RESERVED, PAUSED_KEY, PAUSE_REASON_KEY, PENDING_REVERIFY_KEY, PROV_KEY,
    REG_KEY, RESERVED_KEY, ROLE_KEY, TTL_BUMP, TTL_THRESHOLD, VCOUNT_KEY, VERSION_KEY,
    VER_CFG_KEY, VER_KEY,
};
pub use crate::types::{
    ContractError, ContributorRecord, ExportPage, PauseReason, Role, Stats, VerificationConfig,
    VersionTriple, WasmAttestation, WasmProvenance,
};
pub use activity::{
    clear_pending_reverify, get_last_action, get_pending_reverify, is_in_cooldown,
    set_last_action, set_pending_reverify,
};
pub use audit_log::{get_audit_logs, get_audit_stats, push_audit_entry, set_audit_stats};
pub use export::get_registered_paginated_internal;
pub use index::{
    add_to_index, compact_chunked_index, get_chunk, get_chunk_count, get_index, get_index_page,
    remove_from_index, set_chunk, set_chunk_count, set_index,
};
pub use records::{
    build_stats, extend_record_ttl, get_admin, get_count, get_record, get_stats,
    get_verified_count, has_record, remove_record, require_initialized, set_count, set_record,
    set_verified_count,
};
pub use reserved::{
    add_to_reserved, get_reserved_list, is_reserved, remove_from_reserved, set_reserved_list,
};
pub use roles::{get_role, has_role_or_admin, is_admin_caller, remove_role, set_role};
pub use settings::{
    get_cooldown, get_emergency_pause, get_emergency_pause_ts, get_last_upgrade,
    get_pause_reason, get_verification_config, get_version, get_wasm_attestation,
    get_wasm_provenance, is_paused, is_verification_configured, remove_wasm_attestation,
    require_not_paused, set_cooldown, set_emergency_pause, set_emergency_pause_ts,
    set_last_upgrade, set_pause_reason, set_paused, set_verification_config, set_version,
    set_wasm_attestation, set_wasm_provenance,
};
