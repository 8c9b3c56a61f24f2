//! The keys of the ledger entries, and the limits of the registry.
//!
//! A single entry is kept under a symbol, and an entry of a family under the
//! pair of the family's symbol and what tells the entry apart.

use crate::host::{
    address_val, env_host, list_items, list_new, list_push_back, list_val, string_val, symbol_val,
    u32_val, val_host, value_of,
};
use crate::value::{is_scalar, is_storable, is_symbol, Address, Value};
use soroban_sdk::{Env, Val};
use vstd::prelude::*;

verus! {

// Instance entries.

/// The admin address. It is written once, when the contract is initialized.
pub const ADMIN_KEY: &'static str = "admin";

pub const VER_CFG_KEY: &'static str = "vrfy_cfg";

pub const COUNT_KEY: &'static str = "count";

pub const VCOUNT_KEY: &'static str = "vcount";

pub const INDEX_KEY: &'static str = "idx";

pub const PAUSED_KEY: &'static str = "pause";

pub const COOLDOWN_KEY: &'static str = "cdown";

pub const EMERGENCY_PAUSE_KEY: &'static str = "emrg_ps";

pub const EMERGENCY_PAUSE_TS_KEY: &'static str = "emerg_ts";

pub const LAST_UPG_KEY: &'static str = "lastupg";

pub const VER_KEY: &'static str = "ver";

/// Another name for `VER_KEY`.
pub const VERSION_KEY: &'static str = VER_KEY;

/// The number of chunks of the chunked username index.
pub const CHUNK_CNT_KEY: &'static str = "chkcnt";

/// The provenance of the deployed WASM.
pub const PROV_KEY: &'static str = "prov";

/// The pending upgrade attestation.
pub const ATTEST_KEY: &'static str = "attest";

pub const AUDIT_LOG_KEY: &'static str = "adt_log";

pub const AUDIT_STATS_KEY: &'static str = "adt_stat";

pub const PAUSE_REASON_KEY: &'static str = "p_reason";

/// The reserved usernames.
pub const RESERVED_KEY: &'static str = "reserved";

// Families of persistent entries.

/// Contributor records, by username.
pub const REG_KEY: &'static str = "reg";

/// Pending reverification flags, by username.
pub const PENDING_REVERIFY_KEY: &'static str = "pend_rev";

/// Chunks of the username index, by number.
pub const CHUNK_KEY: &'static str = "chunk";

/// Timestamps of the last tracked action, by username.
pub const LAST_ACT_KEY: &'static str = "lastact";

/// Roles, by address.
pub const ROLE_KEY: &'static str = "role";

// Limits.

/// Most entries that the reserved username list may hold.
pub const MAX_RESERVED: u32 = 200;

pub const DEFAULT_PAGE_LIMIT: u32 = 20;

pub const MAX_PAGE_LIMIT: u32 = 100;

/// Most usernames that a chunk of the index holds.
pub const CHUNK_SIZE: u32 = 50;

/// Most entries that the audit log holds.
pub const MAX_AUDIT_LOG_ENTRIES: u32 = 100;

/// Ledgers per day, at a close time of about five seconds.
pub const LEDGERS_PER_DAY: u32 = 17_280;

/// A persistent entry is extended when at most this many ledgers are left of
/// its lifetime (about 30 days), so that a hot entry is not extended on every
/// single read.
pub const TTL_THRESHOLD: u32 = LEDGERS_PER_DAY * 30;

/// An extended entry lives for this many ledgers from the current one (about
/// 90 days).
pub const TTL_BUMP: u32 = LEDGERS_PER_DAY * 90;

/// The key of the single entry `name`.
pub open spec fn single(name: &str) -> Value {
    Value::Symbol(name@)
}

/// The key of the entry of the family `name` that `part` tells apart.
pub open spec fn member(name: &str, part: Value) -> Value {
    Value::List(seq![Value::Symbol(name@), part])
}

/// The key of a contributor's record.
pub open spec fn record_key(username: Seq<u8>) -> Value {
    member(REG_KEY, Value::Str(username))
}

/// The key of a contributor's pending reverification flag.
pub open spec fn pending_key(username: Seq<u8>) -> Value {
    member(PENDING_REVERIFY_KEY, Value::Str(username))
}

/// The key of the timestamp of a contributor's last action.
pub open spec fn last_action_key(username: Seq<u8>) -> Value {
    member(LAST_ACT_KEY, Value::Str(username))
}

/// The key of a chunk of the username index.
pub open spec fn chunk_key(chunk_idx: u32) -> Value {
    member(CHUNK_KEY, Value::U32(chunk_idx))
}

/// The key of an address's role.
pub open spec fn role_key(address: Address) -> Value {
    member(ROLE_KEY, Value::Address(address))
}

/// The names of all single entries.
pub open spec fn single_names() -> Seq<Seq<char>> {
    seq![
        ADMIN_KEY@,
        VER_CFG_KEY@,
        COUNT_KEY@,
        VCOUNT_KEY@,
        INDEX_KEY@,
        PAUSED_KEY@,
        COOLDOWN_KEY@,
        EMERGENCY_PAUSE_KEY@,
        EMERGENCY_PAUSE_TS_KEY@,
        LAST_UPG_KEY@,
        VER_KEY@,
        CHUNK_CNT_KEY@,
        PROV_KEY@,
        ATTEST_KEY@,
        AUDIT_LOG_KEY@,
        AUDIT_STATS_KEY@,
        PAUSE_REASON_KEY@,
        RESERVED_KEY@,
    ]
}

/// The names of all families of entries.
pub open spec fn family_names() -> Seq<Seq<char>> {
    seq![REG_KEY@, PENDING_REVERIFY_KEY@, CHUNK_KEY@, LAST_ACT_KEY@, ROLE_KEY@]
}

/// A number by which the names above are told apart.
spec fn name_tag(name: Seq<char>) -> int {
    name.len() * 0x1_0000_0000_0000 + (name[0] as int) * 0x100_0000 + name[1] as int
}

/// The names of single entries are symbols, and no two are the same: no entry
/// takes another's place.
pub proof fn law_single_names()
    ensures
        single_names().no_duplicates(),
        forall|i: int| 0 <= i < single_names().len() ==> is_symbol(#[trigger] single_names()[i]),
{
    reveal_strlit("admin");
    reveal_strlit("vrfy_cfg");
    reveal_strlit("count");
    reveal_strlit("vcount");
    reveal_strlit("idx");
    reveal_strlit("pause");
    reveal_strlit("cdown");
    reveal_strlit("emrg_ps");
    reveal_strlit("emerg_ts");
    reveal_strlit("lastupg");
    reveal_strlit("ver");
    reveal_strlit("chkcnt");
    reveal_strlit("prov");
    reveal_strlit("attest");
    reveal_strlit("adt_log");
    reveal_strlit("adt_stat");
    reveal_strlit("p_reason");
    reveal_strlit("reserved");
    let tags: Seq<int> = seq![
        name_tag("admin"@),
        name_tag("vrfy_cfg"@),
        name_tag("count"@),
        name_tag("vcount"@),
        name_tag("idx"@),
        name_tag("pause"@),
        name_tag("cdown"@),
        name_tag("emrg_ps"@),
        name_tag("emerg_ts"@),
        name_tag("lastupg"@),
        name_tag("ver"@),
        name_tag("chkcnt"@),
        name_tag("prov"@),
        name_tag("attest"@),
        name_tag("adt_log"@),
        name_tag("adt_stat"@),
        name_tag("p_reason"@),
        name_tag("reserved"@),
    ];
    assert(tags.no_duplicates());
    assert forall|i: int| 0 <= i < single_names().len() implies tags[i] == name_tag(
        #[trigger] single_names()[i],
    ) by {}
}

/// The names of families are symbols, and no two are the same.
pub proof fn law_family_names()
    ensures
        family_names().no_duplicates(),
        forall|i: int| 0 <= i < family_names().len() ==> is_symbol(#[trigger] family_names()[i]),
{
    reveal_strlit("reg");
    reveal_strlit("pend_rev");
    reveal_strlit("chunk");
    reveal_strlit("lastact");
    reveal_strlit("role");
    let tags: Seq<int> = seq![
        name_tag("reg"@),
        name_tag("pend_rev"@),
        name_tag("chunk"@),
        name_tag("lastact"@),
        name_tag("role"@),
    ];
    assert(tags.no_duplicates());
    assert forall|i: int| 0 <= i < family_names().len() implies tags[i] == name_tag(
        #[trigger] family_names()[i],
    ) by {}
}

/// Two entries of families have the same key only if they are the same entry
/// of the same family, and none has the key of a single entry.
pub proof fn law_member_keys(a: &str, x: Value, b: &str, y: Value)
    ensures
        member(a, x) == member(b, y) <==> a@ == b@ && x == y,
        member(a, x) != single(b),
{
    assert(seq![Value::Symbol(a@), x][0] == Value::Symbol(a@));
    assert(seq![Value::Symbol(a@), x][1] == x);
    assert(seq![Value::Symbol(b@), y][0] == Value::Symbol(b@));
    assert(seq![Value::Symbol(b@), y][1] == y);
    if a@ == b@ && x == y {
        assert(seq![Value::Symbol(a@), x] =~= seq![Value::Symbol(b@), y]);
    }
}

/// The single entries that functions touch together are different ones.
pub(crate) proof fn lemma_single_distinct()
    ensures
        single(INDEX_KEY) != single(CHUNK_CNT_KEY),
        single(AUDIT_LOG_KEY) != single(AUDIT_STATS_KEY),
{
    let names = single_names();
    law_single_names();
    assert(names[4] == INDEX_KEY@ && names[11] == CHUNK_CNT_KEY@);
    assert(names[14] == AUDIT_LOG_KEY@ && names[15] == AUDIT_STATS_KEY@);
}

/// Builds the key of a single entry.
pub(crate) fn single_key(env: &Env, name: &str) -> (r: Val)
    requires
        is_symbol(name@),
    ensures
        value_of(r) == single(name),
        is_storable(single(name)),
        val_host(r) == env_host(*env),
{
    symbol_val(env, name)
}

/// Builds the key of an entry of a family.
fn member_key(env: &Env, name: &str, part: Val) -> (r: Val)
    requires
        is_symbol(name@),
        is_scalar(value_of(part)),
        val_host(part) == env_host(*env),
    ensures
        value_of(r) == member(name, value_of(part)),
        is_storable(value_of(r)),
        val_host(r) == env_host(*env),
{
    let mut pair = list_new(env);
    list_push_back(&mut pair, symbol_val(env, name));
    list_push_back(&mut pair, part);
    assert(list_items(pair) =~= seq![Value::Symbol(name@), value_of(part)]);
    list_val(&pair)
}

/// Builds the key of an entry of a family by username.
pub(crate) fn user_key(env: &Env, name: &str, username: &[u8]) -> (r: Val)
    requires
        is_symbol(name@),
        username@.len() <= u32::MAX,
    ensures
        value_of(r) == member(name, Value::Str(username@)),
        is_storable(value_of(r)),
        val_host(r) == env_host(*env),
{
    member_key(env, name, string_val(env, username))
}

/// Builds the key of a chunk of the username index.
pub(crate) fn numbered_key(env: &Env, chunk_idx: u32) -> (r: Val)
    ensures
        value_of(r) == chunk_key(chunk_idx),
        is_storable(value_of(r)),
        val_host(r) == env_host(*env),
{
    proof {
        reveal_strlit("chunk");
    }
    member_key(env, CHUNK_KEY, u32_val(env, chunk_idx))
}

/// Builds the key of an address's role.
pub(crate) fn address_key(env: &Env, address: Address) -> (r: Val)
    ensures
        value_of(r) == role_key(address),
        is_storable(value_of(r)),
        val_host(r) == env_host(*env),
{
    proof {
        reveal_strlit("role");
    }
    member_key(env, ROLE_KEY, address_val(env, address))
}

} // verus!
