//! The admin, the contributor records, and the counters.

use crate::codec::{address_of, is_record, record_from_val, record_of, record_to_val, record_value};
use crate::host::{
    instance_get, instance_has, persistent_extend_ttl, persistent_get, persistent_has,
    persistent_remove, persistent_set, running, state,
};
use crate::keys::{
    record_key, single, single_key, user_key, ADMIN_KEY, COUNT_KEY, REG_KEY, TTL_BUMP,
    TTL_THRESHOLD, VCOUNT_KEY,
};
use crate::ledger::LedgerState;
use crate::storage::entries::{holds_u32, read_u32, renew, u32_at, write_u32};
use crate::types::{ContractError, ContributorRecord, Stats};
use crate::value::{Address, Value};
use soroban_sdk::Env;
use vstd::prelude::*;

verus! {

/// Whether the contract has an admin.
pub open spec fn is_initialized(s: LedgerState) -> bool {
    s.instance.contains_key(single(ADMIN_KEY))
}

/// The admin entry holds an address, if it is there.
pub open spec fn admin_ok(s: LedgerState) -> bool {
    is_initialized(s) ==> s.instance[single(ADMIN_KEY)] is Address
}

/// The admin, if there is one.
pub open spec fn admin_of(s: LedgerState) -> Option<Address> {
    if is_initialized(s) {
        Some(s.instance[single(ADMIN_KEY)]->Address_0)
    } else {
        None
    }
}

/// A contributor's entry holds a record, if it is there.
pub open spec fn record_ok(s: LedgerState, username: Seq<u8>) -> bool {
    s.persistent.contains_key(record_key(username)) ==> is_record(
        s.persistent[record_key(username)],
    )
}

/// A contributor's record, if there is one.
pub open spec fn record_at(s: LedgerState, username: Seq<u8>) -> Option<ContributorRecord> {
    if s.persistent.contains_key(record_key(username)) {
        Some(record_of(s.persistent[record_key(username)]))
    } else {
        None
    }
}

/// The state after a contributor's record is accessed: the lifetime of a record
/// that is there is renewed.
pub open spec fn visit_record(s: LedgerState, username: Seq<u8>) -> LedgerState {
    if s.persistent.contains_key(record_key(username)) {
        renew(s, record_key(username))
    } else {
        s
    }
}

/// The state after a contributor's record is written.
pub open spec fn put_record(
    s: LedgerState,
    username: Seq<u8>,
    record: ContributorRecord,
) -> LedgerState {
    renew(s.put(record_key(username), record_value(record)), record_key(username))
}

/// Refuses the call until the contract has an admin.
pub fn require_initialized(env: &Env) -> (r: Result<(), ContractError>)
    requires
        running(*env),
    ensures
        r == (if is_initialized(state(*env)) {
            Ok::<(), ContractError>(())
        } else {
            Err(ContractError::NotInitialized)
        }),
{
    proof {
        reveal_strlit("admin");
    }
    if instance_has(env, single_key(env, ADMIN_KEY)) {
        Ok(())
    } else {
        Err(ContractError::NotInitialized)
    }
}

/// Returns the admin, or `NotInitialized` if there is none.
pub fn get_admin(env: &Env) -> (r: Result<Address, ContractError>)
    requires
        running(*env),
        admin_ok(state(*env)),
    ensures
        r == (match admin_of(state(*env)) {
            Some(admin) => Ok::<Address, ContractError>(admin),
            None => Err(ContractError::NotInitialized),
        }),
{
    proof {
        reveal_strlit("admin");
    }
    require_initialized(env)?;
    match instance_get(env, single_key(env, ADMIN_KEY)) {
        Some(v) => Ok(address_of(env, v)),
        None => Err(ContractError::NotInitialized),
    }
}

/// Returns a contributor's record, if there is one, and renews its lifetime.
pub fn get_record(env: &mut Env, github_username: &[u8]) -> (r: Option<ContributorRecord>)
    requires
        running(*old(env)),
        github_username@.len() <= u32::MAX,
        record_ok(state(*old(env)), github_username@),
    ensures
        r == record_at(state(*old(env)), github_username@),
        state(*final(env)) == visit_record(state(*old(env)), github_username@),
{
    proof {
        reveal_strlit("reg");
    }
    let key = user_key(env, REG_KEY, github_username);
    match persistent_get(env, key) {
        Some(v) => {
            let record = record_from_val(env, v);
            persistent_extend_ttl(env, key, TTL_THRESHOLD, TTL_BUMP);
            Some(record)
        },
        None => None,
    }
}

/// Writes a contributor's record, and renews its lifetime.
pub fn set_record(env: &mut Env, github_username: &[u8], record: &ContributorRecord)
    requires
        running(*old(env)),
        github_username@.len() <= u32::MAX,
    ensures
        state(*final(env)) == put_record(state(*old(env)), github_username@, *record),
{
    proof {
        reveal_strlit("reg");
    }
    let key = user_key(env, REG_KEY, github_username);
    let v = record_to_val(env, record);
    persistent_set(env, key, v);
    persistent_extend_ttl(env, key, TTL_THRESHOLD, TTL_BUMP);
}

/// Renews the lifetime of a contributor's record without reading it.
///
/// Returns whether the record is there. A missing record is not an error: a
/// keeper's list of usernames can lag behind removals.
pub fn extend_record_ttl(env: &mut Env, github_username: &[u8]) -> (r: bool)
    requires
        running(*old(env)),
        github_username@.len() <= u32::MAX,
    ensures
        r == state(*old(env)).persistent.contains_key(record_key(github_username@)),
        state(*final(env)) == visit_record(state(*old(env)), github_username@),
{
    proof {
        reveal_strlit("reg");
    }
    let key = user_key(env, REG_KEY, github_username);
    if !persistent_has(env, key) {
        return false;
    }
    persistent_extend_ttl(env, key, TTL_THRESHOLD, TTL_BUMP);
    true
}

/// Removes a contributor's record.
pub fn remove_record(env: &mut Env, github_username: &[u8])
    requires
        running(*old(env)),
        github_username@.len() <= u32::MAX,
    ensures
        state(*final(env)) == state(*old(env)).remove(record_key(github_username@)),
{
    proof {
        reveal_strlit("reg");
    }
    let key = user_key(env, REG_KEY, github_username);
    persistent_remove(env, key);
}

/// Returns whether a contributor has a record, and renews its lifetime.
pub fn has_record(env: &mut Env, github_username: &[u8]) -> (r: bool)
    requires
        running(*old(env)),
        github_username@.len() <= u32::MAX,
        record_ok(state(*old(env)), github_username@),
    ensures
        r == record_at(state(*old(env)), github_username@).is_some(),
        state(*final(env)) == visit_record(state(*old(env)), github_username@),
{
    get_record(env, github_username).is_some()
}

/// Returns the number of registered contributors. It starts at 0.
pub fn get_count(env: &Env) -> (r: u32)
    requires
        running(*env),
        holds_u32(state(*env).instance, single(COUNT_KEY)),
    ensures
        r == u32_at(state(*env).instance, single(COUNT_KEY)),
{
    proof {
        reveal_strlit("count");
    }
    read_u32(env, COUNT_KEY)
}

/// Sets the number of registered contributors.
pub fn set_count(env: &mut Env, count: u32)
    requires
        running(*old(env)),
    ensures
        state(*final(env)) == state(*old(env)).put_instance(single(COUNT_KEY), Value::U32(count)),
{
    proof {
        reveal_strlit("count");
    }
    write_u32(env, COUNT_KEY, count);
}

/// Returns the number of verified contributors. It starts at 0.
pub fn get_verified_count(env: &Env) -> (r: u32)
    requires
        running(*env),
        holds_u32(state(*env).instance, single(VCOUNT_KEY)),
    ensures
        r == u32_at(state(*env).instance, single(VCOUNT_KEY)),
{
    proof {
        reveal_strlit("vcount");
    }
    read_u32(env, VCOUNT_KEY)
}

/// Sets the number of verified contributors.
pub fn set_verified_count(env: &mut Env, count: u32)
    requires
        running(*old(env)),
    ensures
        state(*final(env)) == state(*old(env)).put_instance(single(VCOUNT_KEY), Value::U32(count)),
{
    proof {
        reveal_strlit("vcount");
    }
    write_u32(env, VCOUNT_KEY, count);
}

/// The one constructor of `Stats`, so that the meaning of the two counts stays
/// in one place.
pub fn build_stats(total: u32, verified: u32) -> (r: Stats)
    ensures
        r.total == total,
        r.verified == verified,
{
    Stats { total, verified }
}

/// Returns the aggregate statistics.
pub fn get_stats(env: &Env) -> (r: Stats)
    requires
        running(*env),
        holds_u32(state(*env).instance, single(COUNT_KEY)),
        holds_u32(state(*env).instance, single(VCOUNT_KEY)),
    ensures
        r.total == u32_at(state(*env).instance, single(COUNT_KEY)),
        r.verified == u32_at(state(*env).instance, single(VCOUNT_KEY)),
{
    build_stats(get_count(env), get_verified_count(env))
}

} // verus!
