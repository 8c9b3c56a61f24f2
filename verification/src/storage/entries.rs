//! What the storage operations share: lifetimes, and entries that hold one number
//! or one flag.

use crate::host::{
    bool_val, instance_get, instance_set, running, state, u32_val, u64_val, val_bool, val_u32,
    val_u64,
};
use crate::keys::{single, single_key, TTL_BUMP, TTL_THRESHOLD};
use crate::ledger::LedgerState;
use crate::value::{is_symbol, Value};
use soroban_sdk::Env;
use vstd::prelude::*;

verus! {

/// The state after the lifetime of an entry is renewed, as every access to a
/// hot entry does.
pub open spec fn renew(s: LedgerState, key: Value) -> LedgerState {
    s.extend(key, TTL_THRESHOLD, TTL_BUMP)
}

/// The entry `key` holds a 32-bit number, if it is there.
pub open spec fn holds_u32(entries: Map<Value, Value>, key: Value) -> bool {
    entries.contains_key(key) ==> entries[key] is U32
}

/// The number in the entry `key`, or 0 if it is not there.
pub open spec fn u32_at(entries: Map<Value, Value>, key: Value) -> u32 {
    if entries.contains_key(key) {
        entries[key]->U32_0
    } else {
        0
    }
}

/// The entry `key` holds a 64-bit number, if it is there.
pub open spec fn holds_u64(entries: Map<Value, Value>, key: Value) -> bool {
    entries.contains_key(key) ==> entries[key] is U64
}

/// The number in the entry `key`, or 0 if it is not there.
pub open spec fn u64_at(entries: Map<Value, Value>, key: Value) -> u64 {
    if entries.contains_key(key) {
        entries[key]->U64_0
    } else {
        0
    }
}

/// The entry `key` holds a flag, if it is there.
pub open spec fn holds_bool(entries: Map<Value, Value>, key: Value) -> bool {
    entries.contains_key(key) ==> entries[key] is Bool
}

/// The flag in the entry `key`, or `false` if it is not there.
pub open spec fn bool_at(entries: Map<Value, Value>, key: Value) -> bool {
    if entries.contains_key(key) {
        entries[key]->Bool_0
    } else {
        false
    }
}

/// Reads a 32-bit number from an instance entry.
pub(crate) fn read_u32(env: &Env, name: &str) -> (r: u32)
    requires
        running(*env),
        is_symbol(name@),
        holds_u32(state(*env).instance, single(name)),
    ensures
        r == u32_at(state(*env).instance, single(name)),
{
    match instance_get(env, single_key(env, name)) {
        Some(v) => val_u32(env, v),
        None => 0,
    }
}

/// Writes a 32-bit number to an instance entry.
pub(crate) fn write_u32(env: &mut Env, name: &str, n: u32)
    requires
        running(*old(env)),
        is_symbol(name@),
    ensures
        state(*final(env)) == state(*old(env)).put_instance(single(name), Value::U32(n)),
{
    let key = single_key(env, name);
    let v = u32_val(env, n);
    instance_set(env, key, v);
}

/// Reads a 64-bit number from an instance entry.
pub(crate) fn read_u64(env: &Env, name: &str) -> (r: u64)
    requires
        running(*env),
        is_symbol(name@),
        holds_u64(state(*env).instance, single(name)),
    ensures
        r == u64_at(state(*env).instance, single(name)),
{
    match instance_get(env, single_key(env, name)) {
        Some(v) => val_u64(env, v),
        None => 0,
    }
}

/// Writes a 64-bit number to an instance entry.
pub(crate) fn write_u64(env: &mut Env, name: &str, n: u64)
    requires
        running(*old(env)),
        is_symbol(name@),
    ensures
        state(*final(env)) == state(*old(env)).put_instance(single(name), Value::U64(n)),
{
    let key = single_key(env, name);
    let v = u64_val(env, n);
    instance_set(env, key, v);
}

/// Reads a flag from an instance entry.
pub(crate) fn read_bool(env: &Env, name: &str) -> (r: bool)
    requires
        running(*env),
        is_symbol(name@),
        holds_bool(state(*env).instance, single(name)),
    ensures
        r == bool_at(state(*env).instance, single(name)),
{
    match instance_get(env, single_key(env, name)) {
        Some(v) => val_bool(env, v),
        None => false,
    }
}

/// Writes a flag to an instance entry.
pub(crate) fn write_bool(env: &mut Env, name: &str, flag: bool)
    requires
        running(*old(env)),
        is_symbol(name@),
    ensures
        state(*final(env)) == state(*old(env)).put_instance(single(name), Value::Bool(flag)),
{
    let key = single_key(env, name);
    let v = bool_val(env, flag);
    instance_set(env, key, v);
}

} // verus!
