//! Role-based access control.

use crate::host::{
    persistent_get, persistent_remove, persistent_set, running, state, u32_val, val_u32,
};
use crate::keys::{address_key, role_key};
use crate::ledger::LedgerState;
use crate::storage::records::{admin_of, admin_ok, get_admin};
use crate::types::Role;
use crate::value::{Address, Value};
use soroban_sdk::Env;
use vstd::prelude::*;

verus! {

/// An address's entry holds the code of a role, if it is there.
pub open spec fn role_ok(s: LedgerState, address: Address) -> bool {
    s.persistent.contains_key(role_key(address)) ==> {
        &&& s.persistent[role_key(address)] is U32
        &&& Role::spec_from_code(s.persistent[role_key(address)]->U32_0).is_some()
    }
}

/// The role of an address, if it has one.
pub open spec fn role_at(s: LedgerState, address: Address) -> Option<Role> {
    if s.persistent.contains_key(role_key(address)) {
        Role::spec_from_code(s.persistent[role_key(address)]->U32_0)
    } else {
        None
    }
}

/// Whether an address may act in a role: it is the admin, or was granted that
/// role or the admin role.
pub open spec fn may_act_as(s: LedgerState, address: Address, role: Role) -> bool {
    ||| admin_of(s) == Some(address)
    ||| role_at(s, address) == Some(Role::Admin)
    ||| role_at(s, address) == Some(role)
}

/// Compares two addresses.
pub fn same_address(a: Address, b: Address) -> (r: bool)
    ensures
        r == (a == b),
{
    match (a, b) {
        (Address::Account(x), Address::Account(y)) => same_bytes(&x, &y),
        (Address::Contract(x), Address::Contract(y)) => same_bytes(&x, &y),
        _ => false,
    }
}

/// Compares two identifiers byte by byte.
fn same_bytes(a: &[u8; 32], b: &[u8; 32]) -> (r: bool)
    ensures
        r == (*a == *b),
{
    let mut i: usize = 0;
    while i < 32
        invariant
            i <= 32,
            forall|j: int| 0 <= j < i ==> a@[j] == b@[j],
        decreases 32 - i,
    {
        if a[i] != b[i] {
            return false;
        }
        i += 1;
    }
    assert(a@ =~= b@);
    assert(*a =~= *b);
    true
}

/// Returns the role of an address, if it has one.
pub fn get_role(env: &Env, address: &Address) -> (r: Option<Role>)
    requires
        running(*env),
        role_ok(state(*env), *address),
    ensures
        r == role_at(state(*env), *address),
{
    match persistent_get(env, address_key(env, *address)) {
        Some(v) => Role::from_code(val_u32(env, v)),
        None => None,
    }
}

/// Grants a role to an address, in place of the one it had.
pub fn set_role(env: &mut Env, address: &Address, role: &Role)
    requires
        running(*old(env)),
    ensures
        state(*final(env)) == state(*old(env)).put(
            role_key(*address),
            Value::U32(role.spec_code()),
        ),
{
    let key = address_key(env, *address);
    let v = u32_val(env, role.code());
    persistent_set(env, key, v);
}

/// Takes its role from an address.
pub fn remove_role(env: &mut Env, address: &Address)
    requires
        running(*old(env)),
    ensures
        state(*final(env)) == state(*old(env)).remove(role_key(*address)),
{
    let key = address_key(env, *address);
    persistent_remove(env, key);
}

/// Returns whether `address` is the admin.
pub fn is_admin_caller(env: &Env, address: &Address) -> (r: bool)
    requires
        running(*env),
        admin_ok(state(*env)),
    ensures
        r == (admin_of(state(*env)) == Some(*address)),
{
    match get_admin(env) {
        Ok(admin) => same_address(admin, *address),
        Err(_) => false,
    }
}

/// Returns whether `address` may act in `expected_role`: it is the admin, or has
/// that role, or has the admin role, which stands for all roles.
pub fn has_role_or_admin(env: &Env, address: &Address, expected_role: Role) -> (r: bool)
    requires
        running(*env),
        admin_ok(state(*env)),
        admin_of(state(*env)) != Some(*address) ==> role_ok(state(*env), *address),
    ensures
        r == may_act_as(state(*env), *address, expected_role),
{
    if let Ok(admin) = get_admin(env) {
        if same_address(*address, admin) {
            return true;
        }
    }
    match get_role(env, address) {
        Some(Role::Admin) => true,
        Some(r) => r == expected_role,
        None => false,
    }
}

} // verus!
