//! Laws of roles and of the action cooldown.

use crate::keys::{last_action_key, law_member_keys, role_key, single, COOLDOWN_KEY, LAST_ACT_KEY};
use crate::laws::entries::law_role_read_back;
use crate::ledger::LedgerState;
use crate::storage::activity::{cooling_down, in_cooldown};
use crate::storage::entries::{renew, u64_at};
use crate::storage::records::admin_of;
use crate::storage::roles::{may_act_as, role_at};
use crate::types::Role;
use crate::value::{Address, Value};
use vstd::prelude::*;

verus! {

/// The admin may act in every role, and so may who has the admin role.
pub proof fn law_admin_acts_as_any(s: LedgerState, a: Address, role: Role)
    ensures
        admin_of(s) == Some(a) ==> may_act_as(s, a, role),
        role_at(s, a) == Some(Role::Admin) ==> may_act_as(s, a, role),
{
}

/// An address that is granted a role may act in it, and in no other unless it is
/// the admin or the role is the admin's. Nobody else's rights change.
pub proof fn law_grant(s: LedgerState, a: Address, granted: Role, b: Address, role: Role)
    ensures
        ({
            let t = s.put(role_key(a), Value::U32(granted.spec_code()));
            &&& may_act_as(t, a, granted)
            &&& admin_of(s) != Some(a) && granted != Role::Admin && role != granted
                ==> !may_act_as(t, a, role)
            &&& b != a ==> may_act_as(t, b, role) == may_act_as(s, b, role)
        }),
{
    law_role_read_back(s, a, granted, b);
}

/// An address from which its role is taken may act in no role, unless it is the
/// admin. Nobody else's rights change.
pub proof fn law_revoke(s: LedgerState, a: Address, b: Address, role: Role)
    ensures
        ({
            let t = s.remove(role_key(a));
            &&& may_act_as(t, a, role) == (admin_of(s) == Some(a))
            &&& b != a ==> may_act_as(t, b, role) == may_act_as(s, b, role)
        }),
{
    law_role_read_back(s, a, role, b);
}

/// A cooldown of 0 disables the check, and nobody is in cooldown who has not acted.
/// Otherwise it applies until the cooldown has elapsed, and not a second longer.
pub proof fn law_cooldown(now: u64, last: u64, cooldown: u64)
    ensures
        !cooling_down(now, last, 0),
        !cooling_down(now, 0, cooldown),
        last > 0 && cooldown > 0 && last + cooldown <= u64::MAX ==> (cooling_down(
            now,
            last,
            cooldown,
        ) <==> now < last + cooldown),
        cooling_down(now, last, cooldown) ==> now < last + cooldown,
{
}

/// A cooldown that applies at one time applied at every earlier one.
pub proof fn law_cooldown_runs_out(now: u64, later: u64, last: u64, cooldown: u64)
    requires
        now <= later,
    ensures
        cooling_down(later, last, cooldown) ==> cooling_down(now, last, cooldown),
{
}

/// One contributor's action puts nobody else in cooldown.
pub proof fn law_cooldown_by_username(s: LedgerState, u: Seq<u8>, time: u64, v: Seq<u8>)
    ensures
        ({
            let t = renew(s.put(last_action_key(u), Value::U64(time)), last_action_key(u));
            &&& v != u ==> in_cooldown(t, v) == in_cooldown(s, v)
            &&& in_cooldown(t, u) == cooling_down(
                s.timestamp,
                time,
                u64_at(s.instance, single(COOLDOWN_KEY)),
            )
        }),
{
    law_member_keys(LAST_ACT_KEY, Value::Str(u), LAST_ACT_KEY, Value::Str(v));
}

} // verus!
