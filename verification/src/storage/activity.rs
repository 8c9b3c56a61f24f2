//! What is tracked of each contributor beside the record: reverification and the
//! action cooldown.

use crate::host::{
    bool_val, persistent_extend_ttl, persistent_get, persistent_remove, persistent_set, running,
    state, timestamp, u64_val, val_bool, val_u64,
};
use crate::keys::{
    last_action_key, pending_key, single, user_key, COOLDOWN_KEY, LAST_ACT_KEY,
    PENDING_REVERIFY_KEY, TTL_BUMP, TTL_THRESHOLD,
};
use crate::ledger::LedgerState;
use crate::storage::entries::{bool_at, holds_bool, holds_u64, renew, u64_at};
use crate::storage::settings::get_cooldown;
use crate::value::Value;
use soroban_sdk::Env;
use vstd::prelude::*;

verus! {

/// Whether `now` lies within `cooldown` seconds after `last`. A cooldown of 0
/// never applies, and a `last` of 0 stands for no action at all.
pub open spec fn cooling_down(now: u64, last: u64, cooldown: u64) -> bool {
    &&& cooldown != 0
    &&& last != 0
    &&& now < u64::MAX
    &&& now < last + cooldown
}

/// Whether a contributor's last action is so recent that the cooldown applies.
pub open spec fn in_cooldown(s: LedgerState, username: Seq<u8>) -> bool {
    cooling_down(
        s.timestamp,
        u64_at(s.persistent, last_action_key(username)),
        u64_at(s.instance, single(COOLDOWN_KEY)),
    )
}

/// Returns whether a contributor is to be verified anew.
pub fn get_pending_reverify(env: &Env, github_username: &[u8]) -> (r: bool)
    requires
        running(*env),
        github_username@.len() <= u32::MAX,
        holds_bool(state(*env).persistent, pending_key(github_username@)),
    ensures
        r == bool_at(state(*env).persistent, pending_key(github_username@)),
{
    proof {
        reveal_strlit("pend_rev");
    }
    match persistent_get(env, user_key(env, PENDING_REVERIFY_KEY, github_username)) {
        Some(v) => val_bool(env, v),
        None => false,
    }
}

/// Sets whether a contributor is to be verified anew.
pub fn set_pending_reverify(env: &mut Env, github_username: &[u8], flag: bool)
    requires
        running(*old(env)),
        github_username@.len() <= u32::MAX,
    ensures
        state(*final(env)) == state(*old(env)).put(
            pending_key(github_username@),
            Value::Bool(flag),
        ),
{
    proof {
        reveal_strlit("pend_rev");
    }
    let key = user_key(env, PENDING_REVERIFY_KEY, github_username);
    let v = bool_val(env, flag);
    persistent_set(env, key, v);
}

/// Removes a contributor's reverification flag.
pub fn clear_pending_reverify(env: &mut Env, github_username: &[u8])
    requires
        running(*old(env)),
        github_username@.len() <= u32::MAX,
    ensures
        state(*final(env)) == state(*old(env)).remove(pending_key(github_username@)),
{
    proof {
        reveal_strlit("pend_rev");
    }
    let key = user_key(env, PENDING_REVERIFY_KEY, github_username);
    persistent_remove(env, key);
}

/// Returns the timestamp of a contributor's last tracked action, or 0 if there
/// is none. It is tracked by username, so that one contributor's activity cannot
/// block another's.
pub fn get_last_action(env: &Env, github_username: &[u8]) -> (r: u64)
    requires
        running(*env),
        github_username@.len() <= u32::MAX,
        holds_u64(state(*env).persistent, last_action_key(github_username@)),
    ensures
        r == u64_at(state(*env).persistent, last_action_key(github_username@)),
{
    proof {
        reveal_strlit("lastact");
    }
    match persistent_get(env, user_key(env, LAST_ACT_KEY, github_username)) {
        Some(v) => val_u64(env, v),
        None => 0,
    }
}

/// Records the timestamp of a contributor's last action.
pub fn set_last_action(env: &mut Env, github_username: &[u8], timestamp: u64)
    requires
        running(*old(env)),
        github_username@.len() <= u32::MAX,
    ensures
        state(*final(env)) == renew(
            state(*old(env)).put(last_action_key(github_username@), Value::U64(timestamp)),
            last_action_key(github_username@),
        ),
{
    proof {
        reveal_strlit("lastact");
    }
    let key = user_key(env, LAST_ACT_KEY, github_username);
    let v = u64_val(env, timestamp);
    persistent_set(env, key, v);
    persistent_extend_ttl(env, key, TTL_THRESHOLD, TTL_BUMP);
}

/// Decides whether the cooldown applies at the time `now`.
pub fn cooldown_applies(now: u64, last: u64, cooldown: u64) -> (r: bool)
    ensures
        r == cooling_down(now, last, cooldown),
        r <==> cooldown > 0 && last > 0 && now < last + cooldown && now < u64::MAX,
{
    if cooldown == 0 {
        return false;
    }
    if last == 0 {
        return false;
    }
    now < last.saturating_add(cooldown)
}

/// Returns whether the cooldown has not yet elapsed since a contributor's last
/// tracked action.
pub fn is_in_cooldown(env: &Env, github_username: &[u8]) -> (r: bool)
    requires
        running(*env),
        github_username@.len() <= u32::MAX,
        holds_u64(state(*env).instance, single(COOLDOWN_KEY)),
        u64_at(state(*env).instance, single(COOLDOWN_KEY)) != 0 ==> holds_u64(
            state(*env).persistent,
            last_action_key(github_username@),
        ),
    ensures
        r == in_cooldown(state(*env), github_username@),
        r <==> {
            let s = state(*env);
            let action = last_action_key(github_username@);
            &&& s.instance.contains_key(single(COOLDOWN_KEY))
            &&& s.persistent.contains_key(action)
            &&& s.instance[single(COOLDOWN_KEY)]->U64_0 > 0
            &&& s.persistent[action]->U64_0 > 0
            &&& s.timestamp < s.persistent[action]->U64_0 + s.instance[single(
                COOLDOWN_KEY,
            )]->U64_0
            &&& s.timestamp < u64::MAX
        },
{
    let cooldown = get_cooldown(env);
    if cooldown == 0 {
        return false;
    }
    let last = get_last_action(env, github_username);
    cooldown_applies(timestamp(env), last, cooldown)
}

} // verus!
