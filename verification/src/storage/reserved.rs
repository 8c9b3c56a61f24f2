//! The reserved usernames.

use crate::host::{env_host, instance_get, instance_set, running, state};
use crate::keys::{single, single_key, MAX_RESERVED, RESERVED_KEY};
use crate::ledger::LedgerState;
use crate::types::ContractError;
use crate::usernames::{
    eq_ignore_ascii_case, folded, is_usernames, usernames_of, usernames_value, UsernameList,
};
use soroban_sdk::Env;
use vstd::prelude::*;

verus! {

/// The reserved list is a list of usernames, if it is there.
pub open spec fn reserved_ok(s: LedgerState) -> bool {
    s.instance.contains_key(single(RESERVED_KEY)) ==> is_usernames(
        s.instance[single(RESERVED_KEY)],
    )
}

/// The reserved usernames.
pub open spec fn reserved_of(s: LedgerState) -> Seq<Seq<u8>> {
    if s.instance.contains_key(single(RESERVED_KEY)) {
        usernames_of(s.instance[single(RESERVED_KEY)])
    } else {
        Seq::empty()
    }
}

/// The state after the reserved list is written.
pub open spec fn put_reserved(s: LedgerState, list: Seq<Seq<u8>>) -> LedgerState {
    s.put_instance(single(RESERVED_KEY), usernames_value(list))
}

/// Whether a list has an entry that is `username` but for the case of letters.
pub open spec fn lists(list: Seq<Seq<u8>>, username: Seq<u8>) -> bool {
    exists|i: int| 0 <= i < list.len() && folded(#[trigger] list[i]) == folded(username)
}

/// A list without the entries that are `username` but for the case of letters.
pub open spec fn unlisted(list: Seq<Seq<u8>>, username: Seq<u8>) -> Seq<Seq<u8>> {
    list.filter(|entry: Seq<u8>| folded(entry) != folded(username))
}

/// Returns the reserved usernames.
pub fn get_reserved_list(env: &Env) -> (r: UsernameList)
    requires
        running(*env),
        reserved_ok(state(*env)),
    ensures
        r.wf(),
        r.host() == env_host(*env),
        r@ == reserved_of(state(*env)),
{
    proof {
        reveal_strlit("reserved");
    }
    match instance_get(env, single_key(env, RESERVED_KEY)) {
        Some(v) => UsernameList::from_val(env, v),
        None => UsernameList::new(env),
    }
}

/// Overwrites the reserved usernames.
pub fn set_reserved_list(env: &mut Env, list: &UsernameList)
    requires
        running(*old(env)),
        list.wf(),
        list.host() == env_host(*old(env)),
    ensures
        state(*final(env)) == put_reserved(state(*old(env)), list@),
{
    proof {
        reveal_strlit("reserved");
    }
    let key = single_key(env, RESERVED_KEY);
    instance_set(env, key, list.to_val());
}

/// Returns whether `username` is reserved, in whatever case it is written.
pub fn is_reserved(env: &Env, username: &[u8]) -> (r: bool)
    requires
        running(*env),
        reserved_ok(state(*env)),
    ensures
        r == lists(reserved_of(state(*env)), username@),
{
    let list = get_reserved_list(env);
    let n = list.len();
    let mut i: u32 = 0;
    while i < n
        invariant
            i <= n,
            n == list@.len(),
            list.wf(),
            list@ == reserved_of(state(*env)),
            forall|j: int| 0 <= j < i ==> folded(#[trigger] list@[j]) != folded(username@),
        decreases n - i,
    {
        if let Some(entry) = list.get(i) {
            if eq_ignore_ascii_case(&entry, username) {
                assert(folded(list@[i as int]) == folded(username@));
                return true;
            }
        }
        i += 1;
    }
    false
}

/// Reserves `username`.
///
/// Returns `AlreadyReserved` if it is reserved, in whatever case, and
/// `ReservedListFull` if `MAX_RESERVED` usernames are reserved.
pub fn add_to_reserved(env: &mut Env, username: &[u8]) -> (r: Result<(), ContractError>)
    requires
        running(*old(env)),
        reserved_ok(state(*old(env))),
        username@.len() <= u32::MAX,
    ensures
        ({
            let list = reserved_of(state(*old(env)));
            if lists(list, username@) {
                &&& r == Err::<(), ContractError>(ContractError::AlreadyReserved)
                &&& state(*final(env)) == state(*old(env))
            } else if list.len() >= MAX_RESERVED {
                &&& r == Err::<(), ContractError>(ContractError::ReservedListFull)
                &&& state(*final(env)) == state(*old(env))
            } else {
                &&& r == Ok::<(), ContractError>(())
                &&& state(*final(env)) == put_reserved(state(*old(env)), list.push(username@))
            }
        }),
{
    let mut list = get_reserved_list(env);
    if is_reserved(env, username) {
        return Err(ContractError::AlreadyReserved);
    }
    if list.len() >= MAX_RESERVED {
        return Err(ContractError::ReservedListFull);
    }
    list.push_back(username);
    set_reserved_list(env, &list);
    Ok(())
}

/// Frees `username`, in whatever case it was reserved.
///
/// Returns `NotReserved` if it is not reserved.
pub fn remove_from_reserved(env: &mut Env, username: &[u8]) -> (r: Result<(), ContractError>)
    requires
        running(*old(env)),
        reserved_ok(state(*old(env))),
    ensures
        ({
            let list = reserved_of(state(*old(env)));
            if lists(list, username@) {
                &&& r == Ok::<(), ContractError>(())
                &&& state(*final(env)) == put_reserved(
                    state(*old(env)),
                    unlisted(list, username@),
                )
            } else {
                &&& r == Err::<(), ContractError>(ContractError::NotReserved)
                &&& state(*final(env)) == state(*old(env))
            }
        }),
{
    let list = get_reserved_list(env);
    let mut next = UsernameList::new(env);
    let mut found = false;
    let n = list.len();
    let mut i: u32 = 0;
    proof {
        reveal(Seq::filter);
        assert(unlisted(list@.take(0), username@) =~= Seq::<Seq<u8>>::empty());
    }
    while i < n
        invariant
            i <= n,
            n == list@.len(),
            list.wf(),
            next.wf(),
            next.host() == env_host(*env),
            next@.len() <= i,
            next@ == unlisted(list@.take(i as int), username@),
            found == lists(list@.take(i as int), username@),
        decreases n - i,
    {
        let ghost before = list@.take(i as int);
        let ghost after = list@.take(i + 1);
        if let Some(entry) = list.get(i) {
            proof {
                reveal(Seq::filter);
                assert(after.drop_last() =~= before);
                assert(after =~= before.push(entry@));
                assert(after[i as int] == entry@);
                if lists(before, username@) {
                    let j = choose|j: int|
                        0 <= j < before.len() && folded(#[trigger] before[j]) == folded(username@);
                    assert(after[j] == before[j]);
                }
                if lists(after, username@) && folded(entry@) != folded(username@) {
                    let j = choose|j: int|
                        0 <= j < after.len() && folded(#[trigger] after[j]) == folded(username@);
                    assert(before[j] == after[j]);
                }
            }
            if eq_ignore_ascii_case(&entry, username) {
                found = true;
            } else {
                next.push_back(&entry);
            }
        }
        i += 1;
    }
    assert(list@.take(n as int) =~= list@);
    if !found {
        return Err(ContractError::NotReserved);
    }
    set_reserved_list(env, &next);
    Ok(())
}

} // verus!
