//! Laws of the lifetimes of persistent entries.

use crate::keys::{chunk_key, last_action_key, record_key, TTL_BUMP, TTL_THRESHOLD};
use crate::ledger::LedgerState;
use crate::storage::entries::renew;
use crate::storage::index::{chunk_of, put_chunk, visit_chunk};
use crate::storage::records::{put_record, visit_record};
use crate::types::ContributorRecord;
use crate::value::Value;
use vstd::prelude::*;

verus! {

/// The ledgers that are left of a persistent entry.
pub open spec fn remaining(s: LedgerState, key: Value) -> int {
    s.live_until[key] - s.sequence
}

/// The network lets an entry live as long as a renewal asks for.
pub open spec fn allows_renewal(s: LedgerState) -> bool {
    s.runs() && s.sequence + TTL_BUMP <= s.max_live_until()
}

/// A renewal leaves an entry alone of which more than `TTL_THRESHOLD` ledgers are
/// left. It never shortens a lifetime, and never goes beyond `TTL_BUMP` ledgers or
/// the network's limit with one that it changes. Where the network allows it, more
/// than `TTL_THRESHOLD` ledgers are left afterwards.
pub proof fn law_renewal(s: LedgerState, key: Value)
    requires
        s.runs(),
    ensures
        remaining(s, key) > TTL_THRESHOLD ==> renew(s, key).live_until[key] == s.live_until[key],
        renew(s, key).live_until[key] >= s.live_until[key],
        renew(s, key).live_until[key] != s.live_until[key] ==> {
            &&& remaining(renew(s, key), key) <= TTL_BUMP
            &&& renew(s, key).live_until[key] <= s.max_live_until()
        },
        allows_renewal(s) && remaining(s, key) <= TTL_THRESHOLD ==> remaining(renew(s, key), key)
            == TTL_BUMP,
        allows_renewal(s) ==> remaining(renew(s, key), key) > TTL_THRESHOLD,
{
}

/// A renewal changes no entry, and no lifetime but that of its entry.
pub proof fn law_renewal_alone(s: LedgerState, key: Value, other: Value)
    ensures
        renew(s, key).persistent == s.persistent,
        renew(s, key).instance == s.instance,
        other != key ==> renew(s, key).live_until[other] == s.live_until[other],
{
}

/// A second renewal in the same ledger changes nothing.
pub proof fn law_renewal_once(s: LedgerState, key: Value)
    requires
        s.runs(),
    ensures
        renew(renew(s, key), key) == renew(s, key),
{
    assert(renew(renew(s, key), key).live_until =~= renew(s, key).live_until);
}

/// Every access to a record renews it: a write, and a read or an extension of one
/// that is there.
pub proof fn law_record_access_renews(s: LedgerState, u: Seq<u8>, record: ContributorRecord)
    requires
        allows_renewal(s),
    ensures
        remaining(put_record(s, u, record), record_key(u)) > TTL_THRESHOLD,
        s.persistent.contains_key(record_key(u)) ==> remaining(
            visit_record(s, u),
            record_key(u),
        ) > TTL_THRESHOLD,
        visit_record(visit_record(s, u), u) == visit_record(s, u),
{
    law_renewal_once(s, record_key(u));
}

/// Every access to a chunk renews it: a write, and a read of one that is not empty.
pub proof fn law_chunk_access_renews(s: LedgerState, c: u32, chunk: Seq<Seq<u8>>)
    requires
        allows_renewal(s),
    ensures
        remaining(put_chunk(s, c, chunk), chunk_key(c)) > TTL_THRESHOLD,
        chunk_of(s, c).len() > 0 ==> remaining(visit_chunk(s, c), chunk_key(c)) > TTL_THRESHOLD,
        chunk_of(s, c).len() == 0 ==> visit_chunk(s, c) == s,
{
}

/// Recording a last action renews its entry.
pub proof fn law_last_action_renews(s: LedgerState, u: Seq<u8>, time: u64)
    requires
        allows_renewal(s),
    ensures
        remaining(
            renew(s.put(last_action_key(u), Value::U64(time)), last_action_key(u)),
            last_action_key(u),
        ) > TTL_THRESHOLD,
{
}

} // verus!
