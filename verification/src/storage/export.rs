//! The paginated export of the registry.

use crate::host::{running, state};
use crate::keys::{single, COUNT_KEY};
use crate::ledger::LedgerState;
use crate::storage::entries::{holds_u32, u32_at};
use crate::storage::index::{effective_end, get_index, index_of, index_ok, page_end};
use crate::storage::records::{
    get_count, get_record, is_initialized, record_at, record_ok, require_initialized,
    visit_record,
};
use crate::types::{ContractError, ContributorRecord, ExportPage, ExportPageView};
use soroban_sdk::Env;
use vstd::prelude::*;

verus! {

/// The usernames that have a record, each with its record, in order.
pub open spec fn exported(s: LedgerState, usernames: Seq<Seq<u8>>) -> Seq<
    (Seq<u8>, ContributorRecord),
> {
    usernames.filter(|u: Seq<u8>| record_at(s, u).is_some()).map_values(
        |u: Seq<u8>| (u, record_at(s, u).unwrap()),
    )
}

/// The state after the records of some usernames are read.
pub open spec fn visit_records(s: LedgerState, usernames: Seq<Seq<u8>>) -> LedgerState
    decreases usernames.len(),
{
    if usernames.len() == 0 {
        s
    } else {
        visit_record(visit_records(s, usernames.drop_last()), usernames.last())
    }
}

/// The usernames whose records a page shows: none from the total count on.
pub open spec fn page_usernames(s: LedgerState, cursor: u32, limit: u32) -> Seq<Seq<u8>> {
    let index = index_of(s);
    let end = page_end(cursor, limit, index.len());
    if cursor < u32_at(s.instance, single(COUNT_KEY)) && cursor <= end {
        index.subrange(cursor as int, end)
    } else {
        Seq::empty()
    }
}

/// The page of records that starts at `cursor`.
pub open spec fn export_page(s: LedgerState, cursor: u32, limit: u32) -> ExportPageView {
    let total = u32_at(s.instance, single(COUNT_KEY));
    let end = page_end(cursor, limit, index_of(s).len());
    let next_cursor = if cursor < total && end < index_of(s).len() {
        Some(end as u32)
    } else {
        None
    };
    ExportPageView {
        records: exported(s, page_usernames(s, cursor, limit)),
        next_cursor,
        total,
        has_more: next_cursor.is_some(),
    }
}

/// Reading records changes lifetimes only.
pub(crate) proof fn lemma_visit_records(s: LedgerState, usernames: Seq<Seq<u8>>)
    ensures
        visit_records(s, usernames) == (LedgerState {
            live_until: visit_records(s, usernames).live_until,
            ..s
        }),
    decreases usernames.len(),
{
    if usernames.len() > 0 {
        lemma_visit_records(s, usernames.drop_last());
    }
}

/// One more username exports its record, if it has one, after the others.
pub(crate) proof fn lemma_exported_push(s: LedgerState, usernames: Seq<Seq<u8>>, u: Seq<u8>)
    ensures
        exported(s, usernames.push(u)) == (if record_at(s, u).is_some() {
            exported(s, usernames).push((u, record_at(s, u).unwrap()))
        } else {
            exported(s, usernames)
        }),
{
    reveal(Seq::filter);
    assert(usernames.push(u).drop_last() =~= usernames);
    let f = |u: Seq<u8>| (u, record_at(s, u).unwrap());
    let kept = usernames.filter(|u: Seq<u8>| record_at(s, u).is_some());
    assert(kept.push(u).map_values(f) =~= kept.map_values(f).push(f(u)));
}

/// Returns a bounded page of usernames and records, starting at `cursor`.
///
/// A `limit` of 0 asks for `DEFAULT_PAGE_LIMIT` records. One above
/// `MAX_PAGE_LIMIT` is not refused, and gets the largest page there is.
/// Usernames without a record are passed over. The lifetime of each record that
/// is read is renewed.
pub fn get_registered_paginated_internal(env: &mut Env, cursor: u32, limit: u32) -> (r: Result<
    ExportPage,
    ContractError,
>)
    requires
        running(*old(env)),
        is_initialized(state(*old(env))) ==> {
            &&& holds_u32(state(*old(env)).instance, single(COUNT_KEY))
            &&& cursor < u32_at(state(*old(env)).instance, single(COUNT_KEY)) ==> index_ok(
                state(*old(env)),
            )
            &&& forall|i: int|
                0 <= i < page_usernames(state(*old(env)), cursor, limit).len() ==> record_ok(
                    state(*old(env)),
                    #[trigger] page_usernames(state(*old(env)), cursor, limit)[i],
                )
        },
    ensures
        match r {
            Ok(page) => is_initialized(state(*old(env))) && page@ == export_page(
                state(*old(env)),
                cursor,
                limit,
            ),
            Err(e) => e == ContractError::NotInitialized && !is_initialized(state(*old(env))),
        },
        state(*final(env)) == (if is_initialized(state(*old(env))) {
            visit_records(state(*old(env)), page_usernames(state(*old(env)), cursor, limit))
        } else {
            state(*old(env))
        }),
        running(*final(env)),
{
    let ghost s = state(*env);
    let ghost names = page_usernames(s, cursor, limit);
    require_initialized(env)?;
    let total_count = get_count(env);
    let mut records: Vec<(Vec<u8>, ContributorRecord)> = Vec::new();
    proof {
        reveal(Seq::filter);
        assert(exported(s, Seq::empty()) =~= Seq::empty());
    }
    if cursor >= total_count {
        let page = ExportPage { records, next_cursor: None, total: total_count, has_more: false };
        assert(page@.records =~= exported(s, names));
        return Ok(page);
    }
    let index = get_index(env);
    let end = effective_end(cursor, limit, index.len());
    let mut i: u32 = cursor;
    assert(cursor <= end ==> names.take(0) =~= Seq::empty());
    while i < end
        invariant
            cursor <= i,
            cursor <= end ==> i <= end,
            end <= index@.len() <= u32::MAX,
            index.wf(),
            running(*env),
            cursor < end ==> names =~= index@.subrange(cursor as int, end as int),
            forall|j: int| 0 <= j < names.len() ==> record_ok(s, #[trigger] names[j]),
            state(*env) == visit_records(
                s,
                if cursor <= end { names.take(i - cursor) } else { names },
            ),
            Seq::new(records@.len(), |j: int| (records@[j].0@, records@[j].1)) =~= exported(
                s,
                if cursor <= end { names.take(i - cursor) } else { names },
            ),
        decreases end - i,
    {
        if let Some(username) = index.get(i) {
            let ghost before = names.take(i - cursor);
            let ghost after = names.take(i + 1 - cursor);
            proof {
                assert(after =~= before.push(username@));
                assert(after.drop_last() =~= before);
                assert(names[i - cursor] == username@);
                lemma_visit_records(s, before);
                lemma_exported_push(s, before, username@);
            }
            if let Some(record) = get_record(env, &username) {
                records.push((username, record));
            }
        }
        i += 1;
    }
    let next_cursor: Option<u32> = if end < index.len() {
        Some(end)
    } else {
        None
    };
    let has_more = next_cursor.is_some();
    let page = ExportPage { records, next_cursor, total: total_count, has_more };
    proof {
        if cursor <= end {
            assert(names.take(i - cursor) =~= names);
        }
        assert(page@.records =~= exported(s, names));
    }
    Ok(page)
}

} // verus!
