//! Laws of the pages of the index and of the paginated export.

use crate::keys::{
    chunk_key, family_names, law_family_names, law_member_keys, law_single_names, record_key,
    single, single_names, CHUNK_CNT_KEY, CHUNK_KEY, COUNT_KEY, DEFAULT_PAGE_LIMIT, MAX_PAGE_LIMIT,
    REG_KEY,
};
use crate::laws::entries::{law_record_read_back, law_record_removed};
use crate::laws::index::{
    consistent, law_add_keeps_agreement, law_compaction, law_removal, law_remove_keeps_agreement,
    law_without, lemma_chunked_same, lemma_removed_chunks,
};
use crate::ledger::LedgerState;
use crate::storage::entries::u32_at;
use crate::storage::export::{
    export_page, exported, lemma_exported_push, lemma_visit_records, page_usernames,
    visit_records,
};
use crate::storage::index::{
    added, chunk_count_of, chunk_of, chunk_ok, chunks_full, compacted, index_of, index_ok,
    lemma_strip_chunks, page_end, page_limit, page_of, put_index, remove_chunks, removed,
    strip_chunks, without,
};
use crate::storage::records::{put_record, record_at};
use crate::types::ContributorRecord;
use crate::value::Value;
use vstd::prelude::*;

verus! {

/// The pages from `start` on, one after another: each starts where the one before
/// it ends.
pub open spec fn pages_from(index: Seq<Seq<u8>>, start: u32, limit: u32) -> Seq<Seq<u8>>
    decreases index.len() - start,
{
    if start < index.len() && index.len() <= u32::MAX {
        page_of(index, start, limit) + pages_from(
            index,
            page_end(start, limit, index.len()) as u32,
            limit,
        )
    } else {
        Seq::empty()
    }
}

/// The records of the pages from `cursor` on: each page is read with the cursor
/// that the one before it gave, in the state that its reading left.
pub open spec fn export_from(s: LedgerState, cursor: u32, limit: u32) -> Seq<
    (Seq<u8>, ContributorRecord),
>
    decreases index_of(s).len() - cursor,
    via export_from_decreases
{
    let page = export_page(s, cursor, limit);
    match page.next_cursor {
        Some(next) if index_of(s).len() <= u32::MAX => page.records + export_from(
            visit_records(s, page_usernames(s, cursor, limit)),
            next,
            limit,
        ),
        _ => page.records,
    }
}

#[via_fn]
proof fn export_from_decreases(s: LedgerState, cursor: u32, limit: u32) {
    lemma_visit_records(s, page_usernames(s, cursor, limit));
}

/// A page holds at least one item and at most `MAX_PAGE_LIMIT`. A limit of 0 stands
/// for the default, and one that is too large for the largest.
pub proof fn law_page_limit(limit: u32)
    ensures
        0 < page_limit(limit) <= MAX_PAGE_LIMIT,
        limit == 0 ==> page_limit(limit) == DEFAULT_PAGE_LIMIT,
        0 < limit <= MAX_PAGE_LIMIT ==> page_limit(limit) == limit,
        limit > MAX_PAGE_LIMIT ==> page_limit(limit) == MAX_PAGE_LIMIT,
{
}

/// A page is no longer than its limit, and shorter only at the end of the index.
pub proof fn law_page_length(index: Seq<Seq<u8>>, offset: u32, limit: u32)
    ensures
        page_of(index, offset, limit).len() <= page_limit(limit),
        offset + page_limit(limit) <= index.len() ==> page_of(index, offset, limit).len()
            == page_limit(limit),
        offset >= index.len() ==> page_of(index, offset, limit).len() == 0,
{
}

/// The pages, each from where the one before it ends, make up the index: every
/// username is on one page, and in order.
pub proof fn law_pages_cover_index(index: Seq<Seq<u8>>, limit: u32)
    requires
        index.len() <= u32::MAX,
    ensures
        pages_from(index, 0, limit) == index,
{
    lemma_pages_from(index, 0, limit);
    assert(index.skip(0) =~= index);
}

/// The pages from a position on make up the rest of the index.
proof fn lemma_pages_from(index: Seq<Seq<u8>>, start: u32, limit: u32)
    requires
        start <= index.len() <= u32::MAX,
    ensures
        pages_from(index, start, limit) == index.skip(start as int),
    decreases index.len() - start,
{
    if start < index.len() {
        let end = page_end(start, limit, index.len()) as u32;
        lemma_pages_from(index, end, limit);
        assert(index.skip(start as int) =~= page_of(index, start, limit) + index.skip(end as int));
    } else {
        assert(index.skip(start as int) =~= Seq::empty());
    }
}

/// A page of records says that there are more exactly if it gives a cursor for
/// them, and the cursor lies ahead. It has at most `MAX_PAGE_LIMIT` records, and
/// none from the total count on.
pub proof fn law_export_page(s: LedgerState, cursor: u32, limit: u32)
    requires
        index_of(s).len() <= u32::MAX,
    ensures
        ({
            let page = export_page(s, cursor, limit);
            &&& page.has_more == page.next_cursor.is_some()
            &&& page.next_cursor matches Some(next) ==> cursor < next < index_of(s).len()
            &&& page.records.len() <= page_limit(limit) <= MAX_PAGE_LIMIT
            &&& page.total == u32_at(s.instance, single(COUNT_KEY))
            &&& cursor >= page.total ==> page.records.len() == 0 && page.next_cursor.is_none()
        }),
{
    lemma_exported_len(s, page_usernames(s, cursor, limit));
}

/// No more records are exported than there are usernames.
proof fn lemma_exported_len(s: LedgerState, usernames: Seq<Seq<u8>>)
    ensures
        exported(s, usernames).len() <= usernames.len(),
    decreases usernames.len(),
{
    reveal(Seq::filter);
    if usernames.len() > 0 {
        lemma_exported_len(s, usernames.drop_last());
    }
}

/// Two lists of usernames export their records one after the other.
proof fn lemma_exported_add(s: LedgerState, a: Seq<Seq<u8>>, b: Seq<Seq<u8>>)
    ensures
        exported(s, a + b) == exported(s, a) + exported(s, b),
{
    let keep = |u: Seq<u8>| record_at(s, u).is_some();
    let pair = |u: Seq<u8>| (u, record_at(s, u).unwrap());
    Seq::filter_distributes_over_add(a, b, keep);
    assert((a.filter(keep) + b.filter(keep)).map_values(pair) =~= a.filter(keep).map_values(pair)
        + b.filter(keep).map_values(pair));
}

/// What is exported is the same after records were read.
pub proof fn law_reading_keeps_export(
    s: LedgerState,
    read: Seq<Seq<u8>>,
    cursor: u32,
    limit: u32,
)
    ensures
        export_page(visit_records(s, read), cursor, limit) == export_page(s, cursor, limit),
{
    let t = visit_records(s, read);
    lemma_visit_records(s, read);
    assert(page_usernames(t, cursor, limit) == page_usernames(s, cursor, limit));
    lemma_exported_same(s, t, page_usernames(s, cursor, limit));
}

/// States with the same records of some usernames export the same of them.
proof fn lemma_exported_same(s: LedgerState, t: LedgerState, usernames: Seq<Seq<u8>>)
    requires
        forall|u: Seq<u8>|
            usernames.contains(u) ==> #[trigger] record_at(s, u) == record_at(t, u),
    ensures
        exported(s, usernames) == exported(t, usernames),
    decreases usernames.len(),
{
    reveal(Seq::filter);
    if usernames.len() > 0 {
        let front = usernames.drop_last();
        let u = usernames.last();
        assert forall|v: Seq<u8>| front.contains(v) implies #[trigger] record_at(s, v)
            == record_at(t, v) by {
            let i = choose|i: int| 0 <= i < front.len() && front[i] == v;
            assert(usernames[i] == v);
        }
        lemma_exported_same(s, t, front);
        assert(usernames[usernames.len() - 1] == u);
        assert(record_at(s, u) == record_at(t, u));
        assert(usernames =~= front.push(u));
        lemma_exported_push(s, front, u);
        lemma_exported_push(t, front, u);
    } else {
        assert(exported(s, usernames) =~= exported(t, usernames));
    }
}

/// Whoever follows the cursors from 0 is given the record of every indexed
/// username, once and in order, where no fewer contributors are counted than
/// indexed.
pub proof fn law_export_complete(s: LedgerState, limit: u32)
    requires
        index_of(s).len() <= u32::MAX,
        index_of(s).len() <= u32_at(s.instance, single(COUNT_KEY)),
    ensures
        export_from(s, 0, limit) == exported(s, index_of(s)),
{
    lemma_export_from(s, 0, limit);
    assert(index_of(s).skip(0) =~= index_of(s));
}

/// The number of pages that are read by whoever follows the cursors from `cursor`
/// on.
pub open spec fn export_calls(s: LedgerState, cursor: u32, limit: u32) -> nat
    decreases index_of(s).len() - cursor,
    via export_calls_decreases
{
    match export_page(s, cursor, limit).next_cursor {
        Some(next) if index_of(s).len() <= u32::MAX => 1 + export_calls(
            visit_records(s, page_usernames(s, cursor, limit)),
            next,
            limit,
        ),
        _ => 1,
    }
}

#[via_fn]
proof fn export_calls_decreases(s: LedgerState, cursor: u32, limit: u32) {
    lemma_visit_records(s, page_usernames(s, cursor, limit));
}

/// The number of full or partial pages of `limit` items that `len` items fill.
pub open spec fn pages_needed(len: nat, limit: nat) -> nat
    recommends
        limit > 0,
{
    ((len + limit - 1) / limit as int) as nat
}

/// The export is read in as many calls as the index fills pages, and in one where
/// nothing is indexed.
pub proof fn law_export_calls(s: LedgerState, limit: u32)
    requires
        index_of(s).len() <= u32::MAX,
        index_of(s).len() <= u32_at(s.instance, single(COUNT_KEY)),
    ensures
        export_calls(s, 0, limit) == (if index_of(s).len() == 0 {
            1
        } else {
            pages_needed(index_of(s).len(), page_limit(limit) as nat)
        }),
{
    lemma_export_calls(s, 0, limit);
}

/// The calls from a cursor on.
proof fn lemma_export_calls(s: LedgerState, cursor: u32, limit: u32)
    requires
        cursor <= index_of(s).len() <= u32::MAX,
        index_of(s).len() <= u32_at(s.instance, single(COUNT_KEY)),
    ensures
        export_calls(s, cursor, limit) == (if index_of(s).len() == cursor {
            1
        } else {
            pages_needed((index_of(s).len() - cursor) as nat, page_limit(limit) as nat)
        }),
    decreases index_of(s).len() - cursor,
{
    let left = index_of(s).len() - cursor;
    let size = page_limit(limit) as int;
    let names = page_usernames(s, cursor, limit);
    lemma_visit_records(s, names);
    if left > size {
        lemma_export_calls(visit_records(s, names), (cursor + size) as u32, limit);
        assert((left + size - 1) / size == (left - size + size - 1) / size + 1)
            by (nonlinear_arith)
            requires
                left > size,
                size > 0,
        ;
        assert((left - size + size - 1) / size >= 0) by (nonlinear_arith)
            requires
                left > size,
                size > 0,
        ;
    } else if left > 0 {
        assert((left + size - 1) / size == 1) by (nonlinear_arith)
            requires
                0 < left <= size,
        ;
    }
}

/// The pages from a cursor on export the rest of the index.
proof fn lemma_export_from(s: LedgerState, cursor: u32, limit: u32)
    requires
        cursor <= index_of(s).len() <= u32::MAX,
        index_of(s).len() <= u32_at(s.instance, single(COUNT_KEY)),
    ensures
        export_from(s, cursor, limit) == exported(s, index_of(s).skip(cursor as int)),
    decreases index_of(s).len() - cursor,
{
    let index = index_of(s);
    let names = page_usernames(s, cursor, limit);
    let page = export_page(s, cursor, limit);
    let end = page_end(cursor, limit, index.len());
    let t = visit_records(s, names);
    lemma_visit_records(s, names);
    if page.next_cursor.is_some() {
        lemma_export_from(t, end as u32, limit);
        lemma_exported_same(s, t, index.skip(end));
        lemma_exported_add(s, names, index.skip(end));
        assert(index.skip(cursor as int) =~= names + index.skip(end));
    } else {
        assert(index.skip(cursor as int) =~= names);
    }
}

/// Where every indexed username has a record, the export has as many records as
/// there are usernames, each beside its username.
pub proof fn law_export_of_registered(s: LedgerState, usernames: Seq<Seq<u8>>)
    requires
        forall|i: int| 0 <= i < usernames.len() ==> record_at(s, #[trigger] usernames[i]).is_some(),
    ensures
        exported(s, usernames) == Seq::new(
            usernames.len(),
            |i: int| (usernames[i], record_at(s, usernames[i]).unwrap()),
        ),
    decreases usernames.len(),
{
    let all = Seq::new(
        usernames.len(),
        |i: int| (usernames[i], record_at(s, usernames[i]).unwrap()),
    );
    if usernames.len() > 0 {
        let front = usernames.drop_last();
        law_export_of_registered(s, front);
        assert(usernames =~= front.push(usernames.last()));
        assert(record_at(s, usernames[usernames.len() - 1]).is_some());
        lemma_exported_push(s, front, usernames.last());
        assert(exported(s, usernames) =~= all);
    } else {
        lemma_exported_len(s, usernames);
        assert(exported(s, usernames) =~= all);
    }
}

/// Compaction changes no page: neither of the index nor of the export.
pub proof fn law_compaction_keeps_pages(s: LedgerState, cursor: u32, limit: u32)
    requires
        index_ok(s),
        index_of(s).len() <= u32::MAX,
    ensures
        page_of(index_of(compacted(s)), cursor, limit) == page_of(index_of(s), cursor, limit),
        export_page(compacted(s), cursor, limit) == export_page(s, cursor, limit),
{
    let t = compacted(s);
    law_compaction(s);
    law_single_names();
    let names = single_names();
    assert(names[2] == COUNT_KEY@ && names[11] == CHUNK_CNT_KEY@);
    assert(t.instance.contains_key(single(COUNT_KEY)) == s.instance.contains_key(
        single(COUNT_KEY),
    ));
    assert forall|u: Seq<u8>| #[trigger] record_at(s, u) == record_at(t, u) by {
        lemma_record_keys(u);
        assert(t.persistent.contains_key(record_key(u)) == s.persistent.contains_key(
            record_key(u),
        ));
    }
    assert(page_usernames(t, cursor, limit) == page_usernames(s, cursor, limit));
    lemma_exported_same(s, t, page_usernames(s, cursor, limit));
}

/// Where nothing is indexed, nothing is exported.
pub proof fn law_empty_registry_exports_nothing(s: LedgerState, cursor: u32, limit: u32)
    requires
        index_of(s).len() == 0,
    ensures
        export_page(s, cursor, limit).records.len() == 0,
        export_page(s, cursor, limit).next_cursor.is_none(),
        !export_page(s, cursor, limit).has_more,
{
    lemma_exported_len(s, page_usernames(s, cursor, limit));
}

/// The operations on the index leave every record as it is, and writing or
/// removing a record leaves the index and every chunk as they are.
pub proof fn law_records_and_index_independent(
    s: LedgerState,
    u: Seq<u8>,
    v: Seq<u8>,
    record: ContributorRecord,
    c: u32,
)
    ensures
        record_at(added(s, u), v) == record_at(s, v),
        record_at(removed(s, u), v) == record_at(s, v),
        index_of(put_record(s, v, record)) == index_of(s),
        index_of(s.remove(record_key(v))) == index_of(s),
        chunk_count_of(put_record(s, v, record)) == chunk_count_of(s),
        chunk_count_of(s.remove(record_key(v))) == chunk_count_of(s),
        chunk_of(put_record(s, v, record), c) == chunk_of(s, c),
        chunk_of(s.remove(record_key(v)), c) == chunk_of(s, c),
        chunk_ok(put_record(s, v, record), c) == chunk_ok(s, c),
        chunk_ok(s.remove(record_key(v)), c) == chunk_ok(s, c),
{
    lemma_record_keys(v);
    let indexed = put_index(s, without(index_of(s), u));
    let stripped = strip_chunks(indexed, u, chunk_count_of(s));
    lemma_strip_chunks(indexed, u, chunk_count_of(s));
    lemma_removed_chunks(stripped, chunk_count_of(s));
    assert(stripped.persistent.contains_key(record_key(v)) == s.persistent.contains_key(
        record_key(v),
    ));
    assert(remove_chunks(stripped, chunk_count_of(s)).persistent.contains_key(record_key(v))
        == stripped.persistent.contains_key(record_key(v)));
}

/// No record has the key of a chunk.
proof fn lemma_record_keys(u: Seq<u8>)
    ensures
        forall|c: u32| record_key(u) != #[trigger] chunk_key(c),
{
    law_family_names();
    let names = family_names();
    assert(names[0] == REG_KEY@ && names[2] == CHUNK_KEY@);
    assert forall|c: u32| record_key(u) != #[trigger] chunk_key(c) by {
        law_member_keys(REG_KEY, Value::Str(u), CHUNK_KEY, Value::U32(c));
    }
}

/// Registering a contributor, that is writing the record and indexing the
/// username, appends the record to what is exported, and changes nothing else of
/// it.
pub proof fn law_registration_exported(s: LedgerState, u: Seq<u8>, record: ContributorRecord)
    requires
        consistent(s),
        !index_of(s).contains(u),
        chunks_full(s) ==> chunk_count_of(s) < u32::MAX,
    ensures
        ({
            let t = added(put_record(s, u, record), u);
            &&& consistent(t)
            &&& index_of(t) == index_of(s).push(u)
            &&& exported(t, index_of(t)) == exported(s, index_of(s)).push((u, record))
        }),
{
    let r = put_record(s, u, record);
    let t = added(r, u);
    lemma_consistent_records(s, r, u, record);
    law_add_keeps_agreement(r, u);
    assert forall|v: Seq<u8>| v != u implies #[trigger] record_at(t, v) == record_at(s, v) by {
        law_records_and_index_independent(r, u, v, record, 0);
        law_record_read_back(s, u, record, v);
    }
    law_records_and_index_independent(r, u, u, record, 0);
    law_record_read_back(s, u, record, u);
    lemma_exported_same(s, t, index_of(s));
    lemma_exported_push(t, index_of(s), u);
}

/// Removing a contributor, that is the record and the username from the index,
/// takes the record out of what is exported, and changes nothing else of it.
pub proof fn law_deregistration_exported(s: LedgerState, u: Seq<u8>)
    requires
        consistent(s),
    ensures
        ({
            let t = removed(s.remove(record_key(u)), u);
            &&& consistent(t)
            &&& index_of(t) == without(index_of(s), u)
            &&& exported(t, index_of(t)) == exported(s, without(index_of(s), u))
        }),
{
    let r = s.remove(record_key(u));
    let t = removed(r, u);
    lemma_consistent_records(s, r, u, arbitrary());
    law_removal(r, u);
    law_remove_keeps_agreement(r, u);
    law_without(index_of(s), u);
    assert forall|v: Seq<u8>| v != u implies #[trigger] record_at(t, v) == record_at(s, v) by {
        law_records_and_index_independent(r, u, v, arbitrary(), 0);
        law_record_removed(s, u, v);
    }
    lemma_exported_same(s, t, index_of(t));
}

/// Writing or removing a record keeps the registry consistent.
proof fn lemma_consistent_records(
    s: LedgerState,
    r: LedgerState,
    u: Seq<u8>,
    record: ContributorRecord,
)
    requires
        consistent(s),
        r == put_record(s, u, record) || r == s.remove(record_key(u)),
    ensures
        consistent(r),
        index_of(r) == index_of(s),
        chunk_count_of(r) == chunk_count_of(s),
        chunks_full(r) == chunks_full(s),
{
    assert forall|c: u32| #[trigger] chunk_of(r, c) == chunk_of(s, c) && chunk_ok(r, c)
        == chunk_ok(s, c) by {
        law_records_and_index_independent(s, u, u, record, c);
    }
    assert forall|c: u32| #[trigger] chunk_ok(r, c) == chunk_ok(s, c) by {
        law_records_and_index_independent(s, u, u, record, c);
    }
    law_records_and_index_independent(s, u, u, record, 0);
    lemma_chunked_same(s, r, chunk_count_of(s));
}

} // verus!
