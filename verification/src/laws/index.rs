//! Laws of the username index.

use crate::keys::{
    chunk_key, law_member_keys, lemma_single_distinct, single, CHUNK_CNT_KEY, CHUNK_KEY,
    CHUNK_SIZE, INDEX_KEY, TTL_BUMP, TTL_THRESHOLD,
};
use crate::ledger::LedgerState;
use crate::storage::index::{
    added, chunk_count_of, chunk_count_ok, chunk_of, chunk_ok, chunks_full, chunks_needed,
    compacted, held, index_of, index_ok, lemma_found, lemma_held_same, lemma_put_pieces,
    lemma_remove_chunks, lemma_strip_chunks, nothing_indexed, page_of, piece, put_chunk,
    put_chunk_count, put_index, put_pieces, remove_chunks, removed, strip_chunks, visit_chunk,
    without,
};
use crate::usernames::{law_usernames_round_trip, usernames_value};
use crate::value::Value;
use vstd::prelude::*;

verus! {

/// The usernames of the first `n` chunks, one chunk after another.
pub open spec fn chunked(s: LedgerState, n: u32) -> Seq<Seq<u8>>
    decreases n,
{
    if n == 0 {
        Seq::empty()
    } else {
        chunked(s, (n - 1) as u32) + chunk_of(s, (n - 1) as u32)
    }
}

/// The chunks hold the same usernames in the same order as the flat index, and
/// none of them is too large.
pub open spec fn chunks_agree(s: LedgerState) -> bool {
    &&& index_ok(s)
    &&& chunk_count_ok(s)
    &&& forall|c: u32| c < chunk_count_of(s) ==> #[trigger] chunk_ok(s, c)
    &&& forall|c: u32| c < chunk_count_of(s) ==> (#[trigger] chunk_of(s, c)).len() <= CHUNK_SIZE
    &&& chunked(s, chunk_count_of(s)) == index_of(s)
}

/// The chunks agree with the flat index, and no username is indexed twice.
pub open spec fn consistent(s: LedgerState) -> bool {
    chunks_agree(s) && index_of(s).no_duplicates()
}

/// What is written to the flat index is read back, and changes no chunk.
pub proof fn law_index_read_back(s: LedgerState, index: Seq<Seq<u8>>)
    ensures
        index_ok(put_index(s, index)),
        index_of(put_index(s, index)) == index,
        chunk_count_of(put_index(s, index)) == chunk_count_of(s),
        chunk_count_ok(put_index(s, index)) == chunk_count_ok(s),
        forall|c: u32| #[trigger] chunk_of(put_index(s, index), c) == chunk_of(s, c),
{
    law_usernames_round_trip(index);
    lemma_single_distinct();
}

/// What is written to a chunk is read back, and changes no other chunk and not
/// the flat index.
pub proof fn law_chunk_read_back(s: LedgerState, c: u32, chunk: Seq<Seq<u8>>)
    ensures
        chunk_ok(put_chunk(s, c, chunk), c),
        chunk_of(put_chunk(s, c, chunk), c) == chunk,
        index_of(put_chunk(s, c, chunk)) == index_of(s),
        index_ok(put_chunk(s, c, chunk)) == index_ok(s),
        chunk_count_of(put_chunk(s, c, chunk)) == chunk_count_of(s),
        chunk_count_ok(put_chunk(s, c, chunk)) == chunk_count_ok(s),
        forall|d: u32|
            d != c ==> #[trigger] chunk_of(put_chunk(s, c, chunk), d) == chunk_of(s, d),
        forall|d: u32|
            d != c ==> #[trigger] chunk_ok(put_chunk(s, c, chunk), d) == chunk_ok(s, d),
{
    law_usernames_round_trip(chunk);
    assert forall|d: u32| d != c implies chunk_key(d) != chunk_key(c) by {
        law_member_keys(CHUNK_KEY, Value::U32(d), CHUNK_KEY, Value::U32(c));
    }
}

/// What is written as the number of chunks is read back, and changes no chunk
/// and not the flat index.
pub proof fn law_chunk_count_read_back(s: LedgerState, n: u32)
    ensures
        chunk_count_ok(put_chunk_count(s, n)),
        chunk_count_of(put_chunk_count(s, n)) == n,
        index_of(put_chunk_count(s, n)) == index_of(s),
        index_ok(put_chunk_count(s, n)) == index_ok(s),
        forall|c: u32| #[trigger] chunk_of(put_chunk_count(s, n), c) == chunk_of(s, c),
        forall|c: u32| #[trigger] chunk_ok(put_chunk_count(s, n), c) == chunk_ok(s, c),
{
    lemma_single_distinct();
}

/// Chunks that are the same in two states are chained to the same list.
pub(crate) proof fn lemma_chunked_same(s: LedgerState, t: LedgerState, n: u32)
    requires
        forall|c: u32| c < n ==> #[trigger] chunk_of(s, c) == chunk_of(t, c),
    ensures
        chunked(s, n) == chunked(t, n),
    decreases n,
{
    if n > 0 {
        assert(chunk_of(s, (n - 1) as u32) == chunk_of(t, (n - 1) as u32));
        lemma_chunked_same(s, t, (n - 1) as u32);
    }
}

/// A username is in the chained chunks exactly if a chunk holds it.
proof fn lemma_chunked_contains(s: LedgerState, n: u32, u: Seq<u8>)
    ensures
        chunked(s, n).contains(u) <==> exists|c: u32|
            c < n && #[trigger] chunk_of(s, c).contains(u),
    decreases n,
{
    if n > 0 {
        let last = (n - 1) as u32;
        let front = chunked(s, last);
        let back = chunk_of(s, last);
        lemma_chunked_contains(s, last, u);
        if chunked(s, n).contains(u) {
            let i = choose|i: int| 0 <= i < chunked(s, n).len() && chunked(s, n)[i] == u;
            if i < front.len() {
                assert(front[i] == u);
                assert(front.contains(u));
            } else {
                assert(back[i - front.len()] == u);
                assert(back.contains(u));
            }
        }
        if back.contains(u) {
            let i = choose|i: int| 0 <= i < back.len() && back[i] == u;
            assert(chunked(s, n)[front.len() + i] == u);
        }
        if front.contains(u) {
            let i = choose|i: int| 0 <= i < front.len() && front[i] == u;
            assert(chunked(s, n)[i] == u);
        }
    }
}

/// A registry that was never used is consistent: nothing is indexed.
pub proof fn law_new_registry_consistent(s: LedgerState)
    requires
        !s.instance.contains_key(single(INDEX_KEY)),
        !s.instance.contains_key(single(CHUNK_CNT_KEY)),
    ensures
        consistent(s),
        index_of(s).len() == 0,
{
}

/// Adding a username appends it to the flat index, and keeps the chunks in
/// agreement with it. Adding one that is not indexed keeps the registry
/// consistent.
pub proof fn law_add_keeps_agreement(s: LedgerState, u: Seq<u8>)
    requires
        chunks_agree(s),
        chunks_full(s) ==> chunk_count_of(s) < u32::MAX,
    ensures
        chunks_agree(added(s, u)),
        index_of(added(s, u)) == index_of(s).push(u),
        consistent(s) && !index_of(s).contains(u) ==> consistent(added(s, u)),
{
    let n = chunk_count_of(s);
    let last = (n - 1) as u32;
    let index = index_of(s).push(u);
    let indexed = put_index(s, index);
    law_index_read_back(s, index);
    let read = if n == 0 {
        indexed
    } else {
        visit_chunk(indexed, last)
    };
    let t = added(s, u);
    if chunks_full(s) {
        let written = put_chunk(read, n, seq![u]);
        law_chunk_read_back(read, n, seq![u]);
        law_chunk_count_read_back(written, (n + 1) as u32);
        lemma_chunked_same(s, t, n);
        assert(chunked(t, (n + 1) as u32) =~= chunked(s, n).push(u));
        assert forall|c: u32| c < n + 1 implies #[trigger] chunk_ok(t, c) by {
            assert(chunk_ok(t, c) == chunk_ok(written, c));
            if c < n {
                assert(chunk_ok(written, c) == chunk_ok(read, c));
                assert(chunk_ok(s, c));
            }
        }
        assert forall|c: u32| c < n + 1 implies (#[trigger] chunk_of(t, c)).len()
            <= CHUNK_SIZE by {
            if c < n {
                assert(chunk_of(s, c) == chunk_of(read, c));
            }
        }
    } else {
        let chunk = chunk_of(s, last).push(u);
        law_chunk_read_back(read, last, chunk);
        lemma_chunked_same(s, t, last);
        assert(chunked(t, n) =~= chunked(s, n).push(u));
        assert forall|c: u32| c < n implies #[trigger] chunk_ok(t, c) by {
            if c < last {
                assert(chunk_ok(t, c) == chunk_ok(read, c));
                assert(chunk_ok(s, c));
            }
        }
        assert forall|c: u32| c < n implies (#[trigger] chunk_of(t, c)).len() <= CHUNK_SIZE by {
            if c < last {
                assert(chunk_of(s, c) == chunk_of(read, c));
            }
        }
    }
    if consistent(s) && !index_of(s).contains(u) {
        assert(index_of(t).no_duplicates());
    }
}

/// Taking a username out of a list leaves the others, in order and no more often
/// than before, and a list without it as it is.
pub proof fn law_without(list: Seq<Seq<u8>>, u: Seq<u8>)
    ensures
        !without(list, u).contains(u),
        forall|v: Seq<u8>|
            v != u ==> (#[trigger] without(list, u).contains(v) <==> list.contains(v)),
        without(list, u).len() <= list.len(),
        !list.contains(u) ==> without(list, u) == list,
        list.no_duplicates() ==> without(list, u).no_duplicates(),
    decreases list.len(),
{
    reveal(Seq::filter);
    if list.len() > 0 {
        let front = list.drop_last();
        let kept = without(front, u);
        let last = list.last();
        law_without(front, u);
        assert(list =~= front.push(last));
        assert forall|v: Seq<u8>| #[trigger] list.contains(v) <==> front.contains(v) || v
            == last by {
            if front.contains(v) {
                let i = choose|i: int| 0 <= i < front.len() && front[i] == v;
                assert(list[i] == v);
            }
            if v == last {
                assert(list[list.len() - 1] == v);
            }
        }
        if last != u {
            assert(without(list, u) == kept.push(last));
            assert forall|v: Seq<u8>| #[trigger] kept.push(last).contains(v) <==> kept.contains(v)
                || v == last by {
                if kept.contains(v) {
                    let i = choose|i: int| 0 <= i < kept.len() && kept[i] == v;
                    assert(kept.push(last)[i] == v);
                }
                if v == last {
                    assert(kept.push(last)[kept.len() as int] == v);
                }
            }
            if list.no_duplicates() {
                assert(!front.contains(last)) by {
                    if front.contains(last) {
                        let i = choose|i: int| 0 <= i < front.len() && front[i] == last;
                        assert(list[i] == list[list.len() - 1]);
                    }
                }
                assert(!kept.contains(last));
                assert forall|i: int, j: int|
                    0 <= i < kept.push(last).len() && 0 <= j < kept.push(last).len() && i
                        != j implies kept.push(last)[i] != kept.push(last)[j] by {
                    if i < kept.len() {
                        assert(kept.contains(kept[i]));
                    }
                    if j < kept.len() {
                        assert(kept.contains(kept[j]));
                    }
                }
            }
        }
    }
}

/// Taking a username out of two lists, one after the other, takes it out of
/// both.
proof fn lemma_without_add(a: Seq<Seq<u8>>, b: Seq<Seq<u8>>, u: Seq<u8>)
    ensures
        without(a + b, u) == without(a, u) + without(b, u),
{
    Seq::filter_distributes_over_add(a, b, |x: Seq<u8>| x != u);
}

/// Taking a username out of every chunk takes it out of the chain.
proof fn lemma_chunked_without(s: LedgerState, t: LedgerState, n: u32, u: Seq<u8>)
    requires
        forall|c: u32| c < n ==> #[trigger] chunk_of(t, c) == without(chunk_of(s, c), u),
    ensures
        chunked(t, n) == without(chunked(s, n), u),
    decreases n,
{
    if n == 0 {
        reveal(Seq::filter);
        assert(without(chunked(s, n), u) =~= Seq::<Seq<u8>>::empty());
    } else {
        let last = (n - 1) as u32;
        lemma_chunked_without(s, t, last, u);
        lemma_without_add(chunked(s, last), chunk_of(s, last), u);
        assert(chunk_of(t, last) == without(chunk_of(s, last), u));
    }
}

/// Removing a username takes every occurrence of it out of the flat index and out
/// of every chunk, whatever they hold. The number of chunks stays, or is 0 where
/// that was the last username.
pub proof fn law_removal(s: LedgerState, u: Seq<u8>)
    ensures
        index_ok(removed(s, u)),
        index_of(removed(s, u)) == without(index_of(s), u),
        forall|c: u32|
            c < chunk_count_of(s) ==> #[trigger] chunk_of(removed(s, u), c) == without(
                chunk_of(s, c),
                u,
            ),
        chunk_count_ok(s) ==> chunk_count_ok(removed(s, u)),
        chunk_count_of(removed(s, u)) == (if nothing_indexed(removed(s, u)) && !nothing_indexed(
            s,
        ) {
            0
        } else {
            chunk_count_of(s)
        }),
        forall|c: u32| chunk_ok(s, c) ==> #[trigger] chunk_ok(removed(s, u), c),
        chunked(removed(s, u), chunk_count_of(removed(s, u))) == without(
            chunked(s, chunk_count_of(s)),
            u,
        ),
        removed(s, u).runs() == s.runs(),
        removed(s, u).host == s.host,
{
    let n = chunk_count_of(s);
    let index = without(index_of(s), u);
    let indexed = put_index(s, index);
    let stripped = strip_chunks(indexed, u, n);
    let t = removed(s, u);
    law_index_read_back(s, index);
    lemma_strip_chunks(indexed, u, n);
    assert forall|c: u32| c < n implies #[trigger] chunk_of(stripped, c) == without(
        chunk_of(s, c),
        u,
    ) by {
        assert(chunk_of(indexed, c) == chunk_of(s, c));
    }
    lemma_chunked_without(s, stripped, n, u);
    assert forall|c: u32| chunk_ok(s, c) implies #[trigger] chunk_ok(stripped, c) by {
        assert(chunk_ok(indexed, c));
    }
    if n > 0 && nothing_indexed(stripped) && !nothing_indexed(s) {
        let cleared = remove_chunks(stripped, n);
        lemma_remove_chunks(stripped, n);
        lemma_removed_chunks(stripped, n);
        law_chunk_count_read_back(cleared, 0);
        lemma_chunked_empty(stripped, n);
        assert forall|c: u32| c < n implies #[trigger] chunk_of(t, c) == without(
            chunk_of(s, c),
            u,
        ) by {
            assert(chunk_of(cleared, c) =~= Seq::<Seq<u8>>::empty());
            assert(chunk_of(stripped, c).len() == 0);
        }
        assert forall|c: u32| chunk_ok(s, c) implies #[trigger] chunk_ok(t, c) by {
            assert(chunk_ok(stripped, c));
            lemma_cleared_ok(stripped, n, c);
        }
    }
}

/// Removing chunks leaves every chunk readable.
proof fn lemma_cleared_ok(s: LedgerState, n: u32, c: u32)
    requires
        chunk_ok(s, c),
    ensures
        chunk_ok(remove_chunks(s, n), c),
    decreases n,
{
    if n > 0 {
        lemma_cleared_ok(s, (n - 1) as u32, c);
    }
}

/// Empty chunks are chained to the empty list.
proof fn lemma_chunked_empty(s: LedgerState, n: u32)
    requires
        forall|c: u32| c < n ==> (#[trigger] chunk_of(s, c)).len() == 0,
    ensures
        chunked(s, n).len() == 0,
    decreases n,
{
    if n > 0 {
        lemma_chunked_empty(s, (n - 1) as u32);
        assert(chunk_of(s, (n - 1) as u32).len() == 0);
    }
}

/// Removing a username keeps the chunks in agreement with the flat index, and the
/// registry consistent where it was.
pub proof fn law_remove_keeps_agreement(s: LedgerState, u: Seq<u8>)
    requires
        chunks_agree(s),
    ensures
        chunks_agree(removed(s, u)),
        consistent(s) ==> consistent(removed(s, u)),
        !index_of(removed(s, u)).contains(u),
{
    let t = removed(s, u);
    law_removal(s, u);
    law_without(index_of(s), u);
    assert forall|c: u32| c < chunk_count_of(t) implies #[trigger] chunk_ok(t, c) by {
        assert(chunk_ok(s, c));
    }
    assert forall|c: u32| c < chunk_count_of(t) implies (#[trigger] chunk_of(t, c)).len()
        <= CHUNK_SIZE by {
        law_without(chunk_of(s, c), u);
        assert(chunk_of(s, c).len() <= CHUNK_SIZE);
    }
}

/// Removing what was just added leaves the flat index, and the chunks one after
/// another, as they were, whatever else they hold.
pub proof fn law_remove_undoes_add(s: LedgerState, u: Seq<u8>)
    requires
        !index_of(s).contains(u),
        forall|c: u32| c < chunk_count_of(s) ==> !(#[trigger] chunk_of(s, c)).contains(u),
        chunks_full(s) ==> chunk_count_of(s) < u32::MAX,
    ensures
        ({
            let t = removed(added(s, u), u);
            &&& index_of(t) == index_of(s)
            &&& chunked(t, chunk_count_of(t)) == chunked(s, chunk_count_of(s))
            &&& forall|c: u32|
                c < chunk_count_of(s) ==> #[trigger] chunk_of(t, c) == chunk_of(s, c)
        }),
{
    let n = chunk_count_of(s);
    let a = added(s, u);
    lemma_added_chunks(s, u);
    law_add_appends(s, u);
    law_removal(a, u);
    lemma_without_push(index_of(s), u);
    lemma_chunked_contains(s, n, u);
    lemma_without_push(chunked(s, n), u);
    assert forall|c: u32| c < n implies #[trigger] chunk_of(removed(a, u), c) == chunk_of(
        s,
        c,
    ) by {
        assert(!chunk_of(s, c).contains(u));
        assert(chunk_of(removed(a, u), c) == without(chunk_of(a, c), u));
        law_without(chunk_of(s, c), u);
        lemma_without_push(chunk_of(s, c), u);
    }
}

/// Removing a username that neither the flat index nor a chunk holds changes neither
/// of them, nor the number of chunks, nor any other entry.
pub proof fn law_remove_unknown(s: LedgerState, u: Seq<u8>)
    requires
        !index_of(s).contains(u),
        !held(s, u, chunk_count_of(s)),
    ensures
        index_of(removed(s, u)) == index_of(s),
        chunk_count_of(removed(s, u)) == chunk_count_of(s),
        removed(s, u).persistent == s.persistent,
{
    let n = chunk_count_of(s);
    let indexed = put_index(s, without(index_of(s), u));
    let stripped = strip_chunks(indexed, u, n);
    law_index_read_back(s, without(index_of(s), u));
    law_without(index_of(s), u);
    lemma_held_same(indexed, s, u, n);
    lemma_strip_nothing(indexed, u, n);
    lemma_strip_chunks(indexed, u, n);
    if nothing_indexed(stripped) {
        assert forall|c: u32| c < n implies (#[trigger] chunk_of(s, c)).len() == 0 by {
            assert(chunk_of(stripped, c).len() == 0);
        }
    }
}

/// Chunks that do not hold a username are left with what they hold.
proof fn lemma_strip_nothing(s: LedgerState, u: Seq<u8>, n: u32)
    requires
        !held(s, u, n),
    ensures
        strip_chunks(s, u, n).persistent == s.persistent,
    decreases n,
{
    if n > 0 {
        let c = (n - 1) as u32;
        assert(!held(s, u, c));
        assert(!chunk_of(s, c).contains(u));
        lemma_strip_nothing(s, u, c);
    }
}

/// A removal leaves the lifetime of every chunk that does not hold the username and
/// comes after one that does.
pub proof fn law_removal_lifetimes(s: LedgerState, u: Seq<u8>, c: u32)
    requires
        c < chunk_count_of(s),
        held(s, u, c),
        !chunk_of(s, c).contains(u),
        chunk_of(s, c).len() > 0,
    ensures
        removed(s, u).live_until[chunk_key(c)] == s.live_until[chunk_key(c)],
{
    let n = chunk_count_of(s);
    let indexed = put_index(s, without(index_of(s), u));
    let stripped = strip_chunks(indexed, u, n);
    law_index_read_back(s, without(index_of(s), u));
    lemma_held_same(indexed, s, u, c);
    assert(chunk_of(indexed, c) == chunk_of(s, c));
    lemma_strip_lifetimes(indexed, u, n, c);
    lemma_strip_chunks(indexed, u, n);
    law_without(chunk_of(s, c), u);
    assert(chunk_of(stripped, c).len() > 0);
}

/// What `law_removal_lifetimes` says, of the first chunks.
proof fn lemma_strip_lifetimes(s: LedgerState, u: Seq<u8>, n: u32, c: u32)
    requires
        held(s, u, c),
        !chunk_of(s, c).contains(u),
    ensures
        strip_chunks(s, u, n).live_until[chunk_key(c)] == s.live_until[chunk_key(c)],
    decreases n,
{
    if n > 0 {
        let d = (n - 1) as u32;
        lemma_strip_lifetimes(s, u, d, c);
        if d != c {
            law_member_keys(CHUNK_KEY, Value::U32(d), CHUNK_KEY, Value::U32(c));
        }
    }
}

/// Adding appends to the flat index, and to the chunks one after another, whatever
/// they hold.
pub proof fn law_add_appends(s: LedgerState, u: Seq<u8>)
    requires
        chunks_full(s) ==> chunk_count_of(s) < u32::MAX,
    ensures
        index_of(added(s, u)) == index_of(s).push(u),
        chunked(added(s, u), chunk_count_of(added(s, u))) == chunked(s, chunk_count_of(s)).push(u),
{
    let n = chunk_count_of(s);
    let last = (n - 1) as u32;
    let t = added(s, u);
    let index = index_of(s).push(u);
    law_index_read_back(s, index);
    lemma_added_chunks(s, u);
    let read = if n == 0 {
        put_index(s, index)
    } else {
        visit_chunk(put_index(s, index), last)
    };
    if chunks_full(s) {
        law_chunk_read_back(read, n, seq![u]);
        law_chunk_count_read_back(put_chunk(read, n, seq![u]), (n + 1) as u32);
        lemma_chunked_same(s, t, n);
        assert(chunked(t, (n + 1) as u32) =~= chunked(s, n).push(u));
    } else {
        law_chunk_read_back(read, last, chunk_of(s, last).push(u));
        lemma_chunked_same(s, t, last);
        assert(chunked(t, n) =~= chunked(s, n).push(u));
    }
}

/// Taking out the last username of a list that does not hold it otherwise.
proof fn lemma_without_push(list: Seq<Seq<u8>>, u: Seq<u8>)
    requires
        !list.contains(u),
    ensures
        without(list.push(u), u) == list,
{
    reveal(Seq::filter);
    assert(list.push(u).drop_last() =~= list);
    law_without(list, u);
}

/// What adding a username does to each chunk.
pub(crate) proof fn lemma_added_chunks(s: LedgerState, u: Seq<u8>)
    requires
        chunks_full(s) ==> chunk_count_of(s) < u32::MAX,
    ensures
        ({
            let n = chunk_count_of(s);
            let t = added(s, u);
            if chunks_full(s) {
                &&& chunk_count_of(t) == n + 1
                &&& chunk_of(t, n) == seq![u]
                &&& forall|d: u32| d != n ==> #[trigger] chunk_of(t, d) == chunk_of(s, d)
            } else {
                let last = (n - 1) as u32;
                &&& chunk_count_of(t) == n
                &&& chunk_of(t, last) == chunk_of(s, last).push(u)
                &&& forall|d: u32| d != last ==> #[trigger] chunk_of(t, d) == chunk_of(s, d)
            }
        }),
{
    let n = chunk_count_of(s);
    let last = (n - 1) as u32;
    let index = index_of(s).push(u);
    law_index_read_back(s, index);
    let indexed = put_index(s, index);
    let read = if n == 0 {
        indexed
    } else {
        visit_chunk(indexed, last)
    };
    if chunks_full(s) {
        law_chunk_read_back(read, n, seq![u]);
        law_chunk_count_read_back(put_chunk(read, n, seq![u]), (n + 1) as u32);
    } else {
        law_chunk_read_back(read, last, chunk_of(s, last).push(u));
    }
    assert forall|d: u32| #[trigger] chunk_of(read, d) == chunk_of(s, d) by {
        assert(chunk_of(indexed, d) == chunk_of(s, d));
    }
}

/// The username `u` is indexed, and no other is, neither in the flat index nor in
/// any chunk.
pub open spec fn is_last(s: LedgerState, u: Seq<u8>) -> bool {
    &&& index_of(s).contains(u) || held(s, u, chunk_count_of(s))
    &&& without(index_of(s), u).len() == 0
    &&& forall|c: u32|
        c < chunk_count_of(s) ==> without(#[trigger] chunk_of(s, c), u).len() == 0
}

/// Where the chunks agree with the flat index, the last username of the flat index
/// is the last of the chunks too.
pub proof fn law_last_username(s: LedgerState, u: Seq<u8>)
    requires
        chunks_agree(s),
        index_of(s).contains(u),
        without(index_of(s), u).len() == 0,
    ensures
        is_last(s, u),
{
    let n = chunk_count_of(s);
    assert forall|c: u32| c < n implies without(#[trigger] chunk_of(s, c), u).len() == 0 by {
        let left = without(chunk_of(s, c), u);
        if left.len() > 0 {
            let v = left[0];
            assert(left.contains(v));
            law_without(chunk_of(s, c), u);
            law_without(index_of(s), u);
            assert(chunk_of(s, c).contains(v));
            lemma_chunked_contains(s, n, v);
            assert(without(index_of(s), u).contains(v));
        }
    }
}

/// Removing the last username leaves an empty registry: the flat index, every
/// chunk and every page of the index are empty, no chunk is counted, and no entry
/// of one is left.
pub proof fn law_remove_last(s: LedgerState, u: Seq<u8>, offset: u32, limit: u32)
    requires
        is_last(s, u),
    ensures
        nothing_indexed(removed(s, u)),
        index_of(removed(s, u)).len() == 0,
        chunk_count_of(removed(s, u)) == 0,
        forall|c: u32| c < chunk_count_of(s) ==> (#[trigger] chunk_of(removed(s, u), c)).len() == 0,
        forall|c: u32|
            c < chunk_count_of(s) ==> !removed(s, u).persistent.contains_key(
                #[trigger] chunk_key(c),
            ),
        page_of(index_of(removed(s, u)), offset, limit).len() == 0,
{
    let n = chunk_count_of(s);
    let t = removed(s, u);
    let indexed = put_index(s, without(index_of(s), u));
    let stripped = strip_chunks(indexed, u, n);
    law_removal(s, u);
    law_index_read_back(s, without(index_of(s), u));
    lemma_strip_chunks(indexed, u, n);
    assert forall|c: u32| c < n implies (#[trigger] chunk_of(stripped, c)).len() == 0 by {
        assert(chunk_of(indexed, c) == chunk_of(s, c));
        assert(without(chunk_of(s, c), u).len() == 0);
    }
    assert(nothing_indexed(stripped));
    lemma_found(s, u);
    lemma_removed_chunks(stripped, n);
    assert forall|c: u32| c < n implies (#[trigger] chunk_of(t, c)).len() == 0 by {
        assert(without(chunk_of(s, c), u).len() == 0);
    }
}

/// After the last username is removed, the next one is added exactly as to a
/// registry that was never used: the flat index, its pages, the number of chunks
/// and the chunks are the same, and in the same ledger the new chunk lives as long.
pub proof fn law_empty_registry_as_new(
    s: LedgerState,
    u: Seq<u8>,
    new: LedgerState,
    v: Seq<u8>,
    offset: u32,
    limit: u32,
)
    requires
        is_last(s, u),
        !new.instance.contains_key(single(INDEX_KEY)),
        !new.instance.contains_key(single(CHUNK_CNT_KEY)),
        forall|c: u32| !new.persistent.contains_key(#[trigger] chunk_key(c)),
    ensures
        ({
            let t = added(removed(s, u), v);
            let fresh = added(new, v);
            &&& index_of(t) == index_of(fresh)
            &&& index_of(t) == seq![v]
            &&& page_of(index_of(t), offset, limit) == page_of(index_of(fresh), offset, limit)
            &&& chunk_count_of(t) == chunk_count_of(fresh)
            &&& chunk_count_of(t) == 1
            &&& chunk_of(t, 0) == chunk_of(fresh, 0)
            &&& chunk_of(t, 0) == seq![v]
            &&& forall|c: u32|
                c < chunk_count_of(s) ==> #[trigger] chunk_of(t, c) == chunk_of(fresh, c)
            &&& chunk_count_of(s) > 0 && s.sequence == new.sequence && s.max_ttl == new.max_ttl
                && s.min_ttl == new.min_ttl ==> t.live_until[chunk_key(0)]
                == fresh.live_until[chunk_key(0)]
        }),
{
    let r = removed(s, u);
    let n = chunk_count_of(s);
    law_remove_last(s, u, offset, limit);
    lemma_added_chunks(r, v);
    lemma_added_chunks(new, v);
    law_add_appends(r, v);
    law_add_appends(new, v);
    assert(index_of(r).push(v) =~= seq![v]);
    assert(index_of(new).push(v) =~= seq![v]);
    assert forall|c: u32| c < n implies #[trigger] chunk_of(added(r, v), c) == chunk_of(
        added(new, v),
        c,
    ) by {
        if c > 0 {
            assert(chunk_of(r, c).len() == 0);
            assert(!new.persistent.contains_key(chunk_key(c)));
            assert(chunk_of(r, c) =~= chunk_of(new, c));
        }
    }
    assert(n > 0 ==> !r.persistent.contains_key(chunk_key(0)));
    assert(!new.persistent.contains_key(chunk_key(0)));
    let indexed = put_index(s, without(index_of(s), u));
    lemma_strip_chunks(indexed, u, n);
    lemma_remove_chunks(strip_chunks(indexed, u, n), n);
}

/// The chunks are the flat index cut into pieces: all but the last are full.
pub open spec fn dense(s: LedgerState) -> bool {
    &&& chunk_count_of(s) == chunks_needed(index_of(s).len())
    &&& forall|c: u32|
        c < chunk_count_of(s) ==> #[trigger] chunk_of(s, c) == piece(index_of(s), c)
}

/// A registry that was never used is dense, and so is one that was compacted.
pub proof fn law_dense_at_first(s: LedgerState)
    ensures
        !s.instance.contains_key(single(INDEX_KEY)) && !s.instance.contains_key(
            single(CHUNK_CNT_KEY),
        ) ==> dense(s),
        index_ok(s) && index_of(s).len() <= u32::MAX ==> dense(compacted(s)),
{
    if index_ok(s) && index_of(s).len() <= u32::MAX {
        law_compaction(s);
    }
}

/// A dense index stays dense when a username is added: no chunk gets too large, and
/// a compaction afterwards changes no chunk, nor their number, nor the flat index.
pub proof fn law_add_keeps_dense(s: LedgerState, u: Seq<u8>)
    requires
        dense(s),
        index_of(s).len() < u32::MAX,
    ensures
        dense(added(s, u)),
        index_of(added(s, u)) == index_of(s).push(u),
        ({
            let t = added(s, u);
            &&& forall|c: u32|
                c < chunk_count_of(t) ==> (#[trigger] chunk_of(t, c)).len() <= CHUNK_SIZE
            &&& index_of(compacted(t)) == index_of(t)
            &&& chunk_count_of(compacted(t)) == chunk_count_of(t)
            &&& forall|c: u32|
                c < chunk_count_of(t) ==> #[trigger] chunk_of(compacted(t), c) == chunk_of(t, c)
        }),
{
    let index = index_of(s);
    let longer = index.push(u);
    let n = chunk_count_of(s);
    let last = (n - 1) as u32;
    let t = added(s, u);
    if n > 0 {
        assert(chunk_of(s, last) == piece(index, last));
    }
    lemma_added_chunks(s, u);
    law_add_appends(s, u);
    law_index_read_back(s, longer);
    assert forall|c: u32| c < chunk_count_of(t) implies #[trigger] chunk_of(t, c) == piece(
        longer,
        c,
    ) by {
        if c < n {
            assert(chunk_of(s, c) == piece(index, c));
        }
        if chunks_full(s) && c == n {
            assert(piece(longer, c) =~= seq![u]);
        } else if !chunks_full(s) && c == last {
            assert(piece(longer, c) =~= piece(index, c).push(u));
        } else {
            assert(piece(longer, c) =~= piece(index, c));
        }
    }
    lemma_added_readable(s, u);
    law_compaction(t);
}

/// Adding leaves a flat index that can be read.
proof fn lemma_added_readable(s: LedgerState, u: Seq<u8>)
    ensures
        index_ok(added(s, u)),
{
    law_index_read_back(s, index_of(s).push(u));
    lemma_single_distinct();
}

/// Removing chunks leaves none of them, and every other entry as it is.
pub(crate) proof fn lemma_removed_chunks(s: LedgerState, n: u32)
    ensures
        forall|c: u32|
            c < n ==> !remove_chunks(s, n).persistent.contains_key(#[trigger] chunk_key(c)),
        forall|key: Value|
            (forall|c: u32| c < n ==> key != #[trigger] chunk_key(c)) ==> {
                &&& #[trigger] remove_chunks(s, n).persistent.contains_key(key)
                    == s.persistent.contains_key(key)
                &&& remove_chunks(s, n).persistent[key] == s.persistent[key]
            },
    decreases n,
{
    if n > 0 {
        let last = (n - 1) as u32;
        lemma_removed_chunks(s, last);
        assert forall|key: Value|
            (forall|c: u32| c < n ==> key != #[trigger] chunk_key(c)) implies {
            &&& #[trigger] remove_chunks(s, n).persistent.contains_key(key)
                == s.persistent.contains_key(key)
            &&& remove_chunks(s, n).persistent[key] == s.persistent[key]
        } by {
            assert(key != chunk_key(last));
            assert(remove_chunks(s, last).persistent.contains_key(key)
                == s.persistent.contains_key(key));
        }
    }
}

/// Writing pieces of an index makes each of them a chunk, and leaves every other
/// entry as it is.
proof fn lemma_written_pieces(s: LedgerState, index: Seq<Seq<u8>>, n: u32)
    ensures
        forall|c: u32|
            c < n ==> #[trigger] chunk_of(put_pieces(s, index, n), c) == piece(index, c),
        forall|c: u32| c < n ==> #[trigger] chunk_ok(put_pieces(s, index, n), c),
        forall|key: Value|
            (forall|c: u32| c < n ==> key != #[trigger] chunk_key(c)) ==> {
                &&& #[trigger] put_pieces(s, index, n).persistent.contains_key(key)
                    == s.persistent.contains_key(key)
                &&& put_pieces(s, index, n).persistent[key] == s.persistent[key]
            },
    decreases n,
{
    if n > 0 {
        let last = (n - 1) as u32;
        let before = put_pieces(s, index, last);
        let after = put_pieces(s, index, n);
        lemma_written_pieces(s, index, last);
        law_chunk_read_back(before, last, piece(index, last));
        assert forall|c: u32| c < n implies #[trigger] chunk_of(after, c) == piece(index, c) by {
            if c != last {
                assert(chunk_of(after, c) == chunk_of(before, c));
            }
        }
        assert forall|c: u32| c < n implies #[trigger] chunk_ok(after, c) by {
            if c != last {
                assert(chunk_ok(after, c) == chunk_ok(before, c));
            }
        }
        assert forall|key: Value|
            (forall|c: u32| c < n ==> key != #[trigger] chunk_key(c)) implies {
            &&& #[trigger] after.persistent.contains_key(key) == s.persistent.contains_key(key)
            &&& after.persistent[key] == s.persistent[key]
        } by {
            assert(key != chunk_key(last));
            assert(before.persistent.contains_key(key) == s.persistent.contains_key(key));
        }
    }
}

/// The first pieces of an index make up its beginning.
proof fn lemma_chained_pieces(t: LedgerState, index: Seq<Seq<u8>>, n: u32)
    requires
        n <= chunks_needed(index.len()),
        forall|c: u32| c < n ==> #[trigger] chunk_of(t, c) == piece(index, c),
    ensures
        n * CHUNK_SIZE <= index.len() ==> chunked(t, n) == index.take(n * CHUNK_SIZE),
        n * CHUNK_SIZE > index.len() ==> chunked(t, n) == index,
    decreases n,
{
    if n == 0 {
        assert(index.take(0) =~= Seq::empty());
    } else {
        let last = (n - 1) as u32;
        lemma_chained_pieces(t, index, last);
        assert(chunk_of(t, last) == piece(index, last));
        if n * CHUNK_SIZE <= index.len() {
            assert(index.take(n * CHUNK_SIZE) =~= index.take(last * CHUNK_SIZE) + piece(
                index,
                last,
            ));
        } else {
            assert(index =~= index.take(last * CHUNK_SIZE) + piece(index, last));
        }
    }
}

/// Compaction cuts the flat index into chunks: all but the last are full, the
/// last is not empty, and no other chunk is left. The flat index stays as it is,
/// and so does every entry that is no chunk.
pub proof fn law_compaction(s: LedgerState)
    requires
        index_ok(s),
        index_of(s).len() <= u32::MAX,
    ensures
        index_of(compacted(s)) == index_of(s),
        chunks_agree(compacted(s)),
        chunk_count_of(compacted(s)) == chunks_needed(index_of(s).len()),
        forall|c: u32|
            c < chunk_count_of(compacted(s)) ==> #[trigger] chunk_of(compacted(s), c) == piece(
                index_of(s),
                c,
            ),
        forall|c: u32|
            c + 1 < chunk_count_of(compacted(s)) ==> (#[trigger] chunk_of(compacted(s), c)).len()
                == CHUNK_SIZE,
        forall|c: u32|
            c < chunk_count_of(compacted(s)) ==> (#[trigger] chunk_of(compacted(s), c)).len() > 0,
        forall|c: u32|
            chunk_count_of(compacted(s)) <= c < chunk_count_of(s)
                ==> !compacted(s).persistent.contains_key(#[trigger] chunk_key(c)),
        forall|key: Value|
            (forall|c: u32| key != #[trigger] chunk_key(c)) ==> {
                &&& #[trigger] compacted(s).persistent.contains_key(key)
                    == s.persistent.contains_key(key)
                &&& compacted(s).persistent[key] == s.persistent[key]
            },
        forall|key: Value|
            key != single(CHUNK_CNT_KEY) ==> {
                &&& #[trigger] compacted(s).instance.contains_key(key) == s.instance.contains_key(
                    key,
                )
                &&& compacted(s).instance[key] == s.instance[key]
            },
{
    let index = index_of(s);
    let n = chunks_needed(index.len()) as u32;
    assert(n == chunks_needed(index.len()));
    let old_n = chunk_count_of(s);
    let cleared = remove_chunks(s, old_n);
    let written = put_pieces(cleared, index, n);
    let t = compacted(s);
    lemma_remove_chunks(s, old_n);
    lemma_removed_chunks(s, old_n);
    lemma_put_pieces(cleared, index, n);
    lemma_written_pieces(cleared, index, n);
    law_chunk_count_read_back(written, n);
    lemma_chained_pieces(t, index, n);
    assert(index.take(index.len() as int) =~= index);
    assert forall|c: u32| c < n implies #[trigger] chunk_ok(t, c) by {
        assert(chunk_ok(written, c));
    }
    assert forall|c: u32| n <= c < old_n implies !t.persistent.contains_key(
        #[trigger] chunk_key(c),
    ) by {
        assert forall|d: u32| d < n implies chunk_key(c) != #[trigger] chunk_key(d) by {
            law_member_keys(CHUNK_KEY, Value::U32(c), CHUNK_KEY, Value::U32(d));
        }
        assert(written.persistent.contains_key(chunk_key(c)) == cleared.persistent.contains_key(
            chunk_key(c),
        ));
    }
    assert forall|key: Value| (forall|c: u32| key != #[trigger] chunk_key(c)) implies {
        &&& #[trigger] t.persistent.contains_key(key) == s.persistent.contains_key(key)
        &&& t.persistent[key] == s.persistent[key]
    } by {
        assert(written.persistent.contains_key(key) == cleared.persistent.contains_key(key));
        assert(cleared.persistent.contains_key(key) == s.persistent.contains_key(key));
    }
}

/// The lifetime of a chunk that is written where there was none.
pub open spec fn new_chunk_lifetime(s: LedgerState) -> u32 {
    s.extended(s.min_live_until() as u32, TTL_THRESHOLD, TTL_BUMP)
}

/// What writing pieces of an index puts into each entry, and how long it lives where
/// there was none.
proof fn lemma_piece_entries(s: LedgerState, index: Seq<Seq<u8>>, n: u32)
    ensures
        ({
            let t = put_pieces(s, index, n);
            &&& forall|c: u32|
                c < n ==> {
                    &&& t.persistent.contains_key(#[trigger] chunk_key(c))
                    &&& t.persistent[chunk_key(c)] == usernames_value(piece(index, c))
                    &&& t.live_until.contains_key(chunk_key(c))
                    &&& !s.persistent.contains_key(chunk_key(c))
                        ==> t.live_until[chunk_key(c)] == new_chunk_lifetime(s)
                }
            &&& forall|key: Value|
                (forall|c: u32| c < n ==> key != #[trigger] chunk_key(c)) ==> {
                    &&& #[trigger] t.live_until.contains_key(key) == s.live_until.contains_key(key)
                    &&& t.live_until[key] == s.live_until[key]
                }
        }),
    decreases n,
{
    if n > 0 {
        let last = (n - 1) as u32;
        let before = put_pieces(s, index, last);
        let t = put_pieces(s, index, n);
        lemma_piece_entries(s, index, last);
        lemma_put_pieces(s, index, last);
        lemma_written_pieces(s, index, last);
        assert forall|c: u32| c < last implies chunk_key(last) != #[trigger] chunk_key(c) by {
            law_member_keys(CHUNK_KEY, Value::U32(last), CHUNK_KEY, Value::U32(c));
        }
        assert(before.persistent.contains_key(chunk_key(last)) == s.persistent.contains_key(
            chunk_key(last),
        ));
        assert forall|key: Value|
            (forall|c: u32| c < n ==> key != #[trigger] chunk_key(c)) implies {
            &&& #[trigger] t.live_until.contains_key(key) == s.live_until.contains_key(key)
            &&& t.live_until[key] == s.live_until[key]
        } by {
            assert(key != chunk_key(last));
            assert(before.live_until.contains_key(key) == s.live_until.contains_key(key));
        }
    }
}

/// Removing chunks leaves every other lifetime as it is.
pub(crate) proof fn lemma_removed_lifetimes(s: LedgerState, n: u32)
    ensures
        forall|key: Value|
            (forall|c: u32| c < n ==> key != #[trigger] chunk_key(c)) ==> {
                &&& #[trigger] remove_chunks(s, n).live_until.contains_key(key)
                    == s.live_until.contains_key(key)
                &&& remove_chunks(s, n).live_until[key] == s.live_until[key]
            },
    decreases n,
{
    if n > 0 {
        let last = (n - 1) as u32;
        lemma_removed_lifetimes(s, last);
        assert forall|key: Value|
            (forall|c: u32| c < n ==> key != #[trigger] chunk_key(c)) implies {
            &&& #[trigger] remove_chunks(s, n).live_until.contains_key(key)
                == s.live_until.contains_key(key)
            &&& remove_chunks(s, n).live_until[key] == s.live_until[key]
        } by {
            assert(key != chunk_key(last));
            assert(remove_chunks(s, last).live_until.contains_key(key)
                == s.live_until.contains_key(key));
        }
    }
}

/// A second compaction changes no entry. Where no chunk was stored beyond those that
/// are counted, it changes no lifetime either: it changes nothing.
pub proof fn law_compaction_twice(s: LedgerState)
    requires
        index_ok(s),
        index_of(s).len() <= u32::MAX,
    ensures
        compacted(compacted(s)).instance == compacted(s).instance,
        compacted(compacted(s)).persistent == compacted(s).persistent,
        (forall|c: u32|
            c >= chunk_count_of(s) ==> !s.persistent.contains_key(#[trigger] chunk_key(c)))
            ==> compacted(compacted(s)) == compacted(s),
{
    let index = index_of(s);
    let n = chunks_needed(index.len()) as u32;
    let t = compacted(s);
    let again = compacted(t);
    law_compaction(s);
    law_compaction(t);
    lemma_compacted(s);
    lemma_compacted(t);
    assert(again.instance =~= t.instance);
    assert forall|key: Value|
        again.persistent.contains_key(key) == t.persistent.contains_key(key) && (
        again.persistent.contains_key(key) ==> again.persistent[key] == t.persistent[key]) by {
        if forall|c: u32| c < n ==> key != #[trigger] chunk_key(c) {
            assert(again.persistent.contains_key(key) == t.persistent.contains_key(key));
        }
    }
    assert(again.persistent =~= t.persistent);
    if forall|c: u32|
        c >= chunk_count_of(s) ==> !s.persistent.contains_key(#[trigger] chunk_key(c)) {
        assert forall|key: Value|
            again.live_until.contains_key(key) == t.live_until.contains_key(key) && (
            again.live_until.contains_key(key) ==> again.live_until[key] == t.live_until[key]) by {
            if forall|c: u32| c < n ==> key != #[trigger] chunk_key(c) {
                assert(again.live_until.contains_key(key) == t.live_until.contains_key(key));
            } else {
                let c = choose|c: u32| c < n && key == #[trigger] chunk_key(c);
                assert(!remove_chunks(s, chunk_count_of(s)).persistent.contains_key(chunk_key(c)))
                    by {
                    lemma_removed_chunks(s, chunk_count_of(s));
                    if c >= chunk_count_of(s) {
                        lemma_absent_stays(s, chunk_count_of(s), chunk_key(c));
                    }
                }
                lemma_removed_chunks(t, n);
            }
        }
        assert(again.live_until =~= t.live_until);
        assert(again =~= t);
    }
}

/// Removing chunks adds no entry.
pub(crate) proof fn lemma_absent_stays(s: LedgerState, n: u32, key: Value)
    requires
        !s.persistent.contains_key(key),
    ensures
        !remove_chunks(s, n).persistent.contains_key(key),
    decreases n,
{
    if n > 0 {
        lemma_absent_stays(s, (n - 1) as u32, key);
    }
}

/// What compaction puts into each entry, and how long it lives.
pub(crate) proof fn lemma_compacted(s: LedgerState)
    requires
        index_of(s).len() <= u32::MAX,
    ensures
        ({
            let index = index_of(s);
            let n = chunks_needed(index.len()) as u32;
            let old_n = chunk_count_of(s);
            let cleared = remove_chunks(s, old_n);
            let t = compacted(s);
            &&& t == (LedgerState {
                instance: s.instance.insert(single(CHUNK_CNT_KEY), Value::U32(n)),
                persistent: t.persistent,
                live_until: t.live_until,
                ..s
            })
            &&& forall|c: u32|
                c < n ==> {
                    &&& t.persistent.contains_key(#[trigger] chunk_key(c))
                    &&& t.persistent[chunk_key(c)] == usernames_value(piece(index, c))
                    &&& t.live_until.contains_key(chunk_key(c))
                    &&& !cleared.persistent.contains_key(chunk_key(c))
                        ==> t.live_until[chunk_key(c)] == new_chunk_lifetime(s)
                }
            &&& forall|key: Value|
                (forall|c: u32| c < n ==> key != #[trigger] chunk_key(c)) && (forall|c: u32|
                    c < old_n ==> key != #[trigger] chunk_key(c)) ==> {
                    &&& #[trigger] t.persistent.contains_key(key) == s.persistent.contains_key(key)
                    &&& t.persistent[key] == s.persistent[key]
                }
            &&& forall|key: Value|
                (forall|c: u32| c < n ==> key != #[trigger] chunk_key(c)) && (forall|c: u32|
                    c < old_n ==> key != #[trigger] chunk_key(c)) ==> {
                    &&& #[trigger] t.live_until.contains_key(key) == s.live_until.contains_key(key)
                    &&& t.live_until[key] == s.live_until[key]
                }
        }),
{
    let index = index_of(s);
    let n = chunks_needed(index.len()) as u32;
    let old_n = chunk_count_of(s);
    let cleared = remove_chunks(s, old_n);
    let written = put_pieces(cleared, index, n);
    let t = compacted(s);
    lemma_remove_chunks(s, old_n);
    lemma_removed_chunks(s, old_n);
    lemma_removed_lifetimes(s, old_n);
    lemma_put_pieces(cleared, index, n);
    lemma_written_pieces(cleared, index, n);
    lemma_piece_entries(cleared, index, n);
    assert forall|key: Value|
        (forall|c: u32| c < n ==> key != #[trigger] chunk_key(c)) && (forall|c: u32|
            c < old_n ==> key != #[trigger] chunk_key(c)) implies {
        &&& #[trigger] t.persistent.contains_key(key) == s.persistent.contains_key(key)
        &&& t.persistent[key] == s.persistent[key]
    } by {
        assert(written.persistent.contains_key(key) == cleared.persistent.contains_key(key));
    }
    assert forall|key: Value|
        (forall|c: u32| c < n ==> key != #[trigger] chunk_key(c)) && (forall|c: u32|
            c < old_n ==> key != #[trigger] chunk_key(c)) implies {
        &&& #[trigger] t.live_until.contains_key(key) == s.live_until.contains_key(key)
        &&& t.live_until[key] == s.live_until[key]
    } by {
        assert(written.live_until.contains_key(key) == cleared.live_until.contains_key(key));
    }
}

/// Compaction keeps the registry consistent.
pub proof fn law_compaction_consistent(s: LedgerState)
    requires
        index_ok(s),
        index_of(s).len() <= u32::MAX,
        index_of(s).no_duplicates(),
    ensures
        consistent(compacted(s)),
{
    law_compaction(s);
}

} // verus!
