//! The username index: one flat list, and the same usernames in chunks.

use crate::host::{
    env_host, instance_get, instance_set, persistent_extend_ttl, persistent_get,
    persistent_remove, persistent_set, running, state,
};
use crate::keys::{
    chunk_key, lemma_single_distinct, numbered_key, single, single_key, CHUNK_CNT_KEY, CHUNK_SIZE,
    DEFAULT_PAGE_LIMIT, INDEX_KEY, MAX_PAGE_LIMIT, TTL_BUMP, TTL_THRESHOLD,
};
use crate::laws::index::{law_chunk_read_back, law_index_read_back, law_removal, law_without};
use crate::laws::operations::law_add_exactly;
use crate::ledger::LedgerState;
use crate::storage::entries::{holds_u32, read_u32, renew, u32_at, write_u32};
use crate::usernames::{is_usernames, same_username, usernames_of, usernames_value, UsernameList};
use crate::value::Value;
use soroban_sdk::Env;
use vstd::prelude::*;

verus! {

/// The flat index is a list of usernames, if it is there.
pub open spec fn index_ok(s: LedgerState) -> bool {
    s.instance.contains_key(single(INDEX_KEY)) ==> is_usernames(s.instance[single(INDEX_KEY)])
}

/// The flat index: the usernames in the order of their registration.
pub open spec fn index_of(s: LedgerState) -> Seq<Seq<u8>> {
    if s.instance.contains_key(single(INDEX_KEY)) {
        usernames_of(s.instance[single(INDEX_KEY)])
    } else {
        Seq::empty()
    }
}

/// The state after the flat index is written.
pub open spec fn put_index(s: LedgerState, index: Seq<Seq<u8>>) -> LedgerState {
    s.put_instance(single(INDEX_KEY), usernames_value(index))
}

/// The number of chunks is a number, if it is there.
pub open spec fn chunk_count_ok(s: LedgerState) -> bool {
    holds_u32(s.instance, single(CHUNK_CNT_KEY))
}

/// The number of chunks.
pub open spec fn chunk_count_of(s: LedgerState) -> u32 {
    u32_at(s.instance, single(CHUNK_CNT_KEY))
}

/// The state after the number of chunks is written.
pub open spec fn put_chunk_count(s: LedgerState, count: u32) -> LedgerState {
    s.put_instance(single(CHUNK_CNT_KEY), Value::U32(count))
}

/// A chunk is a list of usernames, if it is there.
pub open spec fn chunk_ok(s: LedgerState, chunk_idx: u32) -> bool {
    s.persistent.contains_key(chunk_key(chunk_idx)) ==> is_usernames(
        s.persistent[chunk_key(chunk_idx)],
    )
}

/// The usernames of a chunk.
pub open spec fn chunk_of(s: LedgerState, chunk_idx: u32) -> Seq<Seq<u8>> {
    if s.persistent.contains_key(chunk_key(chunk_idx)) {
        usernames_of(s.persistent[chunk_key(chunk_idx)])
    } else {
        Seq::empty()
    }
}

/// The state after a chunk is written.
pub open spec fn put_chunk(s: LedgerState, chunk_idx: u32, chunk: Seq<Seq<u8>>) -> LedgerState {
    renew(s.put(chunk_key(chunk_idx), usernames_value(chunk)), chunk_key(chunk_idx))
}

/// The state after a chunk is read: its lifetime is renewed unless it is empty.
pub open spec fn visit_chunk(s: LedgerState, chunk_idx: u32) -> LedgerState {
    if chunk_of(s, chunk_idx).len() > 0 {
        renew(s, chunk_key(chunk_idx))
    } else {
        s
    }
}

/// The number of usernames that a page holds at most: `DEFAULT_PAGE_LIMIT` if
/// none is asked for, and never more than `MAX_PAGE_LIMIT`.
pub open spec fn page_limit(limit: u32) -> u32 {
    if limit == 0 {
        DEFAULT_PAGE_LIMIT
    } else if limit <= MAX_PAGE_LIMIT {
        limit
    } else {
        MAX_PAGE_LIMIT
    }
}

/// Where a page ends that starts at `start`, in a list of `len` items.
pub open spec fn page_end(start: u32, limit: u32, len: nat) -> int {
    if start + page_limit(limit) <= len {
        start + page_limit(limit)
    } else {
        len as int
    }
}

/// The items of the page that starts at `start`.
pub open spec fn page_of(index: Seq<Seq<u8>>, start: u32, limit: u32) -> Seq<Seq<u8>> {
    if start < index.len() {
        index.subrange(start as int, page_end(start, limit, index.len()))
    } else {
        Seq::empty()
    }
}

/// The usernames without any occurrence of `username`.
pub open spec fn without(usernames: Seq<Seq<u8>>, username: Seq<u8>) -> Seq<Seq<u8>> {
    usernames.filter(|u: Seq<u8>| u != username)
}

/// Returns the flat index. It is empty until a username is added.
pub fn get_index(env: &Env) -> (r: UsernameList)
    requires
        running(*env),
        index_ok(state(*env)),
    ensures
        r.wf(),
        r.host() == env_host(*env),
        r@ == index_of(state(*env)),
{
    proof {
        reveal_strlit("idx");
    }
    match instance_get(env, single_key(env, INDEX_KEY)) {
        Some(v) => UsernameList::from_val(env, v),
        None => UsernameList::new(env),
    }
}

/// Overwrites the flat index.
pub fn set_index(env: &mut Env, index: &UsernameList)
    requires
        running(*old(env)),
        index.wf(),
        index.host() == env_host(*old(env)),
    ensures
        state(*final(env)) == put_index(state(*old(env)), index@),
{
    proof {
        reveal_strlit("idx");
    }
    let key = single_key(env, INDEX_KEY);
    instance_set(env, key, index.to_val());
}

/// The effective size of a page.
pub(crate) fn effective_limit(limit: u32) -> (r: u32)
    ensures
        r == page_limit(limit),
        0 < r <= MAX_PAGE_LIMIT,
{
    if limit == 0 {
        DEFAULT_PAGE_LIMIT
    } else if limit < MAX_PAGE_LIMIT {
        limit
    } else {
        MAX_PAGE_LIMIT
    }
}

/// The position after the last of a page.
pub(crate) fn effective_end(start: u32, limit: u32, len: u32) -> (r: u32)
    ensures
        r == page_end(start, limit, len as nat),
{
    let end = start.saturating_add(effective_limit(limit));
    if end < len {
        end
    } else {
        len
    }
}

/// Returns a bounded page of usernames from the flat index, starting at
/// `offset`.
///
/// A `limit` of 0 asks for `DEFAULT_PAGE_LIMIT` usernames, and one above
/// `MAX_PAGE_LIMIT` for no more than that.
pub fn get_index_page(env: &Env, offset: u32, limit: u32) -> (r: UsernameList)
    requires
        running(*env),
        index_ok(state(*env)),
    ensures
        r.wf(),
        r.host() == env_host(*env),
        r@ == page_of(index_of(state(*env)), offset, limit),
        ({
            let index = index_of(state(*env));
            let most: int = if limit == 0 {
                20
            } else if limit <= 100 {
                limit as int
            } else {
                100
            };
            &&& offset >= index.len() ==> r@.len() == 0
            &&& offset < index.len() ==> r@.len() == (if most <= index.len() - offset {
                most
            } else {
                index.len() - offset
            })
            &&& forall|i: int| 0 <= i < r@.len() ==> #[trigger] r@[i] == index[offset + i]
        }),
{
    let index = get_index(env);
    let mut page = UsernameList::new(env);
    if offset >= index.len() {
        return page;
    }
    let end = effective_end(offset, limit, index.len());
    let mut i: u32 = offset;
    assert(index@.subrange(offset as int, offset as int) =~= Seq::<Seq<u8>>::empty());
    while i < end
        invariant
            offset <= i <= end <= index@.len(),
            index@.len() <= u32::MAX,
            index.wf(),
            page.wf(),
            page.host() == env_host(*env),
            page@ == index@.subrange(offset as int, i as int),
        decreases end - i,
    {
        if let Some(username) = index.get(i) {
            page.push_back(&username);
            assert(page@ =~= index@.subrange(offset as int, i + 1));
        }
        i += 1;
    }
    page
}

/// Returns the number of chunks.
pub fn get_chunk_count(env: &Env) -> (r: u32)
    requires
        running(*env),
        chunk_count_ok(state(*env)),
    ensures
        r == chunk_count_of(state(*env)),
{
    proof {
        reveal_strlit("chkcnt");
    }
    read_u32(env, CHUNK_CNT_KEY)
}

/// Sets the number of chunks.
pub fn set_chunk_count(env: &mut Env, count: u32)
    requires
        running(*old(env)),
    ensures
        state(*final(env)) == put_chunk_count(state(*old(env)), count),
{
    proof {
        reveal_strlit("chkcnt");
    }
    write_u32(env, CHUNK_CNT_KEY, count);
}

/// Reads a chunk, and leaves its lifetime as it is.
fn peek_chunk(env: &Env, chunk_idx: u32) -> (r: UsernameList)
    requires
        running(*env),
        chunk_ok(state(*env), chunk_idx),
    ensures
        r.wf(),
        r.host() == env_host(*env),
        r@ == chunk_of(state(*env), chunk_idx),
{
    match persistent_get(env, numbered_key(env, chunk_idx)) {
        Some(v) => UsernameList::from_val(env, v),
        None => UsernameList::new(env),
    }
}

/// Returns a chunk, and renews its lifetime unless it is empty.
pub fn get_chunk(env: &mut Env, chunk_idx: u32) -> (r: UsernameList)
    requires
        running(*old(env)),
        chunk_ok(state(*old(env)), chunk_idx),
    ensures
        r.wf(),
        r.host() == env_host(*old(env)),
        r@ == chunk_of(state(*old(env)), chunk_idx),
        state(*final(env)) == visit_chunk(state(*old(env)), chunk_idx),
{
    let chunk = peek_chunk(env, chunk_idx);
    if !chunk.is_empty() {
        let key = numbered_key(env, chunk_idx);
        persistent_extend_ttl(env, key, TTL_THRESHOLD, TTL_BUMP);
    }
    chunk
}

/// Writes a chunk, and renews its lifetime.
pub fn set_chunk(env: &mut Env, chunk_idx: u32, chunk: &UsernameList)
    requires
        running(*old(env)),
        chunk.wf(),
        chunk.host() == env_host(*old(env)),
    ensures
        state(*final(env)) == put_chunk(state(*old(env)), chunk_idx, chunk@),
{
    let key = numbered_key(env, chunk_idx);
    persistent_set(env, key, chunk.to_val());
    persistent_extend_ttl(env, key, TTL_THRESHOLD, TTL_BUMP);
}

/// Whether the chunks are full: the next username needs a new one.
pub open spec fn chunks_full(s: LedgerState) -> bool {
    chunk_count_of(s) == 0 || chunk_of(s, (chunk_count_of(s) - 1) as u32).len() >= CHUNK_SIZE
}

/// The state after `username` is appended to the flat index, and to the last
/// chunk or, where that is full, to a new one.
pub open spec fn added(s: LedgerState, username: Seq<u8>) -> LedgerState {
    let n = chunk_count_of(s);
    let last = (n - 1) as u32;
    let indexed = put_index(s, index_of(s).push(username));
    let read = if n == 0 {
        indexed
    } else {
        visit_chunk(indexed, last)
    };
    if chunks_full(s) {
        put_chunk_count(put_chunk(read, n, seq![username]), (n + 1) as u32)
    } else {
        put_chunk(read, last, chunk_of(s, last).push(username))
    }
}

/// Adds a username to the flat index and to the chunked index.
pub fn add_to_index(env: &mut Env, github_username: &[u8])
    requires
        running(*old(env)),
        github_username@.len() <= u32::MAX,
        index_ok(state(*old(env))),
        index_of(state(*old(env))).len() < u32::MAX,
        chunk_count_ok(state(*old(env))),
        chunk_count_of(state(*old(env))) > 0 ==> chunk_ok(
            state(*old(env)),
            (chunk_count_of(state(*old(env))) - 1) as u32,
        ),
        chunks_full(state(*old(env))) ==> chunk_count_of(state(*old(env))) < u32::MAX,
    ensures
        state(*final(env)) == added(state(*old(env)), github_username@),
        ({
            let s = state(*old(env));
            let t = state(*final(env));
            let n = chunk_count_of(s);
            let last = (n - 1) as u32;
            &&& index_of(t) == index_of(s).push(github_username@)
            &&& n == 0 || chunk_of(s, last).len() >= 50 ==> chunk_count_of(t) == n + 1 && chunk_of(
                t,
                n,
            ) == seq![github_username@]
            &&& n > 0 && chunk_of(s, last).len() < 50 ==> chunk_count_of(t) == n && chunk_of(
                t,
                last,
            ) == chunk_of(s, last).push(github_username@)
        }),
{
    proof {
        lemma_single_distinct();
        law_add_exactly(state(*env), github_username@);
    }
    // The flat index.
    let mut index = get_index(env);
    index.push_back(github_username);
    set_index(env, &index);

    // The chunked index.
    let chunk_cnt = get_chunk_count(env);
    if chunk_cnt == 0 {
        let mut first_chunk = UsernameList::new(env);
        first_chunk.push_back(github_username);
        assert(first_chunk@ =~= seq![github_username@]);
        set_chunk(env, 0, &first_chunk);
        set_chunk_count(env, 1);
    } else {
        let last_idx = chunk_cnt - 1;
        let mut last_chunk = get_chunk(env, last_idx);
        if last_chunk.len() >= CHUNK_SIZE {
            let mut new_chunk = UsernameList::new(env);
            new_chunk.push_back(github_username);
            assert(new_chunk@ =~= seq![github_username@]);
            set_chunk(env, chunk_cnt, &new_chunk);
            set_chunk_count(env, chunk_cnt + 1);
        } else {
            last_chunk.push_back(github_username);
            set_chunk(env, last_idx, &last_chunk);
        }
    }
}

/// Whether one of the first `n` chunks holds `username`.
pub open spec fn held(s: LedgerState, username: Seq<u8>, n: u32) -> bool {
    exists|c: u32| c < n && (#[trigger] chunk_of(s, c)).contains(username)
}

/// The state after `username` is taken out of the first `n` chunks. The chunks up to
/// the first that holds the username are read, and so renewed unless they are empty.
/// Every chunk that holds it is written. Any other chunk is left alone.
pub open spec fn strip_chunks(s: LedgerState, username: Seq<u8>, n: u32) -> LedgerState
    decreases n,
{
    if n == 0 {
        s
    } else {
        let c = (n - 1) as u32;
        let before = strip_chunks(s, username, c);
        let read = if held(s, username, c) {
            before
        } else {
            visit_chunk(before, c)
        };
        if chunk_of(s, c).contains(username) {
            put_chunk(read, c, without(chunk_of(s, c), username))
        } else {
            read
        }
    }
}

/// Nothing is indexed, neither in the flat index nor in any chunk.
pub open spec fn nothing_indexed(s: LedgerState) -> bool {
    &&& index_of(s).len() == 0
    &&& forall|c: u32| c < chunk_count_of(s) ==> (#[trigger] chunk_of(s, c)).len() == 0
}

/// The state after every occurrence of `username` is taken out of the flat index
/// and out of every chunk. Where that was the last username, no chunk is left
/// either.
pub open spec fn removed(s: LedgerState, username: Seq<u8>) -> LedgerState {
    let n = chunk_count_of(s);
    let stripped = strip_chunks(put_index(s, without(index_of(s), username)), username, n);
    if n > 0 && nothing_indexed(stripped) && !nothing_indexed(s) {
        put_chunk_count(remove_chunks(stripped, n), 0)
    } else {
        stripped
    }
}

/// Removes one username from a list, and says whether it was there.
fn strip(env: &Env, list: &UsernameList, username: &[u8]) -> (r: (UsernameList, bool))
    requires
        list.wf(),
    ensures
        r.0.wf(),
        r.0.host() == env_host(*env),
        r.0@ == without(list@, username@),
        r.1 == list@.contains(username@),
{
    let mut next = UsernameList::new(env);
    let mut found = false;
    let n = list.len();
    let mut i: u32 = 0;
    assert(without(list@.take(0), username@) =~= Seq::<Seq<u8>>::empty()) by {
        reveal(Seq::filter);
    }
    while i < n
        invariant
            i <= n,
            n == list@.len(),
            list.wf(),
            next.wf(),
            next.host() == env_host(*env),
            next@.len() <= i,
            next@ == without(list@.take(i as int), username@),
            found == list@.take(i as int).contains(username@),
        decreases n - i,
    {
        let ghost before = list@.take(i as int);
        let ghost after = list@.take(i + 1);
        if let Some(entry) = list.get(i) {
            proof {
                reveal(Seq::filter);
                assert(after.drop_last() =~= before);
                assert(after.last() == entry@);
                assert(after =~= before.push(entry@));
                assert(after[i as int] == entry@);
                assert forall|j: int| 0 <= j < i implies before[j] == #[trigger] after[j] by {}
            }
            if same_username(&entry, username) {
                found = true;
            } else {
                next.push_back(&entry);
            }
        }
        i += 1;
    }
    assert(list@.take(n as int) =~= list@);
    (next, found)
}

/// Taking a username out of chunks takes it out of each of them, and changes
/// nothing else but lifetimes.
pub(crate) proof fn lemma_strip_chunks(s: LedgerState, username: Seq<u8>, n: u32)
    ensures
        strip_chunks(s, username, n) == (LedgerState {
            persistent: strip_chunks(s, username, n).persistent,
            live_until: strip_chunks(s, username, n).live_until,
            ..s
        }),
        forall|c: u32|
            c < n ==> #[trigger] chunk_of(strip_chunks(s, username, n), c) == without(
                chunk_of(s, c),
                username,
            ),
        forall|c: u32|
            c >= n ==> #[trigger] chunk_of(strip_chunks(s, username, n), c) == chunk_of(s, c),
        forall|c: u32| chunk_ok(s, c) ==> #[trigger] chunk_ok(strip_chunks(s, username, n), c),
        forall|key: Value|
            (forall|c: u32| key != #[trigger] chunk_key(c)) ==> {
                &&& #[trigger] strip_chunks(s, username, n).persistent.contains_key(key)
                    == s.persistent.contains_key(key)
                &&& strip_chunks(s, username, n).persistent[key] == s.persistent[key]
            },
    decreases n,
{
    if n > 0 {
        let last = (n - 1) as u32;
        let before = strip_chunks(s, username, last);
        let read = if held(s, username, last) {
            before
        } else {
            visit_chunk(before, last)
        };
        let after = strip_chunks(s, username, n);
        let chunk = without(chunk_of(s, last), username);
        lemma_strip_chunks(s, username, last);
        law_without(chunk_of(s, last), username);
        law_chunk_read_back(read, last, chunk);
        assert forall|c: u32| c != last implies #[trigger] chunk_of(after, c) == chunk_of(
            before,
            c,
        ) by {
            assert(chunk_of(read, c) == chunk_of(before, c));
        }
        assert forall|c: u32| chunk_ok(s, c) implies #[trigger] chunk_ok(after, c) by {
            assert(chunk_ok(before, c));
            assert(chunk_ok(read, c) == chunk_ok(before, c));
        }
        assert forall|key: Value| (forall|c: u32| key != #[trigger] chunk_key(c)) implies {
            &&& #[trigger] after.persistent.contains_key(key) == s.persistent.contains_key(key)
            &&& after.persistent[key] == s.persistent[key]
        } by {
            assert(key != chunk_key(last));
            assert(before.persistent.contains_key(key) == s.persistent.contains_key(key));
        }
    }
}

/// States with the same chunks hold the same usernames in them.
pub(crate) proof fn lemma_held_same(s: LedgerState, t: LedgerState, username: Seq<u8>, n: u32)
    requires
        forall|c: u32| #[trigger] chunk_of(s, c) == chunk_of(t, c),
    ensures
        held(s, username, n) == held(t, username, n),
{
    if held(s, username, n) {
        let c = choose|c: u32| c < n && (#[trigger] chunk_of(s, c)).contains(username);
        assert(chunk_of(t, c).contains(username));
    }
    if held(t, username, n) {
        let c = choose|c: u32| c < n && (#[trigger] chunk_of(t, c)).contains(username);
        assert(chunk_of(s, c) == chunk_of(t, c));
    }
}

/// Where a username is indexed, something is. Where nothing but one username is
/// indexed, it is indexed or nothing is.
pub(crate) proof fn lemma_found(s: LedgerState, username: Seq<u8>)
    ensures
        index_of(s).contains(username) || held(s, username, chunk_count_of(s))
            ==> !nothing_indexed(s),
        without(index_of(s), username).len() == 0 && (forall|c: u32|
            c < chunk_count_of(s) ==> without(#[trigger] chunk_of(s, c), username).len() == 0)
            && !nothing_indexed(s) ==> index_of(s).contains(username) || held(
            s,
            username,
            chunk_count_of(s),
        ),
{
    law_without(index_of(s), username);
    assert forall|c: u32| c < chunk_count_of(s) && !held(s, username, chunk_count_of(s)) implies
        without(#[trigger] chunk_of(s, c), username) == chunk_of(s, c) by {
        law_without(chunk_of(s, c), username);
        assert(!chunk_of(s, c).contains(username));
    }
}

/// Removes the first `n` chunks.
fn drop_chunks(env: &mut Env, n: u32)
    requires
        running(*old(env)),
    ensures
        state(*final(env)) == remove_chunks(state(*old(env)), n),
        running(*final(env)),
{
    let ghost s = state(*env);
    let mut c: u32 = 0;
    while c < n
        invariant
            c <= n,
            running(*env),
            state(*env) == remove_chunks(s, c),
        decreases n - c,
    {
        let key = numbered_key(env, c);
        persistent_remove(env, key);
        c += 1;
    }
}

/// Removes a username from the flat index and from the chunked index.
///
/// Every occurrence goes. A call that removes the last username leaves an empty
/// registry: no chunk is left, and the next username is added as to one that was
/// never used. A call that removes nothing leaves every chunk, and their number.
pub fn remove_from_index(env: &mut Env, github_username: &[u8])
    requires
        running(*old(env)),
        index_ok(state(*old(env))),
        chunk_count_ok(state(*old(env))),
        forall|c: u32|
            c < chunk_count_of(state(*old(env))) ==> #[trigger] chunk_ok(state(*old(env)), c),
    ensures
        state(*final(env)) == removed(state(*old(env)), github_username@),
        index_of(state(*final(env))) == without(index_of(state(*old(env))), github_username@),
        forall|c: u32|
            c < chunk_count_of(state(*old(env))) ==> #[trigger] chunk_of(state(*final(env)), c)
                == without(chunk_of(state(*old(env)), c), github_username@),
        chunk_count_of(state(*final(env))) == (if nothing_indexed(state(*final(env)))
            && !nothing_indexed(state(*old(env))) {
            0
        } else {
            chunk_count_of(state(*old(env)))
        }),
        running(*final(env)),
{
    let ghost s = state(*env);
    let ghost u = github_username@;
    proof {
        lemma_single_distinct();
        law_index_read_back(s, without(index_of(s), u));
        law_removal(s, u);
    }
    // The flat index.
    let index = get_index(env);
    let (next, listed) = strip(env, &index, github_username);
    set_index(env, &next);

    // The chunked index.
    let ghost indexed = state(*env);
    assert forall|c: u32| c < chunk_count_of(s) implies #[trigger] chunk_ok(indexed, c) by {
        assert(chunk_ok(s, c));
    }
    let chunk_cnt = get_chunk_count(env);
    let mut empty = next.is_empty();
    let mut held_before = false;
    let mut c: u32 = 0;
    while c < chunk_cnt
        invariant
            c <= chunk_cnt,
            chunk_cnt == chunk_count_of(indexed),
            u == github_username@,
            running(*env),
            state(*env) == strip_chunks(indexed, u, c),
            forall|c: u32| c < chunk_cnt ==> #[trigger] chunk_ok(indexed, c),
            held_before == held(indexed, u, c),
            empty == (index_of(indexed).len() == 0 && forall|d: u32|
                d < c ==> without(#[trigger] chunk_of(indexed, d), u).len() == 0),
        decreases chunk_cnt - c,
    {
        proof {
            lemma_strip_chunks(indexed, u, c);
            assert(chunk_ok(indexed, c));
            assert(chunk_of(state(*env), c) == chunk_of(indexed, c));
        }
        let chunk = if held_before {
            peek_chunk(env, c)
        } else {
            get_chunk(env, c)
        };
        let (new_chunk, found) = strip(env, &chunk, github_username);
        if found {
            set_chunk(env, c, &new_chunk);
            held_before = true;
        }
        empty = empty && new_chunk.is_empty();
        c += 1;
    }
    proof {
        let stripped = state(*env);
        lemma_strip_chunks(indexed, u, chunk_cnt);
        if empty {
            assert forall|d: u32| d < chunk_cnt implies (#[trigger] chunk_of(stripped, d)).len()
                == 0 by {
                assert(without(chunk_of(indexed, d), u).len() == 0);
            }
        }
        if nothing_indexed(stripped) {
            assert forall|d: u32| d < chunk_cnt implies without(
                #[trigger] chunk_of(indexed, d),
                u,
            ).len() == 0 by {
                assert(chunk_of(stripped, d).len() == 0);
            }
        }
        assert(empty == nothing_indexed(stripped));
        lemma_held_same(indexed, s, u, chunk_cnt);
        lemma_found(s, u);
        if empty {
            assert forall|d: u32| d < chunk_cnt implies without(#[trigger] chunk_of(s, d), u).len()
                == 0 by {
                assert(chunk_of(indexed, d) == chunk_of(s, d));
            }
        }
    }
    if chunk_cnt > 0 && empty && (listed || held_before) {
        drop_chunks(env, chunk_cnt);
        set_chunk_count(env, 0);
    }
}

/// The number of chunks that `len` usernames fill.
pub open spec fn chunks_needed(len: nat) -> nat {
    (len + CHUNK_SIZE - 1) as nat / CHUNK_SIZE as nat
}

/// The usernames of chunk `i` when the flat index is cut into chunks.
pub open spec fn piece(index: Seq<Seq<u8>>, i: u32) -> Seq<Seq<u8>> {
    let start = i * CHUNK_SIZE;
    let end = if start + CHUNK_SIZE <= index.len() {
        start + CHUNK_SIZE
    } else {
        index.len() as int
    };
    index.subrange(start, end)
}

/// The state after the first `n` chunks are removed.
pub open spec fn remove_chunks(s: LedgerState, n: u32) -> LedgerState
    decreases n,
{
    if n == 0 {
        s
    } else {
        remove_chunks(s, (n - 1) as u32).remove(chunk_key((n - 1) as u32))
    }
}

/// The state after the first `n` pieces of an index are written.
pub open spec fn put_pieces(s: LedgerState, index: Seq<Seq<u8>>, n: u32) -> LedgerState
    decreases n,
{
    if n == 0 {
        s
    } else {
        put_chunk(
            put_pieces(s, index, (n - 1) as u32),
            (n - 1) as u32,
            piece(index, (n - 1) as u32),
        )
    }
}

/// The state after the chunked index is rebuilt from the flat index.
pub open spec fn compacted(s: LedgerState) -> LedgerState {
    let n = chunks_needed(index_of(s).len()) as u32;
    put_chunk_count(
        put_pieces(remove_chunks(s, chunk_count_of(s)), index_of(s), n),
        n,
    )
}

/// Removing chunks leaves the instance entries and the header alone.
pub(crate) proof fn lemma_remove_chunks(s: LedgerState, n: u32)
    ensures
        remove_chunks(s, n) == (LedgerState {
            persistent: remove_chunks(s, n).persistent,
            live_until: remove_chunks(s, n).live_until,
            ..s
        }),
    decreases n,
{
    if n > 0 {
        lemma_remove_chunks(s, (n - 1) as u32);
    }
}

/// Writing pieces leaves the instance entries and the header alone.
pub(crate) proof fn lemma_put_pieces(s: LedgerState, index: Seq<Seq<u8>>, n: u32)
    ensures
        put_pieces(s, index, n) == (LedgerState {
            persistent: put_pieces(s, index, n).persistent,
            live_until: put_pieces(s, index, n).live_until,
            ..s
        }),
    decreases n,
{
    if n > 0 {
        lemma_put_pieces(s, index, (n - 1) as u32);
    }
}

/// Rebuilds the chunked index densely from the flat index.
///
/// After removals the chunked index can hold empty or sparse chunks. This cuts
/// the flat index into full chunks of `CHUNK_SIZE` usernames and one partial
/// tail, and leaves the flat index as it is.
///
/// Returns the number of chunks written.
pub fn compact_chunked_index(env: &mut Env) -> (r: u32)
    requires
        running(*old(env)),
        index_ok(state(*old(env))),
        chunk_count_ok(state(*old(env))),
    ensures
        r == chunks_needed(index_of(state(*old(env))).len()),
        state(*final(env)) == compacted(state(*old(env))),
        running(*final(env)),
{
    let ghost s = state(*env);
    let flat = get_index(env);
    let total = flat.len();

    // Remove all chunks.
    let old_cnt = get_chunk_count(env);
    drop_chunks(env, old_cnt);
    let ghost cleared = state(*env);

    if total == 0 {
        set_chunk_count(env, 0);
        return 0;
    }
    let mut chunk_idx: u32 = 0;
    let mut pos: u32 = 0;
    while pos < total
        invariant
            pos <= total,
            total == flat@.len(),
            flat.wf(),
            flat@ == index_of(s),
            running(*env),
            pos == chunk_idx * CHUNK_SIZE || pos == total,
            chunk_idx == chunks_needed(pos as nat),
            state(*env) == put_pieces(cleared, flat@, chunk_idx),
        decreases total - pos,
    {
        let end = if pos.saturating_add(CHUNK_SIZE) < total {
            pos.saturating_add(CHUNK_SIZE)
        } else {
            total
        };
        let mut chunk = UsernameList::new(env);
        let mut i: u32 = pos;
        assert(flat@.subrange(pos as int, pos as int) =~= Seq::<Seq<u8>>::empty());
        while i < end
            invariant
                pos <= i <= end <= total,
                total == flat@.len(),
                flat.wf(),
                chunk.wf(),
                chunk.host() == env_host(*env),
                chunk@ == flat@.subrange(pos as int, i as int),
            decreases end - i,
        {
            if let Some(username) = flat.get(i) {
                chunk.push_back(&username);
                assert(chunk@ =~= flat@.subrange(pos as int, i + 1));
            }
            i += 1;
        }
        assert(chunk@ == piece(flat@, chunk_idx));
        set_chunk(env, chunk_idx, &chunk);
        proof {
            lemma_put_pieces(cleared, flat@, chunk_idx);
        }
        chunk_idx = chunk_idx.saturating_add(1);
        pos = end;
    }
    set_chunk_count(env, chunk_idx);
    chunk_idx
}

} // verus!
