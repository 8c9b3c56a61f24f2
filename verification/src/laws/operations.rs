//! What each operation does, entry by entry: what it changes and to what, and that
//! it changes nothing else.

use crate::audit::{entry_value, stats_value, AuditLogEntry, AuditStats};
use crate::codec::record_value;
use crate::keys::{
    chunk_key, last_action_key, law_member_keys, lemma_single_distinct, record_key, role_key,
    CHUNK_KEY,
};
use crate::laws::index::{
    law_add_appends, law_compaction, law_index_read_back, law_removal, lemma_absent_stays,
    lemma_added_chunks, lemma_compacted, lemma_removed_chunks, lemma_removed_lifetimes,
};
use crate::laws::lifetimes::law_renewal_once;
use crate::ledger::LedgerState;
use crate::storage::activity::{cooling_down, in_cooldown};
use crate::storage::audit_log::{audit_items_of, audit_stats_of, audited, logged};
use crate::storage::entries::{renew, u32_at};
use crate::storage::export::{
    export_page, exported, lemma_exported_push, page_usernames, visit_records,
};
use crate::storage::index::{
    added, chunk_count_of, chunk_of, chunks_needed, compacted, held, index_of, index_ok,
    lemma_held_same, lemma_remove_chunks, lemma_strip_chunks, nothing_indexed, page_of, piece,
    put_chunk, put_index, remove_chunks, removed, strip_chunks, visit_chunk, without,
};
use crate::storage::records::{admin_of, admin_ok, put_record, record_at, visit_record};
use crate::storage::reserved::{lists, unlisted};
use crate::storage::roles::{may_act_as, role_ok};
use crate::types::{ContributorRecord, Role};
use crate::usernames::{folded, lower, usernames_value};
use crate::value::{Address, Value};
use vstd::prelude::*;

verus! {

/// A renewal sets the lifetime of its entry, and nothing else: to 90 days from now,
/// or as long as the network allows, where 30 days or less are left and that is
/// longer.
pub proof fn law_renewal_exactly(s: LedgerState, key: Value)
    requires
        s.runs(),
    ensures
        ({
            let before = s.live_until[key] as int;
            let asked = s.sequence + 90 * 17_280;
            let allowed = if s.max_ttl == 0 {
                s.sequence as int
            } else {
                s.sequence + s.max_ttl - 1
            };
            let target = if asked <= allowed {
                asked
            } else {
                allowed
            };
            let after = if before - s.sequence <= 30 * 17_280 && before < target {
                target
            } else {
                before
            };
            renew(s, key) == (LedgerState {
                live_until: s.live_until.insert(key, after as u32),
                ..s
            })
        }),
{
}

/// A record or a chunk that is written is renewed. One that is read is renewed and
/// otherwise left alone, unless it is missing or an empty chunk.
pub proof fn law_access(
    s: LedgerState,
    u: Seq<u8>,
    record: ContributorRecord,
    c: u32,
    chunk: Seq<Seq<u8>>,
)
    ensures
        put_record(s, u, record) == renew(
            s.put(record_key(u), record_value(record)),
            record_key(u),
        ),
        visit_record(s, u) == (if s.persistent.contains_key(record_key(u)) {
            renew(s, record_key(u))
        } else {
            s
        }),
        put_chunk(s, c, chunk) == renew(s.put(chunk_key(c), usernames_value(chunk)), chunk_key(c)),
        visit_chunk(s, c) == (if chunk_of(s, c).len() > 0 {
            renew(s, chunk_key(c))
        } else {
            s
        }),
{
}

/// An addition opens a new chunk exactly if there is none or the last one holds 50
/// usernames or more; otherwise the number of chunks stays, and the username goes to
/// the end of the last. This holds of every state. The username goes to the end of
/// the flat index, and no other entry changes.
pub proof fn law_add_exactly(s: LedgerState, u: Seq<u8>)
    requires
        chunk_count_of(s) == 0 || chunk_of(s, (chunk_count_of(s) - 1) as u32).len() >= 50
            ==> chunk_count_of(s) < u32::MAX,
    ensures
        ({
            let t = added(s, u);
            let n = chunk_count_of(s);
            let opens = n == 0 || chunk_of(s, (n - 1) as u32).len() >= 50;
            let w = if opens {
                n
            } else {
                (n - 1) as u32
            };
            &&& index_of(t) == index_of(s).push(u)
            &&& opens ==> chunk_count_of(t) == n + 1 && chunk_of(t, w) == seq![u]
            &&& !opens ==> chunk_count_of(t) == n && chunk_of(t, w) == chunk_of(s, w).push(u)
            &&& forall|c: u32| c != w ==> #[trigger] chunk_of(t, c) == chunk_of(s, c)
            &&& t.persistent == s.persistent.insert(chunk_key(w), usernames_value(chunk_of(t, w)))
            &&& forall|key: Value|
                key != Value::Symbol("idx"@) && (key != Value::Symbol("chkcnt"@) || !opens) ==> {
                    &&& #[trigger] t.instance.contains_key(key) == s.instance.contains_key(key)
                    &&& t.instance[key] == s.instance[key]
                }
            &&& t == (LedgerState {
                instance: t.instance,
                persistent: t.persistent,
                live_until: t.live_until,
                ..s
            })
        }),
{
    let t = added(s, u);
    let n = chunk_count_of(s);
    let last = (n - 1) as u32;
    lemma_added_chunks(s, u);
    law_add_appends(s, u);
    lemma_single_distinct();
    let opens = n == 0 || chunk_of(s, last).len() >= 50;
    let w = if opens {
        n
    } else {
        last
    };
    assert(t.persistent =~= s.persistent.insert(chunk_key(w), usernames_value(chunk_of(t, w))));
}

/// An addition renews the chunk that it writes, and the full one that it read before
/// it opened a new one. No other lifetime changes.
pub proof fn law_add_lifetimes(s: LedgerState, u: Seq<u8>, key: Value)
    requires
        s.runs(),
        chunk_count_of(s) == 0 || chunk_of(s, (chunk_count_of(s) - 1) as u32).len() >= 50
            ==> chunk_count_of(s) < u32::MAX,
    ensures
        ({
            let t = added(s, u);
            let n = chunk_count_of(s);
            let opens = n == 0 || chunk_of(s, (n - 1) as u32).len() >= 50;
            let w = chunk_key(
                if opens {
                    n
                } else {
                    (n - 1) as u32
                },
            );
            let full = chunk_key((n - 1) as u32);
            &&& t.live_until[w] == renew(s.put(w, Value::Void), w).live_until[w]
            &&& opens && n > 0 ==> t.live_until[full] == renew(s, full).live_until[full]
            &&& key != w && !(opens && n > 0 && key == full) ==> t.live_until[key]
                == s.live_until[key]
        }),
{
    let n = chunk_count_of(s);
    let last = (n - 1) as u32;
    let opens = n == 0 || chunk_of(s, last).len() >= 50;
    let indexed = put_index(s, index_of(s).push(u));
    law_index_read_back(s, index_of(s).push(u));
    if n > 0 {
        law_member_keys(CHUNK_KEY, Value::U32(n), CHUNK_KEY, Value::U32(last));
        assert(chunk_of(indexed, last) == chunk_of(s, last));
        law_renewal_once(indexed, chunk_key(last));
    }
}

/// Taking a username out of a list goes item by item, and keeps the order of the
/// others.
pub proof fn law_without_steps(list: Seq<Seq<u8>>, x: Seq<u8>, u: Seq<u8>)
    ensures
        without(Seq::empty(), u) == Seq::<Seq<u8>>::empty(),
        without(list.push(x), u) == (if x == u {
            without(list, u)
        } else {
            without(list, u).push(x)
        }),
{
    reveal(Seq::filter);
    assert(list.push(x).drop_last() =~= list);
}

/// A removal takes the username out of the flat index and of every counted chunk. A
/// chunk that does not hold it stays as it is. Where it was the last username, the
/// chunks go and are no longer counted. No other entry changes.
pub proof fn law_remove_exactly(s: LedgerState, u: Seq<u8>)
    ensures
        ({
            let t = removed(s, u);
            let n = chunk_count_of(s);
            let some_before = index_of(s).len() > 0 || exists|c: u32|
                c < n && (#[trigger] chunk_of(s, c)).len() > 0;
            let none_after = without(index_of(s), u).len() == 0 && forall|c: u32|
                c < n ==> without(#[trigger] chunk_of(s, c), u).len() == 0;
            let resets = n > 0 && some_before && none_after;
            &&& index_of(t) == without(index_of(s), u)
            &&& chunk_count_of(t) == (if resets {
                0
            } else {
                n
            })
            &&& forall|c: u32| c < n ==> #[trigger] chunk_of(t, c) == without(chunk_of(s, c), u)
            &&& resets ==> forall|c: u32|
                c < n ==> !t.persistent.contains_key(#[trigger] chunk_key(c))
            &&& forall|c: u32|
                c >= n || (!resets && !chunk_of(s, c).contains(u)) ==> {
                    &&& t.persistent.contains_key(#[trigger] chunk_key(c))
                        == s.persistent.contains_key(chunk_key(c))
                    &&& t.persistent[chunk_key(c)] == s.persistent[chunk_key(c)]
                }
            &&& forall|c: u32|
                c < n && !resets && chunk_of(s, c).contains(u) ==> {
                    &&& t.persistent.contains_key(#[trigger] chunk_key(c))
                    &&& t.persistent[chunk_key(c)] == usernames_value(without(chunk_of(s, c), u))
                }
            &&& forall|key: Value|
                (forall|c: u32| key != #[trigger] chunk_key(c)) ==> {
                    &&& #[trigger] t.persistent.contains_key(key) == s.persistent.contains_key(key)
                    &&& t.persistent[key] == s.persistent[key]
                }
            &&& forall|key: Value|
                key != Value::Symbol("idx"@) && (key != Value::Symbol("chkcnt"@) || !resets) ==> {
                    &&& #[trigger] t.instance.contains_key(key) == s.instance.contains_key(key)
                    &&& t.instance[key] == s.instance[key]
                }
            &&& t == (LedgerState {
                instance: t.instance,
                persistent: t.persistent,
                live_until: t.live_until,
                ..s
            })
        }),
{
    let t = removed(s, u);
    let n = chunk_count_of(s);
    let indexed = put_index(s, without(index_of(s), u));
    let stripped = strip_chunks(indexed, u, n);
    let some_before = index_of(s).len() > 0 || exists|c: u32|
        c < n && (#[trigger] chunk_of(s, c)).len() > 0;
    let none_after = without(index_of(s), u).len() == 0 && forall|c: u32|
        c < n ==> without(#[trigger] chunk_of(s, c), u).len() == 0;
    law_index_read_back(s, without(index_of(s), u));
    lemma_single_distinct();
    law_removal(s, u);
    lemma_strip_chunks(indexed, u, n);
    lemma_strip_entries(indexed, u, n);
    assert forall|c: u32| #[trigger] chunk_of(indexed, c) == chunk_of(s, c) by {}
    assert(some_before == !nothing_indexed(s));
    assert(none_after == nothing_indexed(stripped)) by {
        if none_after {
            assert forall|c: u32| c < n implies (#[trigger] chunk_of(stripped, c)).len() == 0 by {
                assert(chunk_of(stripped, c) == without(chunk_of(indexed, c), u));
                assert(without(chunk_of(s, c), u).len() == 0);
            }
        }
        if nothing_indexed(stripped) {
            assert forall|c: u32| c < n implies without(#[trigger] chunk_of(s, c), u).len()
                == 0 by {
                assert(chunk_of(indexed, c) == chunk_of(s, c));
                assert(chunk_of(stripped, c).len() == 0);
            }
        }
    }
    lemma_removed_chunks(stripped, n);
    lemma_remove_chunks(stripped, n);
    let cleared = remove_chunks(stripped, n);
    assert forall|c: u32|
        c >= n || (!(n > 0 && some_before && none_after) && !chunk_of(s, c).contains(u)) implies {
        &&& t.persistent.contains_key(#[trigger] chunk_key(c)) == s.persistent.contains_key(
            chunk_key(c),
        )
        &&& t.persistent[chunk_key(c)] == s.persistent[chunk_key(c)]
    } by {
        assert(chunk_of(indexed, c) == chunk_of(s, c));
        assert(stripped.persistent.contains_key(chunk_key(c)) == s.persistent.contains_key(
            chunk_key(c),
        ));
        if c >= n {
            assert forall|d: u32| d < n implies chunk_key(c) != #[trigger] chunk_key(d) by {
                law_member_keys(CHUNK_KEY, Value::U32(c), CHUNK_KEY, Value::U32(d));
            }
            assert(cleared.persistent.contains_key(chunk_key(c))
                == stripped.persistent.contains_key(chunk_key(c)));
        }
    }
    assert forall|c: u32|
        c < n && !(n > 0 && some_before && none_after) && chunk_of(s, c).contains(u) implies {
        &&& t.persistent.contains_key(#[trigger] chunk_key(c))
        &&& t.persistent[chunk_key(c)] == usernames_value(without(chunk_of(s, c), u))
    } by {
        assert(chunk_of(indexed, c) == chunk_of(s, c));
    }
    assert forall|key: Value| (forall|c: u32| key != #[trigger] chunk_key(c)) implies {
        &&& #[trigger] t.persistent.contains_key(key) == s.persistent.contains_key(key)
        &&& t.persistent[key] == s.persistent[key]
    } by {
        assert(stripped.persistent.contains_key(key) == s.persistent.contains_key(key));
        assert(cleared.persistent.contains_key(key) == stripped.persistent.contains_key(key));
    }
}

/// What taking a username out of chunks leaves in the entry of each.
proof fn lemma_strip_entries(s: LedgerState, u: Seq<u8>, n: u32)
    ensures
        ({
            let t = strip_chunks(s, u, n);
            &&& forall|c: u32|
                c >= n || !chunk_of(s, c).contains(u) ==> {
                    &&& t.persistent.contains_key(#[trigger] chunk_key(c))
                        == s.persistent.contains_key(chunk_key(c))
                    &&& t.persistent[chunk_key(c)] == s.persistent[chunk_key(c)]
                }
            &&& forall|c: u32|
                c < n && chunk_of(s, c).contains(u) ==> {
                    &&& t.persistent.contains_key(#[trigger] chunk_key(c))
                    &&& t.persistent[chunk_key(c)] == usernames_value(without(chunk_of(s, c), u))
                }
        }),
    decreases n,
{
    if n > 0 {
        let last = (n - 1) as u32;
        lemma_strip_entries(s, u, last);
        assert forall|c: u32| c != last implies #[trigger] chunk_key(c) != chunk_key(last) by {
            law_member_keys(CHUNK_KEY, Value::U32(c), CHUNK_KEY, Value::U32(last));
        }
    }
}

/// A removal renews the chunks that it reads, up to the first that holds the
/// username, unless they are empty, and those that it writes. No other lifetime
/// changes. (Where it takes out the last username, the chunks themselves go.)
pub proof fn law_remove_lifetimes(s: LedgerState, u: Seq<u8>, key: Value)
    requires
        s.runs(),
    ensures
        ({
            let t = removed(s, u);
            let n = chunk_count_of(s);
            let some_before = index_of(s).len() > 0 || exists|c: u32|
                c < n && (#[trigger] chunk_of(s, c)).len() > 0;
            let none_after = without(index_of(s), u).len() == 0 && forall|c: u32|
                c < n ==> without(#[trigger] chunk_of(s, c), u).len() == 0;
            let counted = exists|c: u32| c < n && key == #[trigger] chunk_key(c);
            let renewed = exists|c: u32|
                {
                    &&& c < n
                    &&& key == #[trigger] chunk_key(c)
                    &&& chunk_of(s, c).len() > 0
                    &&& chunk_of(s, c).contains(u) || forall|d: u32|
                        d < c ==> !(#[trigger] chunk_of(s, d)).contains(u)
                };
            !(some_before && none_after && counted) ==> t.live_until[key] == (if renewed {
                renew(s, key).live_until[key]
            } else {
                s.live_until[key]
            })
        }),
{
    let n = chunk_count_of(s);
    let indexed = put_index(s, without(index_of(s), u));
    let stripped = strip_chunks(indexed, u, n);
    law_index_read_back(s, without(index_of(s), u));
    lemma_strip_chunks(indexed, u, n);
    assert forall|c: u32| #[trigger] chunk_of(indexed, c) == chunk_of(s, c) by {}
    lemma_strip_renews(indexed, u, n, key);
    assert forall|c: u32| #[trigger] chunk_key(c) == key implies ((exists|d: u32|
        d < c && (#[trigger] chunk_of(indexed, d)).contains(u)) <==> (exists|d: u32|
        d < c && (#[trigger] chunk_of(s, d)).contains(u))) by {
        lemma_held_same(indexed, s, u, c);
    }
    if nothing_indexed(stripped) {
        assert forall|c: u32| c < n implies without(#[trigger] chunk_of(s, c), u).len() == 0 by {
            assert(chunk_of(indexed, c) == chunk_of(s, c));
            assert(chunk_of(stripped, c).len() == 0);
        }
    }
    lemma_removed_lifetimes(stripped, n);
    if !(exists|c: u32| c < n && key == #[trigger] chunk_key(c)) {
        assert(remove_chunks(stripped, n).live_until.contains_key(key)
            == stripped.live_until.contains_key(key));
    }
}

/// Which lifetimes taking a username out of chunks renews.
proof fn lemma_strip_renews(s: LedgerState, u: Seq<u8>, n: u32, key: Value)
    requires
        s.runs(),
    ensures
        ({
            let t = strip_chunks(s, u, n);
            let renewed = exists|c: u32|
                {
                    &&& c < n
                    &&& key == #[trigger] chunk_key(c)
                    &&& chunk_of(s, c).len() > 0
                    &&& chunk_of(s, c).contains(u) || !held(s, u, c)
                };
            t.live_until[key] == (if renewed {
                renew(s, key).live_until[key]
            } else {
                s.live_until[key]
            })
        }),
    decreases n,
{
    if n > 0 {
        let last = (n - 1) as u32;
        let before = strip_chunks(s, u, last);
        let t = strip_chunks(s, u, n);
        lemma_strip_renews(s, u, last, key);
        lemma_strip_chunks(s, u, last);
        lemma_strip_entries(s, u, last);
        assert(chunk_of(before, last) == chunk_of(s, last));
        if key == chunk_key(last) {
            assert forall|c: u32| c < last implies key != #[trigger] chunk_key(c) by {
                law_member_keys(CHUNK_KEY, Value::U32(c), CHUNK_KEY, Value::U32(last));
            }
            assert(before.live_until[key] == s.live_until[key]);
            law_renewal_once(before, key);
            if chunk_of(s, last).contains(u) {
                assert(chunk_of(s, last).len() > 0);
                assert(before.persistent.contains_key(key));
            }
        } else {
            assert(t.live_until[key] == before.live_until[key]);
        }
    }
}

/// Compaction cuts the flat index into chunks of 50, the last of which holds what is
/// left: chunk `c` has the usernames from position `50 * c` on. No chunk is left
/// beyond those, and nothing else changes.
pub proof fn law_compact_exactly(s: LedgerState, c: u32, i: int)
    requires
        index_ok(s),
        index_of(s).len() <= u32::MAX,
    ensures
        ({
            let t = compacted(s);
            let len = index_of(s).len();
            let n = chunk_count_of(t);
            &&& n == chunks_needed(len)
            &&& len <= n * 50 < len + 50
            &&& index_of(t) == index_of(s)
            &&& c < n ==> chunk_of(t, c).len() == (if 50 * c + 50 <= len {
                50
            } else {
                len - 50 * c
            })
            &&& c < n && 0 <= i < chunk_of(t, c).len() ==> chunk_of(t, c)[i] == index_of(s)[50 * c
                + i]
            &&& n <= c < chunk_count_of(s) ==> !t.persistent.contains_key(chunk_key(c))
            &&& c >= n && c >= chunk_count_of(s) ==> {
                &&& t.persistent.contains_key(chunk_key(c)) == s.persistent.contains_key(
                    chunk_key(c),
                )
                &&& t.persistent[chunk_key(c)] == s.persistent[chunk_key(c)]
                &&& t.live_until[chunk_key(c)] == s.live_until[chunk_key(c)]
            }
            &&& t == (LedgerState {
                instance: s.instance.insert(Value::Symbol("chkcnt"@), Value::U32(n)),
                persistent: t.persistent,
                live_until: t.live_until,
                ..s
            })
        }),
{
    let t = compacted(s);
    law_compaction(s);
    lemma_compacted(s);
    if c < chunk_count_of(t) {
        assert(chunk_of(t, c) == piece(index_of(s), c));
    }
    if c >= chunk_count_of(t) && c >= chunk_count_of(s) {
        assert forall|d: u32| d < c implies chunk_key(c) != #[trigger] chunk_key(d) by {
            law_member_keys(CHUNK_KEY, Value::U32(c), CHUNK_KEY, Value::U32(d));
        }
        assert(t.persistent.contains_key(chunk_key(c)) == s.persistent.contains_key(chunk_key(c)));
        assert(t.live_until.contains_key(chunk_key(c)) == s.live_until.contains_key(chunk_key(c)));
    }
}

/// Compaction changes no entry that is no chunk, nor its lifetime. A chunk that was
/// not stored beyond the counted ones gets the lifetime of a new entry, renewed.
pub proof fn law_compact_lifetimes(s: LedgerState, key: Value, c: u32)
    requires
        index_ok(s),
        index_of(s).len() <= u32::MAX,
        s.runs(),
    ensures
        ({
            let t = compacted(s);
            let empty = s.remove(chunk_key(c)).put(chunk_key(c), Value::Void);
            &&& (forall|d: u32| key != #[trigger] chunk_key(d)) ==> {
                &&& t.persistent.contains_key(key) == s.persistent.contains_key(key)
                &&& t.persistent[key] == s.persistent[key]
                &&& t.live_until[key] == s.live_until[key]
            }
            &&& c < chunk_count_of(t) && (c < chunk_count_of(s) || !s.persistent.contains_key(
                chunk_key(c),
            )) ==> t.live_until[chunk_key(c)] == renew(empty, chunk_key(c)).live_until[chunk_key(c)]
        }),
{
    let t = compacted(s);
    let n = chunk_count_of(s);
    law_compaction(s);
    lemma_compacted(s);
    lemma_removed_chunks(s, n);
    if forall|d: u32| key != #[trigger] chunk_key(d) {
        assert(t.persistent.contains_key(key) == s.persistent.contains_key(key));
        assert(t.live_until.contains_key(key) == s.live_until.contains_key(key));
    }
    if c >= n && !s.persistent.contains_key(chunk_key(c)) {
        lemma_absent_stays(s, n, chunk_key(c));
    }
}

/// A page from an offset within the index holds the usernames at the offset and after
/// it, as many as the limit says (20 for 0, and 100 at most) or as there are. A page
/// from beyond the index is empty.
pub proof fn law_page_exactly(index: Seq<Seq<u8>>, offset: u32, limit: u32)
    ensures
        ({
            let page = page_of(index, offset, limit);
            let most: int = if limit == 0 {
                20
            } else if limit <= 100 {
                limit as int
            } else {
                100
            };
            &&& offset >= index.len() ==> page.len() == 0
            &&& offset < index.len() ==> page.len() == (if most <= index.len() - offset {
                most
            } else {
                index.len() - offset
            })
            &&& forall|i: int| 0 <= i < page.len() ==> #[trigger] page[i] == index[offset + i]
        }),
{
}

/// The records of some usernames are exported one by one, in order: a username with a
/// record adds the pair of both, and one without adds nothing.
pub proof fn law_exported_steps(s: LedgerState, usernames: Seq<Seq<u8>>, u: Seq<u8>)
    ensures
        exported(s, Seq::empty()) == Seq::<(Seq<u8>, ContributorRecord)>::empty(),
        record_at(s, u).is_none() ==> exported(s, usernames.push(u)) == exported(s, usernames),
        record_at(s, u) matches Some(record) ==> exported(s, usernames.push(u)) == exported(
            s,
            usernames,
        ).push((u, record)),
{
    reveal(Seq::filter);
    assert(exported(s, Seq::empty()) =~= Seq::<(Seq<u8>, ContributorRecord)>::empty());
    lemma_exported_push(s, usernames, u);
}

/// A page of records covers the positions of the flat index from the cursor on, as
/// many as the limit says (20 for 0, and 100 at most) or as there are. It gives the
/// position after them as the next cursor exactly if the index goes on there. From
/// the total count on there is nothing.
pub proof fn law_export_exactly(s: LedgerState, cursor: u32, limit: u32)
    requires
        index_of(s).len() <= u32::MAX,
    ensures
        ({
            let page = export_page(s, cursor, limit);
            let names = page_usernames(s, cursor, limit);
            let index = index_of(s);
            let total = u32_at(s.instance, Value::Symbol("count"@));
            let most: int = if limit == 0 {
                20
            } else if limit <= 100 {
                limit as int
            } else {
                100
            };
            let end = if cursor + most <= index.len() {
                cursor + most
            } else {
                index.len() as int
            };
            &&& page.total == total
            &&& page.has_more == page.next_cursor.is_some()
            &&& page.records == exported(s, names)
            &&& cursor >= total ==> names.len() == 0 && page.next_cursor == None::<u32>
            &&& cursor < total ==> names.len() == (if cursor <= end {
                end - cursor
            } else {
                0
            })
            &&& forall|i: int| 0 <= i < names.len() ==> #[trigger] names[i] == index[cursor + i]
            &&& cursor < total ==> page.next_cursor == (if end < index.len() {
                Some(end as u32)
            } else {
                None
            })
        }),
{
}

/// Reading the records of some usernames renews those that are there, and changes
/// nothing else.
pub proof fn law_reading_exactly(s: LedgerState, usernames: Seq<Seq<u8>>, key: Value)
    requires
        s.runs(),
    ensures
        ({
            let t = visit_records(s, usernames);
            &&& t == (LedgerState { live_until: t.live_until, ..s })
            &&& t.live_until[key] == (if s.persistent.contains_key(key) && exists|i: int|
                0 <= i < usernames.len() && key == record_key(#[trigger] usernames[i]) {
                renew(s, key).live_until[key]
            } else {
                s.live_until[key]
            })
        }),
    decreases usernames.len(),
{
    if usernames.len() > 0 {
        let front = usernames.drop_last();
        let last = usernames.last();
        let before = visit_records(s, front);
        law_reading_exactly(s, front, key);
        assert(usernames[usernames.len() - 1] == last);
        if exists|i: int| 0 <= i < front.len() && key == record_key(#[trigger] front[i]) {
            let i = choose|i: int| 0 <= i < front.len() && key == record_key(#[trigger] front[i]);
            assert(usernames[i] == front[i]);
        }
        if exists|i: int| 0 <= i < usernames.len() && key == record_key(#[trigger] usernames[i]) {
            let i = choose|i: int|
                0 <= i < usernames.len() && key == record_key(#[trigger] usernames[i]);
            if i < front.len() {
                assert(usernames[i] == front[i]);
            }
        }
        law_renewal_once(s, key);
    }
}

/// Two usernames have the same form exactly if they are as long as each other and
/// have, at every position, the same byte or the two cases of one ASCII letter.
pub proof fn law_same_but_for_case(a: Seq<u8>, b: Seq<u8>)
    ensures
        folded(a) == folded(b) <==> a.len() == b.len() && forall|i: int|
            0 <= i < a.len() ==> {
                ||| #[trigger] a[i] == b[i]
                ||| 0x41 <= a[i] <= 0x5a && b[i] == a[i] + 0x20
                ||| 0x41 <= b[i] <= 0x5a && a[i] == b[i] + 0x20
            },
{
    let same = a.len() == b.len() && forall|i: int|
        0 <= i < a.len() ==> {
            ||| #[trigger] a[i] == b[i]
            ||| 0x41 <= a[i] <= 0x5a && b[i] == a[i] + 0x20
            ||| 0x41 <= b[i] <= 0x5a && a[i] == b[i] + 0x20
        };
    if folded(a) == folded(b) {
        assert(folded(a).len() == a.len() && folded(b).len() == b.len());
        assert forall|i: int| 0 <= i < a.len() implies {
            ||| #[trigger] a[i] == b[i]
            ||| 0x41 <= a[i] <= 0x5a && b[i] == a[i] + 0x20
            ||| 0x41 <= b[i] <= 0x5a && a[i] == b[i] + 0x20
        } by {
            assert(folded(a)[i] == folded(b)[i]);
        }
    }
    if same {
        assert forall|i: int| 0 <= i < a.len() implies folded(a)[i] == folded(b)[i] by {
            assert(lower(a[i]) == lower(b[i]));
        }
        assert(folded(a) =~= folded(b));
    }
}

/// A username is listed exactly if one of the entries is the same but for the case of
/// ASCII letters.
pub proof fn law_listed(list: Seq<Seq<u8>>, u: Seq<u8>)
    ensures
        lists(list, u) <==> exists|k: int|
            0 <= k < list.len() && (#[trigger] list[k]).len() == u.len() && forall|i: int|
                0 <= i < u.len() ==> {
                    ||| list[k][i] == #[trigger] u[i]
                    ||| 0x41 <= list[k][i] <= 0x5a && u[i] == list[k][i] + 0x20
                    ||| 0x41 <= u[i] <= 0x5a && list[k][i] == u[i] + 0x20
                },
{
    assert forall|k: int| 0 <= k < list.len() implies (folded(#[trigger] list[k]) == folded(u)
        <==> list[k].len() == u.len() && forall|i: int|
        0 <= i < u.len() ==> {
            ||| list[k][i] == #[trigger] u[i]
            ||| 0x41 <= list[k][i] <= 0x5a && u[i] == list[k][i] + 0x20
            ||| 0x41 <= u[i] <= 0x5a && list[k][i] == u[i] + 0x20
        }) by {
        law_same_but_for_case(u, list[k]);
    }
}

/// Taking a username out of the reserved list goes item by item, and keeps the order
/// of the others: those that are the same but for the case of letters go.
pub proof fn law_unlisted_steps(list: Seq<Seq<u8>>, x: Seq<u8>, u: Seq<u8>)
    ensures
        unlisted(Seq::empty(), u) == Seq::<Seq<u8>>::empty(),
        unlisted(list.push(x), u) == (if folded(x) == folded(u) {
            unlisted(list, u)
        } else {
            unlisted(list, u).push(x)
        }),
{
    reveal(Seq::filter);
    assert(list.push(x).drop_last() =~= list);
}

/// A contributor is in cooldown exactly if a cooldown other than 0 is set, a last
/// action at a time other than 0 is recorded, and the time now is before the sum of
/// both, or before the end of time where the sum is beyond it. Without a recorded
/// action nobody is, in any state.
pub proof fn law_cooldown_exactly(s: LedgerState, u: Seq<u8>)
    requires
        s.instance.contains_key(Value::Symbol("cdown"@)) ==> s.instance[Value::Symbol(
            "cdown"@,
        )] is U64,
        s.persistent.contains_key(last_action_key(u)) ==> s.persistent[last_action_key(u)] is U64,
    ensures
        in_cooldown(s, u) <==> {
            &&& s.instance.contains_key(Value::Symbol("cdown"@))
            &&& s.persistent.contains_key(last_action_key(u))
            &&& s.instance[Value::Symbol("cdown"@)]->U64_0 > 0
            &&& s.persistent[last_action_key(u)]->U64_0 > 0
            &&& s.timestamp < s.persistent[last_action_key(u)]->U64_0 + s.instance[Value::Symbol(
                "cdown"@,
            )]->U64_0
            &&& s.timestamp < u64::MAX
        },
        !s.persistent.contains_key(last_action_key(u)) ==> !in_cooldown(s, u),
        !s.instance.contains_key(Value::Symbol("cdown"@)) ==> !in_cooldown(s, u),
{
}

/// The cooldown applies exactly from the last action on until it has elapsed, or
/// until the end of time where that comes first.
pub proof fn law_cooling_down_exactly(now: u64, last: u64, cooldown: u64)
    ensures
        cooling_down(now, last, cooldown) <==> cooldown > 0 && last > 0 && now < last + cooldown
            && now < u64::MAX,
{
}

/// An address may act in a role exactly if it is the address in the admin entry, or
/// its role entry holds the code of that role, or that of the admin role.
pub proof fn law_rights_exactly(s: LedgerState, a: Address, role: Role)
    requires
        admin_ok(s),
        role_ok(s, a),
    ensures
        may_act_as(s, a, role) <==> {
            ||| s.instance.contains_key(Value::Symbol("admin"@)) && s.instance[Value::Symbol(
                "admin"@,
            )] == Value::Address(a)
            ||| s.persistent.contains_key(role_key(a)) && s.persistent[role_key(a)] == Value::U32(1)
            ||| s.persistent.contains_key(role_key(a)) && s.persistent[role_key(a)] == Value::U32(
                role.spec_code(),
            )
        },
        admin_of(s) == Some(a) <==> s.instance.contains_key(Value::Symbol("admin"@))
            && s.instance[Value::Symbol("admin"@)] == Value::Address(a),
{
}

/// A log of 100 entries or more loses its first when another comes, and a shorter one
/// loses none. The new entry is the last.
pub proof fn law_logged_exactly<T>(log: Seq<T>, entry: T)
    ensures
        ({
            let longer = logged(log, entry);
            let dropped: int = if log.len() >= 100 {
                1
            } else {
                0
            };
            &&& longer.len() == log.len() + 1 - dropped
            &&& longer[longer.len() - 1] == entry
            &&& forall|i: int|
                0 <= i < longer.len() - 1 ==> #[trigger] longer[i] == log[i + dropped]
        }),
{
}

/// An event that is logged goes to the end of the stored log and into the statistics,
/// which count it and keep its kind. No other entry changes.
pub proof fn law_audit_exactly(s: LedgerState, entry: AuditLogEntry)
    ensures
        ({
            let before = audit_stats_of(s);
            let after = AuditStats {
                total_events: if before.total_events == u64::MAX {
                    u64::MAX
                } else {
                    (before.total_events + 1) as u64
                },
                last_event_type: entry.event_type,
            };
            audited(s, entry) == (LedgerState {
                instance: s.instance.insert(
                    Value::Symbol("adt_stat"@),
                    stats_value(after),
                ).insert(
                    Value::Symbol("adt_log"@),
                    Value::List(logged(audit_items_of(s), entry_value(entry))),
                ),
                ..s
            })
        }),
{
}

} // verus!
