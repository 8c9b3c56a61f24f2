//! Laws of the reserved usernames.

use crate::keys::{single, MAX_RESERVED, RESERVED_KEY};
use crate::ledger::LedgerState;
use crate::storage::reserved::{lists, put_reserved, reserved_of, reserved_ok, unlisted};
use crate::usernames::{folded, law_usernames_round_trip};
use vstd::prelude::*;

verus! {

/// No two entries of a list differ only in the case of letters.
pub open spec fn distinct(list: Seq<Seq<u8>>) -> bool {
    forall|i: int, j: int|
        0 <= i < j < list.len() ==> folded(#[trigger] list[i]) != folded(#[trigger] list[j])
}

/// The reserved list can be read, is no longer than it may be, and holds no
/// username twice.
pub open spec fn reserved_sound(s: LedgerState) -> bool {
    &&& reserved_ok(s)
    &&& reserved_of(s).len() <= MAX_RESERVED
    &&& distinct(reserved_of(s))
}

/// The reserved list is read back as it was written.
pub proof fn law_reserved_read_back(s: LedgerState, list: Seq<Seq<u8>>)
    ensures
        reserved_ok(put_reserved(s, list)),
        reserved_of(put_reserved(s, list)) == list,
{
    law_usernames_round_trip(list);
}

/// The case of letters makes no difference to what is reserved.
pub proof fn law_reserved_any_case(list: Seq<Seq<u8>>, u: Seq<u8>, w: Seq<u8>)
    requires
        folded(u) == folded(w),
    ensures
        lists(list, u) == lists(list, w),
        unlisted(list, u) == unlisted(list, w),
{
    lemma_unlisted_same(list, u, w);
}

/// Names of the same case-insensitive form are taken out alike.
proof fn lemma_unlisted_same(list: Seq<Seq<u8>>, u: Seq<u8>, w: Seq<u8>)
    requires
        folded(u) == folded(w),
    ensures
        unlisted(list, u) == unlisted(list, w),
    decreases list.len(),
{
    reveal(Seq::filter);
    if list.len() > 0 {
        lemma_unlisted_same(list.drop_last(), u, w);
    }
}

/// A username that is added is reserved, in whatever case it is asked for, and no
/// other becomes so.
pub proof fn law_reserve(list: Seq<Seq<u8>>, u: Seq<u8>, w: Seq<u8>)
    ensures
        lists(list.push(u), w) <==> lists(list, w) || folded(w) == folded(u),
{
    let longer = list.push(u);
    assert(longer[list.len() as int] == u);
    if lists(list, w) {
        let i = choose|i: int| 0 <= i < list.len() && folded(#[trigger] list[i]) == folded(w);
        assert(longer[i] == list[i]);
    }
    if lists(longer, w) && folded(w) != folded(u) {
        let i = choose|i: int| 0 <= i < longer.len() && folded(#[trigger] longer[i]) == folded(w);
        assert(longer[i] == list[i]);
    }
}

/// A username that is removed is no longer reserved, in whatever case, and every
/// other stays so.
pub proof fn law_free(list: Seq<Seq<u8>>, u: Seq<u8>, w: Seq<u8>)
    ensures
        lists(unlisted(list, u), w) <==> lists(list, w) && folded(w) != folded(u),
        unlisted(list, u).len() <= list.len(),
        distinct(list) ==> distinct(unlisted(list, u)),
        !lists(list, u) ==> unlisted(list, u) == list,
    decreases list.len(),
{
    reveal(Seq::filter);
    if list.len() > 0 {
        let front = list.drop_last();
        let last = list.last();
        law_free(front, u, w);
        assert(list =~= front.push(last));
        law_reserve(front, last, w);
        law_reserve(front, last, u);
        let kept = unlisted(front, u);
        if folded(last) != folded(u) {
            assert(unlisted(list, u) == kept.push(last));
            law_reserve(kept, last, w);
            if distinct(list) {
                assert forall|i: int, j: int|
                    0 <= i < j < kept.push(last).len() implies folded(
                    #[trigger] kept.push(last)[i],
                ) != folded(#[trigger] kept.push(last)[j]) by {
                    if j == kept.len() && folded(kept[i]) == folded(last) {
                        law_free(front, u, last);
                        assert(lists(kept, last));
                        let k = choose|k: int|
                            0 <= k < front.len() && folded(#[trigger] front[k]) == folded(last);
                        assert(list[k] == front[k] && list[list.len() - 1] == last);
                    }
                }
            }
        } else {
            assert(unlisted(list, u) == kept);
            assert(lists(list, u));
        }
        if distinct(list) {
            assert forall|i: int, j: int| 0 <= i < j < front.len() implies folded(
                #[trigger] front[i],
            ) != folded(#[trigger] front[j]) by {
                assert(list[i] == front[i] && list[j] == front[j]);
            }
        }
    }
}

/// Removing what was just added leaves the list as it was.
pub proof fn law_free_undoes_reserve(list: Seq<Seq<u8>>, u: Seq<u8>, w: Seq<u8>)
    requires
        !lists(list, u),
        folded(w) == folded(u),
    ensures
        unlisted(list.push(u), w) == list,
{
    reveal(Seq::filter);
    assert(list.push(u).drop_last() =~= list);
    law_free(list, w, w);
    law_reserved_any_case(list, u, w);
}

/// A reservation that is not refused, and a removal, keep the list sound.
pub proof fn law_reserved_stays_sound(s: LedgerState, u: Seq<u8>)
    requires
        reserved_sound(s),
    ensures
        !lists(reserved_of(s), u) && reserved_of(s).len() < MAX_RESERVED ==> reserved_sound(
            put_reserved(s, reserved_of(s).push(u)),
        ),
        reserved_sound(put_reserved(s, unlisted(reserved_of(s), u))),
{
    let list = reserved_of(s);
    law_reserved_read_back(s, list.push(u));
    law_reserved_read_back(s, unlisted(list, u));
    law_free(list, u, u);
    if !lists(list, u) {
        assert forall|i: int, j: int| 0 <= i < j < list.push(u).len() implies folded(
            #[trigger] list.push(u)[i],
        ) != folded(#[trigger] list.push(u)[j]) by {
            assert(folded(list[i]) != folded(u));
        }
    }
}

/// A registry without a reserved list is sound, and reserves nothing.
pub proof fn law_nothing_reserved(s: LedgerState, u: Seq<u8>)
    requires
        !s.instance.contains_key(single(RESERVED_KEY)),
    ensures
        reserved_sound(s),
        !lists(reserved_of(s), u),
{
}

} // verus!
