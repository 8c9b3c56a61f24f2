//! Usernames, as bytes, and host vectors of them.

use crate::host::{
    env_host, list_env, list_get, list_host, list_items, list_len, list_new, list_push_back,
    list_val, string_val, val_host, val_list, val_string, value_of,
};
use crate::laws::operations::law_same_but_for_case;
use crate::value::{is_storable, Value};
use soroban_sdk::{Env, Val};
use vstd::prelude::*;

verus! {

/// The lower-case form of an ASCII letter (0x41 to 0x5a are `A` to `Z`); any other
/// byte is its own.
pub open spec fn lower(b: u8) -> u8 {
    if 0x41 <= b && b <= 0x5a {
        (b + 0x20) as u8
    } else {
        b
    }
}

/// A username with its ASCII letters in lower case.
pub open spec fn folded(username: Seq<u8>) -> Seq<u8> {
    Seq::new(username.len(), |i: int| lower(username[i]))
}

/// Compares two usernames byte by byte.
pub fn same_username(a: &[u8], b: &[u8]) -> (r: bool)
    ensures
        r == (a@ == b@),
{
    if a.len() != b.len() {
        return false;
    }
    let mut i: usize = 0;
    while i < a.len()
        invariant
            i <= a@.len(),
            a@.len() == b@.len(),
            forall|j: int| 0 <= j < i ==> a@[j] == b@[j],
        decreases a@.len() - i,
    {
        if a[i] != b[i] {
            return false;
        }
        i += 1;
    }
    assert(a@ =~= b@);
    true
}

/// Compares two usernames without regard to the case of ASCII letters.
pub fn eq_ignore_ascii_case(a: &[u8], b: &[u8]) -> (r: bool)
    ensures
        r == (folded(a@) == folded(b@)),
        r == (a@.len() == b@.len() && forall|i: int|
            0 <= i < a@.len() ==> {
                ||| #[trigger] a@[i] == b@[i]
                ||| 0x41 <= a@[i] <= 0x5a && b@[i] == a@[i] + 0x20
                ||| 0x41 <= b@[i] <= 0x5a && a@[i] == b@[i] + 0x20
            }),
{
    proof {
        law_same_but_for_case(a@, b@);
    }
    if a.len() != b.len() {
        assert(folded(a@).len() != folded(b@).len());
        return false;
    }
    let mut i: usize = 0;
    while i < a.len()
        invariant
            i <= a@.len(),
            a@.len() == b@.len(),
            forall|j: int| 0 <= j < i ==> lower(a@[j]) == lower(b@[j]),
        decreases a@.len() - i,
    {
        if to_lower(a[i]) != to_lower(b[i]) {
            assert(folded(a@)[i as int] != folded(b@)[i as int]);
            return false;
        }
        i += 1;
    }
    assert(folded(a@) =~= folded(b@));
    true
}

/// The lower-case form of a byte.
fn to_lower(b: u8) -> (r: u8)
    ensures
        r == lower(b),
{
    if 0x41 <= b && b <= 0x5a {
        b + 0x20
    } else {
        b
    }
}

/// The value that holds a list of usernames.
pub open spec fn usernames_value(usernames: Seq<Seq<u8>>) -> Value {
    Value::List(Seq::new(usernames.len(), |i: int| Value::Str(usernames[i])))
}

/// Whether a value holds a list of usernames.
pub open spec fn is_usernames(v: Value) -> bool {
    v matches Value::List(items) && forall|i: int|
        0 <= i < items.len() ==> #[trigger] items[i] is Str
}

/// The usernames that a value holds.
pub open spec fn usernames_of(v: Value) -> Seq<Seq<u8>>
    recommends
        is_usernames(v),
{
    Seq::new(v->List_0.len(), |i: int| v->List_0[i]->Str_0)
}

/// A list of usernames is read back as it was written.
pub proof fn law_usernames_round_trip(usernames: Seq<Seq<u8>>)
    ensures
        is_usernames(usernames_value(usernames)),
        usernames_of(usernames_value(usernames)) == usernames,
{
    assert(usernames_of(usernames_value(usernames)) =~= usernames);
}

/// A host vector of usernames.
pub struct UsernameList {
    items: soroban_sdk::Vec<Val>,
}

impl View for UsernameList {
    type V = Seq<Seq<u8>>;

    closed spec fn view(&self) -> Seq<Seq<u8>> {
        usernames_of(Value::List(list_items(self.items)))
    }
}

impl UsernameList {
    /// Every item of the vector is a string.
    pub closed spec fn wf(&self) -> bool {
        is_usernames(Value::List(list_items(self.items)))
    }

    /// The host that holds the vector.
    pub closed spec fn host(&self) -> int {
        list_host(self.items)
    }

    /// The empty list.
    pub fn new(env: &Env) -> (r: UsernameList)
        ensures
            r.wf(),
            r.host() == env_host(*env),
            r@ == Seq::<Seq<u8>>::empty(),
    {
        let r = UsernameList { items: list_new(env) };
        assert(r@ =~= Seq::<Seq<u8>>::empty());
        r
    }

    /// The number of usernames.
    pub fn len(&self) -> (r: u32)
        ensures
            r == self@.len(),
    {
        list_len(&self.items)
    }

    /// Whether there are no usernames.
    pub fn is_empty(&self) -> (r: bool)
        ensures
            r == (self@.len() == 0),
    {
        list_len(&self.items) == 0
    }

    /// The username at position `i`, if there is one.
    pub fn get(&self, i: u32) -> (r: Option<Vec<u8>>)
        requires
            self.wf(),
        ensures
            match r {
                Some(username) => i < self@.len() && username@ == self@[i as int]
                    && username@.len() <= u32::MAX,
                None => i >= self@.len(),
            },
    {
        match list_get(&self.items, i) {
            Some(v) => Some(val_string(list_env(&self.items), v)),
            None => None,
        }
    }

    /// Appends a username.
    pub fn push_back(&mut self, username: &[u8])
        requires
            old(self).wf(),
            old(self)@.len() < u32::MAX,
            username@.len() <= u32::MAX,
        ensures
            final(self).wf(),
            final(self).host() == old(self).host(),
            final(self)@ == old(self)@.push(username@),
    {
        let v = string_val(list_env(&self.items), username);
        list_push_back(&mut self.items, v);
        assert(self@ =~= old(self)@.push(username@));
    }

    /// The list that a value holds.
    pub(crate) fn from_val(env: &Env, v: Val) -> (r: UsernameList)
        requires
            is_usernames(value_of(v)),
            val_host(v) == env_host(*env),
        ensures
            r.wf(),
            r.host() == env_host(*env),
            r@ == usernames_of(value_of(v)),
    {
        UsernameList { items: val_list(env, v) }
    }

    /// The value that holds the list.
    pub(crate) fn to_val(&self) -> (r: Val)
        requires
            self.wf(),
        ensures
            value_of(r) == usernames_value(self@),
            val_host(r) == self.host(),
            is_storable(value_of(r)),
    {
        assert(list_items(self.items) =~= Seq::new(self@.len(), |i: int| Value::Str(self@[i])));
        list_val(&self.items)
    }
}

} // verus!
