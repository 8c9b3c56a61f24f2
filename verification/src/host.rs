//! The storage host, as the registry uses it.
//!
//! The host is reached through `soroban_sdk`, whose calls are not verified.
//! Each of them stands here, in a function of its own whose contract says what
//! the call does. Two limits are outside these contracts, as memory is outside
//! those of `Vec`: the resources that the host meters, and the footprint that a
//! transaction declares. A call beyond either ends the whole transaction.
//!
//! An `Env` is a handle to the host, and its clones reach the same host. A
//! function that changes what the host holds takes its handle by `&mut`; what is
//! said of a handle holds as long as no clone of it is used in between.
//!
//! A value, a vector or a map is a handle too, and holds something on the host
//! that made it only. Where two of them meet, they have to be of one host.

use crate::ledger::LedgerState;
use crate::value::{is_storable, is_symbol, Address, Value};
use soroban_sdk::xdr::{AccountId, ContractId, PublicKey, ScAddress, Uint256};
use soroban_sdk::{Env, IntoVal, TryFromVal, Val};
use vstd::prelude::*;

verus! {

#[verifier::external_type_specification]
#[verifier::external_body]
pub struct ExEnv(soroban_sdk::Env);

#[verifier::external_type_specification]
#[verifier::external_body]
pub struct ExVal(soroban_sdk::Val);

#[verifier::external_type_specification]
#[verifier::external_body]
pub struct ExSymbol(soroban_sdk::Symbol);

#[verifier::external_type_specification]
#[verifier::external_body]
#[verifier::reject_recursive_types(T)]
pub struct ExVec<T>(soroban_sdk::Vec<T>);

#[verifier::external_type_specification]
#[verifier::external_body]
#[verifier::reject_recursive_types(K)]
#[verifier::reject_recursive_types(V)]
pub struct ExMap<K, V>(soroban_sdk::Map<K, V>);

/// The host that a handle reaches.
pub uninterp spec fn env_host(env: Env) -> int;

/// The host that made a value.
pub uninterp spec fn val_host(v: Val) -> int;

/// The host that made a vector.
pub uninterp spec fn list_host(l: soroban_sdk::Vec<Val>) -> int;

/// The host that made a map.
pub uninterp spec fn record_host(r: soroban_sdk::Map<soroban_sdk::Symbol, Val>) -> int;

/// What a value holds, on the host that made it.
pub uninterp spec fn value_of(v: Val) -> Value;

/// What a host vector holds, in order.
pub uninterp spec fn list_items(l: soroban_sdk::Vec<Val>) -> Seq<Value>;

/// What a host map with symbol keys holds.
pub uninterp spec fn record_fields(
    r: soroban_sdk::Map<soroban_sdk::Symbol, Val>,
) -> Map<Seq<char>, Value>;

/// The instance entries of the running contract.
pub uninterp spec fn instance_entries(env: Env) -> Map<Value, Value>;

/// The persistent entries of the running contract.
pub uninterp spec fn persistent_entries(env: Env) -> Map<Value, Value>;

/// The last ledger in which each persistent entry is live. An archived entry
/// counts with the lifetime that its restoration gives it.
pub uninterp spec fn persistent_live_until(env: Env) -> Map<Value, u32>;

/// Whether a contract is running on the host.
pub uninterp spec fn in_contract(env: Env) -> bool;

/// Whether the host has the header and the settings of a current ledger.
pub uninterp spec fn ledger_known(env: Env) -> bool;

/// The sequence number of the host's ledger.
pub uninterp spec fn ledger_sequence(env: Env) -> u32;

/// The most ledgers that an entry may live, the current one among them: a setting
/// of the network.
pub uninterp spec fn ledger_max_ttl(env: Env) -> u32;

/// The ledgers that a new persistent entry lives, the current one among them: a
/// setting of the network.
pub uninterp spec fn ledger_min_ttl(env: Env) -> u32;

/// The close time of the host's ledger: a field of the ledger header, the same
/// for the whole of a transaction.
pub uninterp spec fn ledger_timestamp(env: Env) -> u64;

/// All that the contracts below say of a host.
pub open spec fn state(env: Env) -> LedgerState {
    LedgerState {
        host: env_host(env),
        instance: instance_entries(env),
        persistent: persistent_entries(env),
        live_until: persistent_live_until(env),
        in_contract: in_contract(env),
        ledger_known: ledger_known(env),
        sequence: ledger_sequence(env),
        max_ttl: ledger_max_ttl(env),
        min_ttl: ledger_min_ttl(env),
        timestamp: ledger_timestamp(env),
    }
}

/// Whether a contract is running in a ledger, and has its storage.
pub open spec fn running(env: Env) -> bool {
    state(env).runs()
}

/// `Instance::has`: whether the instance entry `key` exists.
#[verifier::external_body]
pub(crate) fn instance_has(env: &Env, key: Val) -> (r: bool)
    requires
        running(*env),
        val_host(key) == env_host(*env),
    ensures
        r == instance_entries(*env).contains_key(value_of(key)),
{
    env.storage().instance().has(&key)
}

/// `Instance::get`: the value of the instance entry `key`, if it exists.
#[verifier::external_body]
pub(crate) fn instance_get(env: &Env, key: Val) -> (r: Option<Val>)
    requires
        running(*env),
        val_host(key) == env_host(*env),
    ensures
        match r {
            Some(v) => instance_entries(*env).contains_key(value_of(key))
                && instance_entries(*env)[value_of(key)] == value_of(v)
                && val_host(v) == env_host(*env),
            None => !instance_entries(*env).contains_key(value_of(key)),
        },
{
    env.storage().instance().get(&key)
}

/// `Instance::set`: writes the instance entry `key`, and nothing else.
#[verifier::external_body]
pub(crate) fn instance_set(env: &mut Env, key: Val, v: Val)
    requires
        running(*old(env)),
        is_storable(value_of(key)),
        is_storable(value_of(v)),
        val_host(key) == env_host(*old(env)),
        val_host(v) == env_host(*old(env)),
    ensures
        state(*final(env)) == state(*old(env)).put_instance(value_of(key), value_of(v)),
{
    env.storage().instance().set(&key, &v)
}

/// `Instance::remove`: removes the instance entry `key`, if it exists, and
/// nothing else.
#[verifier::external_body]
pub(crate) fn instance_remove(env: &mut Env, key: Val)
    requires
        running(*old(env)),
        is_storable(value_of(key)),
        val_host(key) == env_host(*old(env)),
    ensures
        state(*final(env)) == state(*old(env)).remove_instance(value_of(key)),
{
    env.storage().instance().remove(&key)
}

/// `Persistent::has`: whether the persistent entry `key` exists.
#[verifier::external_body]
pub(crate) fn persistent_has(env: &Env, key: Val) -> (r: bool)
    requires
        running(*env),
        is_storable(value_of(key)),
        val_host(key) == env_host(*env),
    ensures
        r == persistent_entries(*env).contains_key(value_of(key)),
{
    env.storage().persistent().has(&key)
}

/// `Persistent::get`: the value of the persistent entry `key`, if it exists.
#[verifier::external_body]
pub(crate) fn persistent_get(env: &Env, key: Val) -> (r: Option<Val>)
    requires
        running(*env),
        is_storable(value_of(key)),
        val_host(key) == env_host(*env),
    ensures
        match r {
            Some(v) => persistent_entries(*env).contains_key(value_of(key))
                && persistent_entries(*env)[value_of(key)] == value_of(v)
                && val_host(v) == env_host(*env),
            None => !persistent_entries(*env).contains_key(value_of(key)),
        },
{
    env.storage().persistent().get(&key)
}

/// `Persistent::set`: writes the persistent entry `key`, and nothing else. A
/// new entry gets the host's lifetime for new entries.
#[verifier::external_body]
pub(crate) fn persistent_set(env: &mut Env, key: Val, v: Val)
    requires
        running(*old(env)),
        is_storable(value_of(key)),
        is_storable(value_of(v)),
        val_host(key) == env_host(*old(env)),
        val_host(v) == env_host(*old(env)),
    ensures
        state(*final(env)) == state(*old(env)).put(value_of(key), value_of(v)),
{
    env.storage().persistent().set(&key, &v)
}

/// `Persistent::remove`: removes the persistent entry `key`, if it exists, and
/// nothing else.
#[verifier::external_body]
pub(crate) fn persistent_remove(env: &mut Env, key: Val)
    requires
        running(*old(env)),
        is_storable(value_of(key)),
        val_host(key) == env_host(*old(env)),
    ensures
        state(*final(env)) == state(*old(env)).remove(value_of(key)),
{
    env.storage().persistent().remove(&key)
}

/// `Persistent::extend_ttl`: extends the lifetime of the persistent entry
/// `key` and changes nothing else. The call fails on a missing entry, and on a
/// threshold above the extension.
#[verifier::external_body]
pub(crate) fn persistent_extend_ttl(env: &mut Env, key: Val, threshold: u32, extend_to: u32)
    requires
        running(*old(env)),
        is_storable(value_of(key)),
        persistent_entries(*old(env)).contains_key(value_of(key)),
        threshold <= extend_to,
        val_host(key) == env_host(*old(env)),
    ensures
        persistent_live_until(*final(env)) == state(*old(env)).extend(
            value_of(key),
            threshold,
            extend_to,
        ).live_until,
        env_host(*final(env)) == env_host(*old(env)),
        instance_entries(*final(env)) == instance_entries(*old(env)),
        persistent_entries(*final(env)) == persistent_entries(*old(env)),
        in_contract(*final(env)) == in_contract(*old(env)),
        ledger_known(*final(env)) == ledger_known(*old(env)),
        ledger_sequence(*final(env)) == ledger_sequence(*old(env)),
        ledger_max_ttl(*final(env)) == ledger_max_ttl(*old(env)),
        ledger_min_ttl(*final(env)) == ledger_min_ttl(*old(env)),
        ledger_timestamp(*final(env)) == ledger_timestamp(*old(env)),
{
    env.storage().persistent().extend_ttl(&key, threshold, extend_to)
}

/// `Ledger::timestamp`: the close time of the current ledger. The call fails on a
/// host without a ledger.
#[verifier::external_body]
pub(crate) fn timestamp(env: &Env) -> (r: u64)
    requires
        running(*env),
    ensures
        r == ledger_timestamp(*env),
{
    env.ledger().timestamp()
}

/// `IntoVal` on `()`: the void value.
#[verifier::external_body]
pub(crate) fn void_val(env: &Env) -> (r: Val)
    ensures
        value_of(r) == Value::Void,
        val_host(r) == env_host(*env),
{
    ().into_val(env)
}

/// `Val::is_void`: whether a value is void.
#[verifier::external_body]
pub(crate) fn is_void(v: Val) -> (r: bool)
    ensures
        r == (value_of(v) == Value::Void),
{
    v.is_void()
}

/// `IntoVal` on `bool`: the value that holds `b`.
#[verifier::external_body]
pub(crate) fn bool_val(env: &Env, b: bool) -> (r: Val)
    ensures
        value_of(r) == Value::Bool(b),
        val_host(r) == env_host(*env),
{
    b.into_val(env)
}

/// `TryFromVal` on `bool`: what a boolean value holds.
#[verifier::external_body]
pub(crate) fn val_bool(env: &Env, v: Val) -> (r: bool)
    requires
        value_of(v) is Bool,
    ensures
        value_of(v) == Value::Bool(r),
{
    bool::try_from_val(env, &v).unwrap()
}

/// `IntoVal` on `u32`: the value that holds `n`.
#[verifier::external_body]
pub(crate) fn u32_val(env: &Env, n: u32) -> (r: Val)
    ensures
        value_of(r) == Value::U32(n),
        val_host(r) == env_host(*env),
{
    n.into_val(env)
}

/// `TryFromVal` on `u32`: what a 32-bit value holds.
#[verifier::external_body]
pub(crate) fn val_u32(env: &Env, v: Val) -> (r: u32)
    requires
        value_of(v) is U32,
    ensures
        value_of(v) == Value::U32(r),
{
    u32::try_from_val(env, &v).unwrap()
}

/// `IntoVal` on `u64`: the value that holds `n`.
#[verifier::external_body]
pub(crate) fn u64_val(env: &Env, n: u64) -> (r: Val)
    ensures
        value_of(r) == Value::U64(n),
        val_host(r) == env_host(*env),
{
    n.into_val(env)
}

/// `TryFromVal` on `u64`: what a 64-bit value holds.
#[verifier::external_body]
pub(crate) fn val_u64(env: &Env, v: Val) -> (r: u64)
    requires
        value_of(v) is U64,
        val_host(v) == env_host(*env),
    ensures
        value_of(v) == Value::U64(r),
{
    u64::try_from_val(env, &v).unwrap()
}

/// `Symbol::new`: the symbol `s`. The call fails on a string that is none.
#[verifier::external_body]
pub(crate) fn symbol_val(env: &Env, s: &str) -> (r: Val)
    requires
        is_symbol(s@),
    ensures
        value_of(r) == Value::Symbol(s@),
        val_host(r) == env_host(*env),
{
    soroban_sdk::Symbol::new(env, s).to_val()
}

/// `TryFromVal` on `Symbol`, and its `to_string`: the characters of a symbol.
#[verifier::external_body]
pub(crate) fn val_symbol(env: &Env, v: Val) -> (r: String)
    requires
        value_of(v) is Symbol,
        val_host(v) == env_host(*env),
    ensures
        value_of(v) == Value::Symbol(r@),
{
    soroban_sdk::Symbol::try_from_val(env, &v).unwrap().to_string()
}

/// `String::from_bytes`: the string of the bytes `b`. Its length is a `u32`.
#[verifier::external_body]
pub(crate) fn string_val(env: &Env, b: &[u8]) -> (r: Val)
    requires
        b@.len() <= u32::MAX,
    ensures
        value_of(r) == Value::Str(b@),
        val_host(r) == env_host(*env),
{
    soroban_sdk::String::from_bytes(env, b).to_val()
}

/// `TryFromVal` on `String`, and its `copy_into_slice`: the bytes of a string.
/// Its length is a `u32`.
#[verifier::external_body]
pub(crate) fn val_string(env: &Env, v: Val) -> (r: Vec<u8>)
    requires
        value_of(v) is Str,
        val_host(v) == env_host(*env),
    ensures
        value_of(v) == Value::Str(r@),
        r@.len() <= u32::MAX,
{
    let s = soroban_sdk::String::try_from_val(env, &v).unwrap();
    let mut bytes = vec![0u8; s.len() as usize];
    s.copy_into_slice(&mut bytes);
    bytes
}

/// `BytesN::<32>::from_array`: the value that holds the 32 bytes of `h`.
#[verifier::external_body]
pub(crate) fn hash_val(env: &Env, h: &[u8; 32]) -> (r: Val)
    ensures
        value_of(r) == Value::Hash(*h),
        val_host(r) == env_host(*env),
{
    soroban_sdk::BytesN::<32>::from_array(env, h).to_val()
}

/// `TryFromVal` on `BytesN<32>`, and its `to_array`: the bytes of a 32-byte
/// value.
#[verifier::external_body]
pub(crate) fn val_hash(env: &Env, v: Val) -> (r: [u8; 32])
    requires
        value_of(v) is Hash,
        val_host(v) == env_host(*env),
    ensures
        value_of(v) == Value::Hash(r),
{
    soroban_sdk::BytesN::<32>::try_from_val(env, &v).unwrap().to_array()
}

/// `TryFromVal` of an `ScAddress` on `Address`: the value that holds the
/// address `a`.
#[verifier::external_body]
pub(crate) fn address_val(env: &Env, a: Address) -> (r: Val)
    ensures
        value_of(r) == Value::Address(a),
        val_host(r) == env_host(*env),
{
    let sc = match a {
        Address::Account(key) => ScAddress::Account(
            AccountId(PublicKey::PublicKeyTypeEd25519(Uint256(key))),
        ),
        Address::Contract(hash) => ScAddress::Contract(ContractId(soroban_sdk::xdr::Hash(hash))),
    };
    soroban_sdk::Address::try_from_val(env, &sc).unwrap().to_val()
}

/// `TryFromVal` on `Address`, and its `ScAddress`: the address that a value
/// holds, if it holds one. The host admits account and contract addresses only.
#[verifier::external_body]
pub(crate) fn val_address(env: &Env, v: Val) -> (r: Option<Address>)
    requires
        val_host(v) == env_host(*env),
    ensures
        r == (match value_of(v) {
            Value::Address(a) => Some(a),
            _ => None,
        }),
{
    match ScAddress::from(soroban_sdk::Address::try_from_val(env, &v).ok()?) {
        ScAddress::Account(AccountId(PublicKey::PublicKeyTypeEd25519(Uint256(key)))) => {
            Some(Address::Account(key))
        },
        ScAddress::Contract(ContractId(soroban_sdk::xdr::Hash(hash))) => {
            Some(Address::Contract(hash))
        },
        _ => None,
    }
}

/// `Vec::new`: the empty vector.
#[verifier::external_body]
pub(crate) fn list_new(env: &Env) -> (r: soroban_sdk::Vec<Val>)
    ensures
        list_items(r) == Seq::<Value>::empty(),
        list_host(r) == env_host(*env),
{
    soroban_sdk::Vec::new(env)
}

/// `Vec::env`: a handle to the host of a vector.
#[verifier::external_body]
pub(crate) fn list_env(l: &soroban_sdk::Vec<Val>) -> (r: &Env)
    ensures
        env_host(*r) == list_host(*l),
{
    l.env()
}

/// `Vec::len`: the number of items of a vector.
#[verifier::external_body]
pub(crate) fn list_len(l: &soroban_sdk::Vec<Val>) -> (r: u32)
    ensures
        r == list_items(*l).len(),
{
    l.len()
}

/// `Vec::get`: the item at position `i`, if there is one.
#[verifier::external_body]
pub(crate) fn list_get(l: &soroban_sdk::Vec<Val>, i: u32) -> (r: Option<Val>)
    ensures
        match r {
            Some(v) => i < list_items(*l).len() && value_of(v) == list_items(*l)[i as int]
                && val_host(v) == list_host(*l),
            None => i >= list_items(*l).len(),
        },
{
    l.get(i)
}

/// `Vec::push_back`: appends an item. The length of a vector is a `u32`.
#[verifier::external_body]
pub(crate) fn list_push_back(l: &mut soroban_sdk::Vec<Val>, v: Val)
    requires
        list_items(*old(l)).len() < u32::MAX,
        val_host(v) == list_host(*old(l)),
    ensures
        list_items(*final(l)) == list_items(*old(l)).push(value_of(v)),
        list_host(*final(l)) == list_host(*old(l)),
{
    l.push_back(v)
}

/// `Vec::pop_front`: takes the first item off, if there is one.
#[verifier::external_body]
pub(crate) fn list_pop_front(l: &mut soroban_sdk::Vec<Val>) -> (r: Option<Val>)
    ensures
        match r {
            Some(v) => list_items(*old(l)).len() > 0 && value_of(v) == list_items(*old(l))[0]
                && list_items(*final(l)) == list_items(*old(l)).drop_first(),
            None => list_items(*old(l)).len() == 0 && list_items(*final(l)) == list_items(*old(l)),
        },
        list_host(*final(l)) == list_host(*old(l)),
{
    l.pop_front()
}

/// `Vec::to_val`: the value that holds a vector.
#[verifier::external_body]
pub(crate) fn list_val(l: &soroban_sdk::Vec<Val>) -> (r: Val)
    ensures
        value_of(r) == Value::List(list_items(*l)),
        val_host(r) == list_host(*l),
{
    l.to_val()
}

/// `TryFromVal` on `Vec`: the vector that a value holds.
#[verifier::external_body]
pub(crate) fn val_list(env: &Env, v: Val) -> (r: soroban_sdk::Vec<Val>)
    requires
        value_of(v) is List,
        val_host(v) == env_host(*env),
    ensures
        value_of(v) == Value::List(list_items(r)),
        list_host(r) == env_host(*env),
{
    soroban_sdk::Vec::try_from_val(env, &v).unwrap()
}

/// `Map::new`: the empty map.
#[verifier::external_body]
pub(crate) fn record_new(env: &Env) -> (r: soroban_sdk::Map<soroban_sdk::Symbol, Val>)
    ensures
        (record_fields(r) == Map::<Seq<char>, Value>::empty()),
        record_host(r) == env_host(*env),
{
    soroban_sdk::Map::new(env)
}

/// `Map::set`: gives the key `name` the value `v`.
#[verifier::external_body]
pub(crate) fn record_set(r: &mut soroban_sdk::Map<soroban_sdk::Symbol, Val>, name: &str, v: Val)
    requires
        is_symbol(name@),
        record_fields(*old(r)).dom().len() < u32::MAX,
        val_host(v) == record_host(*old(r)),
    ensures
        record_fields(*final(r)) == record_fields(*old(r)).insert(name@, value_of(v)),
        record_host(*final(r)) == record_host(*old(r)),
{
    let name = soroban_sdk::Symbol::new(r.env(), name);
    r.set(name, v)
}

/// `Map::get`: the value of the key `name`, if there is one.
#[verifier::external_body]
pub(crate) fn record_get(
    r: &soroban_sdk::Map<soroban_sdk::Symbol, Val>,
    name: &str,
) -> (found: Option<Val>)
    requires
        is_symbol(name@),
    ensures
        match found {
            Some(v) => record_fields(*r).contains_key(name@) && record_fields(*r)[name@]
                == value_of(v) && val_host(v) == record_host(*r),
            None => !record_fields(*r).contains_key(name@),
        },
{
    r.get(soroban_sdk::Symbol::new(r.env(), name))
}

/// `Map::to_val`: the value that holds a map.
#[verifier::external_body]
pub(crate) fn record_val(r: &soroban_sdk::Map<soroban_sdk::Symbol, Val>) -> (v: Val)
    ensures
        value_of(v) == Value::Record(record_fields(*r)),
        val_host(v) == record_host(*r),
{
    r.to_val()
}

/// `TryFromVal` on `Map`: the map that a value holds.
#[verifier::external_body]
pub(crate) fn val_record(env: &Env, v: Val) -> (r: soroban_sdk::Map<soroban_sdk::Symbol, Val>)
    requires
        value_of(v) is Record,
        val_host(v) == env_host(*env),
    ensures
        value_of(v) == Value::Record(record_fields(r)),
        record_host(r) == env_host(*env),
{
    soroban_sdk::Map::try_from_val(env, &v).unwrap()
}

} // verus!
