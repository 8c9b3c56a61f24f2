//! How the types of the registry are laid out in ledger entries.
//!
//! A structure is written as a record with one field per member, an enumeration
//! as the number of its variant, an absent option as void, and a tuple as a list.
//! A record is read by the names of its fields: it may hold others beside them,
//! and a field that is missing stands for void. A value that is none of these for
//! a type cannot be read as that type.

use crate::host::{
    address_val, bool_val, env_host, hash_val, is_void, list_get, list_host, list_items, list_len,
    list_new, list_push_back, list_val, record_fields, record_get, record_host, record_new,
    record_set, record_val, symbol_val, u32_val, u64_val, val_address, val_bool, val_hash,
    val_host, val_list, val_record, val_symbol, val_u32, val_u64, value_of, void_val,
};
use crate::types::{
    ContributorRecord, VerificationConfig, VerificationConfigView, WasmAttestation,
    WasmProvenance, WasmProvenanceView,
};
use crate::value::{is_storable, is_symbol, Address, Value};
use soroban_sdk::{Env, Val};
use vstd::prelude::*;

verus! {

/// What a value holds under the name of a field: void where it has no such field.
pub open spec fn field_of(v: Value, name: &str) -> Value {
    match v {
        Value::Record(fields) if fields.contains_key(name@) => fields[name@],
        _ => Value::Void,
    }
}

/// The value that holds a contributor's record.
pub open spec fn record_value(r: ContributorRecord) -> Value {
    Value::Record(
        map![
            "registered_at"@ => Value::U32(r.registered_at),
            "stellar_address"@ => Value::Address(r.stellar_address),
            "verified"@ => Value::Bool(r.verified),
        ],
    )
}

/// Whether a value holds a contributor's record.
pub open spec fn is_record(v: Value) -> bool {
    &&& v is Record
    &&& field_of(v, "registered_at") is U32
    &&& field_of(v, "stellar_address") is Address
    &&& field_of(v, "verified") is Bool
}

/// The contributor's record that a value holds.
pub open spec fn record_of(v: Value) -> ContributorRecord {
    ContributorRecord {
        registered_at: field_of(v, "registered_at")->U32_0,
        stellar_address: field_of(v, "stellar_address")->Address_0,
        verified: field_of(v, "verified")->Bool_0,
    }
}

/// The names of the fields of a record are symbols, and differ.
proof fn lemma_record_names()
    ensures
        is_symbol("registered_at"@),
        is_symbol("stellar_address"@),
        is_symbol("verified"@),
        "registered_at"@ != "stellar_address"@,
        "registered_at"@ != "verified"@,
        "stellar_address"@ != "verified"@,
{
    reveal_strlit("registered_at");
    reveal_strlit("stellar_address");
    reveal_strlit("verified");
}

/// A record is read back as it was written.
pub proof fn law_record_round_trip(r: ContributorRecord)
    ensures
        is_record(record_value(r)),
        record_of(record_value(r)) == r,
{
    lemma_record_names();
}

/// The field of a record under a name, or void where there is none.
pub(crate) fn field(
    env: &Env,
    r: &soroban_sdk::Map<soroban_sdk::Symbol, Val>,
    name: &str,
) -> (v: Val)
    requires
        is_symbol(name@),
        record_host(*r) == env_host(*env),
    ensures
        value_of(v) == field_of(Value::Record(record_fields(*r)), name),
        val_host(v) == env_host(*env),
{
    match record_get(r, name) {
        Some(v) => v,
        None => void_val(env),
    }
}

/// The address that a value holds.
pub(crate) fn address_of(env: &Env, v: Val) -> (r: Address)
    requires
        value_of(v) is Address,
        val_host(v) == env_host(*env),
    ensures
        value_of(v) == Value::Address(r),
{
    val_address(env, v).unwrap()
}

/// Encodes a contributor's record.
pub(crate) fn record_to_val(env: &Env, r: &ContributorRecord) -> (v: Val)
    ensures
        value_of(v) == record_value(*r),
        is_storable(value_of(v)),
        val_host(v) == env_host(*env),
{
    proof {
        lemma_record_names();
    }
    let mut m = record_new(env);
    record_set(&mut m, "registered_at", u32_val(env, r.registered_at));
    record_set(&mut m, "stellar_address", address_val(env, r.stellar_address));
    record_set(&mut m, "verified", bool_val(env, r.verified));
    assert(record_fields(m) =~= record_value(*r)->Record_0);
    record_val(&m)
}

/// Decodes a contributor's record.
pub(crate) fn record_from_val(env: &Env, v: Val) -> (r: ContributorRecord)
    requires
        is_record(value_of(v)),
        val_host(v) == env_host(*env),
    ensures
        r == record_of(value_of(v)),
{
    proof {
        lemma_record_names();
    }
    let m = val_record(env, v);
    ContributorRecord {
        registered_at: val_u32(env, field(env, &m, "registered_at")),
        stellar_address: address_of(env, field(env, &m, "stellar_address")),
        verified: val_bool(env, field(env, &m, "verified")),
    }
}

/// The value that holds an optional hash.
pub open spec fn optional_hash_value(h: Option<[u8; 32]>) -> Value {
    match h {
        Some(h) => Value::Hash(h),
        None => Value::Void,
    }
}

/// The hash that a value holds, if it is not void.
pub open spec fn optional_hash_of(v: Value) -> Option<[u8; 32]> {
    match v {
        Value::Hash(h) => Some(h),
        _ => None,
    }
}

/// The value that holds a list of numbers.
pub open spec fn numbers_value(numbers: Seq<u32>) -> Value {
    Value::List(Seq::new(numbers.len(), |i: int| Value::U32(numbers[i])))
}

/// Whether a value holds a list of numbers.
pub open spec fn is_numbers(v: Value) -> bool {
    v matches Value::List(items) && forall|i: int|
        0 <= i < items.len() ==> #[trigger] items[i] is U32
}

/// The numbers that a value holds.
pub open spec fn numbers_of(v: Value) -> Seq<u32>
    recommends
        is_numbers(v),
{
    Seq::new(v->List_0.len(), |i: int| v->List_0[i]->U32_0)
}

/// Encodes an optional hash.
fn optional_hash_to_val(env: &Env, h: &Option<[u8; 32]>) -> (v: Val)
    ensures
        value_of(v) == optional_hash_value(*h),
        val_host(v) == env_host(*env),
{
    match h {
        Some(h) => hash_val(env, h),
        None => void_val(env),
    }
}

/// Decodes an optional hash.
fn optional_hash_from_val(env: &Env, v: Val) -> (h: Option<[u8; 32]>)
    requires
        value_of(v) is Hash || value_of(v) is Void,
        val_host(v) == env_host(*env),
    ensures
        h == optional_hash_of(value_of(v)),
{
    if is_void(v) {
        None
    } else {
        Some(val_hash(env, v))
    }
}

/// Encodes a list of numbers.
fn numbers_to_val(env: &Env, numbers: &Vec<u32>) -> (v: Val)
    requires
        numbers@.len() <= u32::MAX,
    ensures
        value_of(v) == numbers_value(numbers@),
        val_host(v) == env_host(*env),
{
    let mut l = list_new(env);
    let mut i: usize = 0;
    while i < numbers.len()
        invariant
            i <= numbers@.len() <= u32::MAX,
            list_items(l) =~= Seq::new(i as nat, |j: int| Value::U32(numbers@[j])),
            list_host(l) == env_host(*env),
        decreases numbers@.len() - i,
    {
        list_push_back(&mut l, u32_val(env, numbers[i]));
        i += 1;
    }
    list_val(&l)
}

/// Decodes a list of numbers.
fn numbers_from_val(env: &Env, v: Val) -> (numbers: Vec<u32>)
    requires
        is_numbers(value_of(v)),
        val_host(v) == env_host(*env),
    ensures
        numbers@ == numbers_of(value_of(v)),
{
    let l = val_list(env, v);
    let len = list_len(&l);
    let mut numbers: Vec<u32> = Vec::new();
    let mut i: u32 = 0;
    while i < len
        invariant
            i <= len,
            len == list_items(l).len(),
            is_numbers(Value::List(list_items(l))),
            numbers@ =~= numbers_of(Value::List(list_items(l))).take(i as int),
        decreases len - i,
    {
        if let Some(item) = list_get(&l, i) {
            assert(list_items(l)[i as int] is U32);
            numbers.push(val_u32(env, item));
        }
        i += 1;
    }
    numbers
}

/// The value that holds a provenance.
pub open spec fn provenance_value(p: WasmProvenanceView) -> Value {
    Value::Record(
        map![
            "attested"@ => Value::Bool(p.attested),
            "previous_wasm_hash"@ => optional_hash_value(p.previous_wasm_hash),
            "upgraded_at"@ => Value::U64(p.upgraded_at),
            "upgraded_by"@ => Value::Address(p.upgraded_by),
            "version"@ => numbers_value(p.version),
            "wasm_hash"@ => Value::Hash(p.wasm_hash),
        ],
    )
}

/// Whether a value holds a provenance.
pub open spec fn is_provenance(v: Value) -> bool {
    &&& v is Record
    &&& field_of(v, "attested") is Bool
    &&& field_of(v, "previous_wasm_hash") is Hash || field_of(v, "previous_wasm_hash") is Void
    &&& field_of(v, "upgraded_at") is U64
    &&& field_of(v, "upgraded_by") is Address
    &&& is_numbers(field_of(v, "version"))
    &&& field_of(v, "wasm_hash") is Hash
}

/// The provenance that a value holds.
pub open spec fn provenance_of(v: Value) -> WasmProvenanceView {
    WasmProvenanceView {
        wasm_hash: field_of(v, "wasm_hash")->Hash_0,
        previous_wasm_hash: optional_hash_of(field_of(v, "previous_wasm_hash")),
        upgraded_by: field_of(v, "upgraded_by")->Address_0,
        upgraded_at: field_of(v, "upgraded_at")->U64_0,
        version: numbers_of(field_of(v, "version")),
        attested: field_of(v, "attested")->Bool_0,
    }
}

/// The names of the fields of a provenance are symbols, and differ.
proof fn lemma_provenance_names()
    ensures
        is_symbol("attested"@),
        is_symbol("previous_wasm_hash"@),
        is_symbol("upgraded_at"@),
        is_symbol("upgraded_by"@),
        is_symbol("version"@),
        is_symbol("wasm_hash"@),
        "attested"@ != "previous_wasm_hash"@,
        "attested"@ != "upgraded_at"@,
        "attested"@ != "upgraded_by"@,
        "attested"@ != "version"@,
        "attested"@ != "wasm_hash"@,
        "previous_wasm_hash"@ != "upgraded_at"@,
        "previous_wasm_hash"@ != "upgraded_by"@,
        "previous_wasm_hash"@ != "version"@,
        "previous_wasm_hash"@ != "wasm_hash"@,
        "upgraded_at"@ != "upgraded_by"@,
        "upgraded_at"@ != "version"@,
        "upgraded_at"@ != "wasm_hash"@,
        "upgraded_by"@ != "version"@,
        "upgraded_by"@ != "wasm_hash"@,
        "version"@ != "wasm_hash"@,
{
    reveal_strlit("attested");
    reveal_strlit("previous_wasm_hash");
    reveal_strlit("upgraded_at");
    reveal_strlit("upgraded_by");
    reveal_strlit("version");
    reveal_strlit("wasm_hash");
    assert("upgraded_at"@[9] != "upgraded_by"@[9]);
}

/// A provenance is read back as it was written.
pub proof fn law_provenance_round_trip(p: WasmProvenanceView)
    ensures
        is_provenance(provenance_value(p)),
        provenance_of(provenance_value(p)) == p,
{
    lemma_provenance_names();
    assert(numbers_of(numbers_value(p.version)) =~= p.version);
}

/// Encodes a provenance.
pub(crate) fn provenance_to_val(env: &Env, p: &WasmProvenance) -> (v: Val)
    requires
        p.version@.len() <= u32::MAX,
    ensures
        value_of(v) == provenance_value(p@),
        is_storable(value_of(v)),
        val_host(v) == env_host(*env),
{
    proof {
        lemma_provenance_names();
    }
    let mut m = record_new(env);
    record_set(&mut m, "attested", bool_val(env, p.attested));
    record_set(
        &mut m,
        "previous_wasm_hash",
        optional_hash_to_val(env, &p.previous_wasm_hash),
    );
    record_set(&mut m, "upgraded_at", u64_val(env, p.upgraded_at));
    record_set(&mut m, "upgraded_by", address_val(env, p.upgraded_by));
    record_set(&mut m, "version", numbers_to_val(env, &p.version));
    record_set(&mut m, "wasm_hash", hash_val(env, &p.wasm_hash));
    assert(record_fields(m) =~= provenance_value(p@)->Record_0);
    record_val(&m)
}

/// Decodes a provenance.
pub(crate) fn provenance_from_val(env: &Env, v: Val) -> (p: WasmProvenance)
    requires
        is_provenance(value_of(v)),
        val_host(v) == env_host(*env),
    ensures
        p@ == provenance_of(value_of(v)),
{
    proof {
        lemma_provenance_names();
    }
    let m = val_record(env, v);
    WasmProvenance {
        attested: val_bool(env, field(env, &m, "attested")),
        previous_wasm_hash: optional_hash_from_val(env, field(env, &m, "previous_wasm_hash")),
        upgraded_at: val_u64(env, field(env, &m, "upgraded_at")),
        upgraded_by: address_of(env, field(env, &m, "upgraded_by")),
        version: numbers_from_val(env, field(env, &m, "version")),
        wasm_hash: val_hash(env, field(env, &m, "wasm_hash")),
    }
}

/// The value that holds an attestation.
pub open spec fn attestation_value(a: WasmAttestation) -> Value {
    Value::Record(
        map![
            "attested_at"@ => Value::U64(a.attested_at),
            "attested_by"@ => Value::Address(a.attested_by),
            "expires_at"@ => Value::U64(a.expires_at),
            "wasm_hash"@ => Value::Hash(a.wasm_hash),
        ],
    )
}

/// Whether a value holds an attestation.
pub open spec fn is_attestation(v: Value) -> bool {
    &&& v is Record
    &&& field_of(v, "attested_at") is U64
    &&& field_of(v, "attested_by") is Address
    &&& field_of(v, "expires_at") is U64
    &&& field_of(v, "wasm_hash") is Hash
}

/// The attestation that a value holds.
pub open spec fn attestation_of(v: Value) -> WasmAttestation {
    WasmAttestation {
        wasm_hash: field_of(v, "wasm_hash")->Hash_0,
        expires_at: field_of(v, "expires_at")->U64_0,
        attested_by: field_of(v, "attested_by")->Address_0,
        attested_at: field_of(v, "attested_at")->U64_0,
    }
}

/// The names of the fields of an attestation are symbols, and differ.
proof fn lemma_attestation_names()
    ensures
        is_symbol("attested_at"@),
        is_symbol("attested_by"@),
        is_symbol("expires_at"@),
        is_symbol("wasm_hash"@),
        "attested_at"@ != "attested_by"@,
        "attested_at"@ != "expires_at"@,
        "attested_at"@ != "wasm_hash"@,
        "attested_by"@ != "expires_at"@,
        "attested_by"@ != "wasm_hash"@,
        "expires_at"@ != "wasm_hash"@,
{
    reveal_strlit("attested_at");
    reveal_strlit("attested_by");
    reveal_strlit("expires_at");
    reveal_strlit("wasm_hash");
    assert("attested_at"@[9] != "attested_by"@[9]);
}

/// An attestation is read back as it was written.
pub proof fn law_attestation_round_trip(a: WasmAttestation)
    ensures
        is_attestation(attestation_value(a)),
        attestation_of(attestation_value(a)) == a,
{
    lemma_attestation_names();
}

/// Encodes an attestation.
pub(crate) fn attestation_to_val(env: &Env, a: &WasmAttestation) -> (v: Val)
    ensures
        value_of(v) == attestation_value(*a),
        is_storable(value_of(v)),
        val_host(v) == env_host(*env),
{
    proof {
        lemma_attestation_names();
    }
    let mut m = record_new(env);
    record_set(&mut m, "attested_at", u64_val(env, a.attested_at));
    record_set(&mut m, "attested_by", address_val(env, a.attested_by));
    record_set(&mut m, "expires_at", u64_val(env, a.expires_at));
    record_set(&mut m, "wasm_hash", hash_val(env, &a.wasm_hash));
    assert(record_fields(m) =~= attestation_value(*a)->Record_0);
    record_val(&m)
}

/// Decodes an attestation.
pub(crate) fn attestation_from_val(env: &Env, v: Val) -> (a: WasmAttestation)
    requires
        is_attestation(value_of(v)),
        val_host(v) == env_host(*env),
    ensures
        a == attestation_of(value_of(v)),
{
    proof {
        lemma_attestation_names();
    }
    let m = val_record(env, v);
    WasmAttestation {
        attested_at: val_u64(env, field(env, &m, "attested_at")),
        attested_by: address_of(env, field(env, &m, "attested_by")),
        expires_at: val_u64(env, field(env, &m, "expires_at")),
        wasm_hash: val_hash(env, field(env, &m, "wasm_hash")),
    }
}

/// The value that holds a verification configuration.
pub open spec fn config_value(c: VerificationConfigView) -> Value {
    Value::Record(
        map![
            "attestation"@ => Value::Symbol(c.attestation),
            "expires_in"@ => Value::U64(c.expires_in),
            "threshold"@ => Value::U32(c.threshold),
        ],
    )
}

/// Whether a value holds a verification configuration.
pub open spec fn is_config(v: Value) -> bool {
    &&& v is Record
    &&& field_of(v, "attestation") is Symbol
    &&& field_of(v, "expires_in") is U64
    &&& field_of(v, "threshold") is U32
}

/// The verification configuration that a value holds.
pub open spec fn config_of(v: Value) -> VerificationConfigView {
    VerificationConfigView {
        attestation: field_of(v, "attestation")->Symbol_0,
        expires_in: field_of(v, "expires_in")->U64_0,
        threshold: field_of(v, "threshold")->U32_0,
    }
}

/// The names of the fields of a configuration are symbols, and differ.
proof fn lemma_config_names()
    ensures
        is_symbol("attestation"@),
        is_symbol("expires_in"@),
        is_symbol("threshold"@),
        "attestation"@ != "expires_in"@,
        "attestation"@ != "threshold"@,
        "expires_in"@ != "threshold"@,
{
    reveal_strlit("attestation");
    reveal_strlit("expires_in");
    reveal_strlit("threshold");
}

/// A verification configuration is read back as it was written.
pub proof fn law_config_round_trip(c: VerificationConfigView)
    ensures
        is_config(config_value(c)),
        config_of(config_value(c)) == c,
{
    lemma_config_names();
}

/// Encodes a verification configuration.
pub(crate) fn config_to_val(env: &Env, c: &VerificationConfig) -> (v: Val)
    requires
        is_symbol(c.attestation@),
    ensures
        value_of(v) == config_value(c@),
        is_storable(value_of(v)),
        val_host(v) == env_host(*env),
{
    proof {
        lemma_config_names();
    }
    let mut m = record_new(env);
    record_set(&mut m, "attestation", symbol_val(env, c.attestation.as_str()));
    record_set(&mut m, "expires_in", u64_val(env, c.expires_in));
    record_set(&mut m, "threshold", u32_val(env, c.threshold));
    assert(record_fields(m) =~= config_value(c@)->Record_0);
    record_val(&m)
}

/// Decodes a verification configuration.
pub(crate) fn config_from_val(env: &Env, v: Val) -> (c: VerificationConfig)
    requires
        is_config(value_of(v)),
        val_host(v) == env_host(*env),
    ensures
        c@ == config_of(value_of(v)),
{
    proof {
        lemma_config_names();
    }
    let m = val_record(env, v);
    VerificationConfig {
        attestation: val_symbol(env, field(env, &m, "attestation")),
        expires_in: val_u64(env, field(env, &m, "expires_in")),
        threshold: val_u32(env, field(env, &m, "threshold")),
    }
}

/// The value that holds a version.
pub open spec fn version_value(v: (u32, u32, u32)) -> Value {
    Value::List(seq![Value::U32(v.0), Value::U32(v.1), Value::U32(v.2)])
}

/// Whether a value holds a version.
pub open spec fn is_version(v: Value) -> bool {
    v matches Value::List(items) && items.len() == 3 && items[0] is U32 && items[1] is U32
        && items[2] is U32
}

/// The version that a value holds.
pub open spec fn version_of(v: Value) -> (u32, u32, u32) {
    (v->List_0[0]->U32_0, v->List_0[1]->U32_0, v->List_0[2]->U32_0)
}

/// A version is read back as it was written.
pub proof fn law_version_round_trip(t: (u32, u32, u32))
    ensures
        is_version(version_value(t)),
        version_of(version_value(t)) == t,
{
}

/// Encodes a version.
pub(crate) fn version_to_val(env: &Env, t: (u32, u32, u32)) -> (v: Val)
    ensures
        value_of(v) == version_value(t),
        is_storable(value_of(v)),
        val_host(v) == env_host(*env),
{
    let mut l = list_new(env);
    list_push_back(&mut l, u32_val(env, t.0));
    list_push_back(&mut l, u32_val(env, t.1));
    list_push_back(&mut l, u32_val(env, t.2));
    assert(list_items(l) =~= version_value(t)->List_0);
    list_val(&l)
}

/// Decodes a version.
pub(crate) fn version_from_val(env: &Env, v: Val) -> (t: (u32, u32, u32))
    requires
        is_version(value_of(v)),
        val_host(v) == env_host(*env),
    ensures
        t == version_of(value_of(v)),
{
    let l = val_list(env, v);
    let major = val_u32(env, list_get(&l, 0).unwrap());
    let minor = val_u32(env, list_get(&l, 1).unwrap());
    let patch = val_u32(env, list_get(&l, 2).unwrap());
    (major, minor, patch)
}

} // verus!
