//! The mathematical model of what a ledger entry holds.

use vstd::prelude::*;

verus! {

/// An account or contract address, by its raw 32-byte identifier.
#[derive(Clone, Copy, Debug, PartialEq, Eq)]
pub enum Address {
    /// A Stellar account (a `G...` address), by its ed25519 public key.
    Account([u8; 32]),
    /// A contract (a `C...` address), by its contract hash.
    Contract([u8; 32]),
}

/// What a host value holds, with every handle followed.
///
/// `Other` stands for all the values that the registry never stores, told
/// apart by their serialized form.
#[verifier::ext_equal]
pub enum Value {
    Void,
    Bool(bool),
    U32(u32),
    U64(u64),
    Symbol(Seq<char>),
    Str(Seq<u8>),
    Hash([u8; 32]),
    Address(Address),
    /// A vector of values.
    List(Seq<Value>),
    /// A map whose keys are all symbols.
    Record(Map<Seq<char>, Value>),
    Other(Seq<u8>),
}

/// The characters that a symbol may hold.
pub open spec fn is_symbol_char(c: char) -> bool {
    ('a' <= c && c <= 'z') || ('A' <= c && c <= 'Z') || ('0' <= c && c <= '9') || c == '_'
}

/// The strings that are symbols.
pub open spec fn is_symbol(s: Seq<char>) -> bool {
    s.len() <= 32 && forall|i: int| 0 <= i < s.len() ==> is_symbol_char(#[trigger] s[i])
}

/// A value without parts.
pub open spec fn is_scalar(v: Value) -> bool {
    match v {
        Value::List(_) => false,
        Value::Record(_) => false,
        Value::Other(_) => false,
        _ => true,
    }
}

/// A scalar, or a list of scalars.
pub open spec fn is_row(v: Value) -> bool {
    match v {
        Value::List(items) => forall|i: int|
            0 <= i < items.len() ==> is_scalar(#[trigger] items[i]),
        _ => is_scalar(v),
    }
}

/// A row, a list of rows, or a record of rows.
pub open spec fn is_table(v: Value) -> bool {
    match v {
        Value::List(items) => forall|i: int| 0 <= i < items.len() ==> is_row(#[trigger] items[i]),
        Value::Record(fields) => forall|n: Seq<char>| #[trigger]
            fields.contains_key(n) ==> is_row(fields[n]),
        _ => is_scalar(v),
    }
}

/// The values that a ledger entry may hold: a table, or a list of tables.
/// Every value that the registry writes is one.
pub open spec fn is_storable(v: Value) -> bool {
    match v {
        Value::List(items) => forall|i: int|
            0 <= i < items.len() ==> is_table(#[trigger] items[i]),
        _ => is_table(v),
    }
}

} // verus!
