//! The part of the ledger that a running contract sees, as a value.

use crate::value::Value;
use vstd::prelude::*;

verus! {

/// What the host holds for the contract that is running, and what it says of
/// the current ledger.
#[verifier::ext_equal]
pub struct LedgerState {
    /// The host that holds it.
    pub host: int,
    /// The instance entries of the contract.
    pub instance: Map<Value, Value>,
    /// The persistent entries of the contract.
    pub persistent: Map<Value, Value>,
    /// The last ledger in which each persistent entry is live.
    pub live_until: Map<Value, u32>,
    /// Whether a contract is running at all: there is no storage otherwise.
    pub in_contract: bool,
    /// Whether the host has the header and the settings of a current ledger.
    pub ledger_known: bool,
    /// The sequence number of the current ledger.
    pub sequence: u32,
    /// The most ledgers that an entry may live, the current one among them.
    pub max_ttl: u32,
    /// The ledgers that a new persistent entry lives, the current one among them.
    pub min_ttl: u32,
    /// The close time of the current ledger, in seconds.
    pub timestamp: u64,
}

/// The last of `ttl` ledgers, the one with the number `sequence` being the first.
pub open spec fn last_ledger(sequence: u32, ttl: u32) -> int {
    if ttl == 0 {
        sequence as int
    } else {
        sequence + ttl - 1
    }
}

impl LedgerState {
    /// The last ledger in which an entry written now may be live.
    pub open spec fn max_live_until(self) -> int {
        last_ledger(self.sequence, self.max_ttl)
    }

    /// The last ledger in which a persistent entry created now is live, unless it
    /// is extended.
    pub open spec fn min_live_until(self) -> int {
        last_ledger(self.sequence, self.min_ttl)
    }

    /// Whether a contract is running in a known ledger, from which lifetimes can be
    /// counted in 32 bits.
    pub open spec fn runs(self) -> bool {
        &&& self.in_contract
        &&& self.ledger_known
        &&& self.max_live_until() <= u32::MAX
        &&& self.min_live_until() <= u32::MAX
    }

    /// The state after `value` is written to the instance entry `key`.
    pub open spec fn put_instance(self, key: Value, value: Value) -> LedgerState {
        LedgerState { instance: self.instance.insert(key, value), ..self }
    }

    /// The state after the instance entry `key` is removed.
    pub open spec fn remove_instance(self, key: Value) -> LedgerState {
        LedgerState { instance: self.instance.remove(key), ..self }
    }

    /// The state after `value` is written to the persistent entry `key`. An
    /// entry that is there keeps its lifetime.
    pub open spec fn put(self, key: Value, value: Value) -> LedgerState {
        LedgerState {
            persistent: self.persistent.insert(key, value),
            live_until: if self.persistent.contains_key(key) {
                self.live_until
            } else {
                self.live_until.insert(key, self.min_live_until() as u32)
            },
            ..self
        }
    }

    /// The state after the persistent entry `key` is removed.
    pub open spec fn remove(self, key: Value) -> LedgerState {
        LedgerState {
            persistent: self.persistent.remove(key),
            live_until: self.live_until.remove(key),
            ..self
        }
    }

    /// The last ledger in which an entry is live that was live until
    /// `live_until`, after it is extended: to `extend_to` ledgers from now, or
    /// as far as the network allows, if at most `threshold` ledgers are left
    /// of it. An extension never shortens a lifetime.
    pub open spec fn extended(self, live_until: u32, threshold: u32, extend_to: u32) -> u32 {
        let target = if self.sequence + extend_to <= self.max_live_until() {
            self.sequence + extend_to
        } else {
            self.max_live_until()
        };
        if live_until - self.sequence <= threshold && live_until < target {
            target as u32
        } else {
            live_until
        }
    }

    /// The state after the lifetime of the persistent entry `key` is extended.
    pub open spec fn extend(self, key: Value, threshold: u32, extend_to: u32) -> LedgerState {
        LedgerState {
            live_until: self.live_until.insert(
                key,
                self.extended(self.live_until[key], threshold, extend_to),
            ),
            ..self
        }
    }
}

} // verus!
