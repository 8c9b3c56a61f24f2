# trustbridge_storage

Verified on-ledger storage of the TrustBridge contributor registry: contributor
records, the username index in a flat and a chunked form, paginated export,
pauses, roles, cooldowns, upgrade provenance, the audit log and the reserved
usernames. It works on a Soroban host through `soroban-sdk`, in the host's own
process: it is built for the platform of the host and not for the wasm target of
deployed contracts, on which the SDK lacks the conversions of addresses and
symbols that `host` uses.

| Module | What it holds |
|--------|---------------|
| `storage` | the storage operations, by topic |
| `laws` | what holds of the operations together, as proof functions |
| `keys` | the keys of the ledger entries, and the limits |
| `types`, `audit`, `usernames` | what the registry stores and returns |
| `codec` | how the types are laid out in ledger entries |
| `value`, `ledger` | the mathematical model of a value and of the ledger |
| `host` | the calls into `soroban-sdk`, with the contracts that are trusted |

The contract of an operation says what it returns, and the state of the ledger
after it as a function of the state before it, lifetimes included. An operation
asks that a contract is running in a ledger, that the lists it is given are of the
same host, and that the entries it reads are of their type; `laws::ledger` shows that all operations keep every entry so.

Usernames are byte strings, addresses and hashes their raw bytes.
