# runtime_sdk

A verified core of an Oasis-style runtime SDK, written in Verus.

- `src/keyed.rs`: `KvStore`, a key-ordered store with a `Map` view, used for
  every keyed table of the runtime.
- `src/types/`: addresses (with bech32), token amounts, roles, votes, proposal
  states and their CBOR encodings.
- `src/context.rs`: execution modes, batch and transaction contexts, message
  slots, event tags and per-context values.
- `src/modules/accounts/`: balances, total supplies, nonces, fees, roles and
  the proposal governance (propose, vote, mint, burn, whitelist, blacklist,
  set roles and quorums), with its supply and voting laws in `laws.rs`.
- `src/modules/evm.rs` and `src/modules/evm/`: the parts of the EVM module
  that decide and compute without an EVM engine: result processing, the
  deposit/withdrawal contract calls, the settlement of a run's gas and fee
  (with the 256-bit arithmetic it needs), and the handling of consensus
  message results.
- `src/modules/consensus_accounts.rs`, `core_module.rs`: their types, errors
  and gas accounting.
- `app/`: error types with messages, `primitive-types` conversions and the
  well-known addresses.
- `tests/`: tests run against the compiled library.
