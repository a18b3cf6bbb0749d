# grainlify

Verified core logic of the Grainlify Soroban contracts, written in Verus.

- `src/gas_budget.rs` — per-operation CPU/memory caps and the decision of a
  budget check (breach, warning, enforcement) from meter readings.
- `src/multisig.rs` — the multisig approval engine: configuration,
  proposals, approvals, expiry, cancellation, pause, execution; with the
  laws the engine keeps (well-formedness of every reachable state, final
  execution and cancellation, expiry and pause blocking execution).
- `src/pseudo_randomness.rs` — deterministic, scoring-based selection of a
  candidate from SHA-256 hashes of XDR-encoded inputs.
- `src/address.rs` — addresses held by their XDR encoding.
- `src/host.rs` — the trusted calls into `soroban_sdk`: SHA-256 and XDR
  serialisation.
- `app/` — Soroban glue: contract storage, ledger time, authorization,
  events and the host's resource meters.
- `tests/` — tests of the library, run against the real Soroban host.
