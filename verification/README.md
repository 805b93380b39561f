# ephemeral_rollups

A verified library for the token escrow programs of the ephemeral rollups
bridge and wrapper.

- `src/` is the library, checked with Verus. Each processor is a function
  from plain snapshots of its accounts and its instruction bytes to either
  the program error it fails with or the ordered steps it takes: writes to
  account data and calls into the system and token programs. Its contract
  states the outcome exactly, and proof functions beside it state the laws
  the escrows keep (tokens withdrawn equal the escrow's decrease, only the
  authority withdraws, a new escrow starts empty, created accounts are
  topped up exactly to the rent-exempt minimum, every record reads back as
  written).
  - `codec`, `state`, the `Args` types: the borsh layout of records and
    instruction arguments.
  - `account`, `pda`, `programs`: account checks, seeds and derived
    addresses, the runtime's program ids.
  - `cpi`, `instruction`: the steps and instructions the programs produce.
  - `run`: which step is carried out next, when a run stops (at the first
    step that fails or is refused), and what a data write leaves in the
    account.
  - `bridge`, `wrapper`: the two programs' processors and builders.
- `app/` runs the processors on the runtime: it snapshots the accounts,
  reads the rent sysvar, performs each step that `run::next_action` asks
  for (`invoke` / `invoke_signed`, data writes through `run::write_over`),
  and logs.
- `tests/` runs the library on concrete values, and compares its byte
  layouts and addresses with `borsh`, `solana_program` and `spl_token`.
