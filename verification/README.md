# trident_fuzz

The verified core of a fuzzing framework for Solana programs.

- `address_storage`, `accounts_storage`, `token`, `token_2022`, `stake`:
  addresses a fuzz test works with, the accounts created for them: token
  accounts and mints (with token-2022 extensions), stake and vote
  accounts.
- `light`: a light in-process runtime: account storage, the buffer in
  which accounts are handed to a program and read back, the system
  program's instructions, and the stubs that serve cross-program calls.
- `fuzz_stats`, `execution`: statistics of a fuzzing run and what is
  recorded after each transaction.
- `config`: the arguments handed to honggfuzz and AFL, and the accounts and
  programs a fuzz test starts with.
- `snapshot`, `fuzz_data`, `error`: account snapshots around a
  transaction, the transactions of an iteration, errors.

`src/` is verified with Verus; `app/` holds what touches files, the
terminal and program entrypoints; `tests/` exercises the library.
