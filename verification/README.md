# pyrin_contracts

The smart-contract layer of the Pyrin node, written in Verus: executable Rust
whose behaviour is stated in `requires`/`ensures` contracts and proved.

- `src/` is the verified library. Each module states its data as mathematical
  views (`Seq`, `Map`-like association lists, integers) and proves every public
  function against them. Laws that relate several operations (a read after a
  write, a rollback, a transfer, a query) stand as public proof functions.
- Outside crates are reached through a few trusted items, each with a doc
  comment saying what is assumed: `sha3` (Keccak-256), `hex`, `indexmap` (the
  slots of a contract's state) and `wasmi` (running contract modules). Modules
  run with fuel metering on: a run gets as much fuel as its context has gas
  left, so every run ends.
- `app/` holds what cannot be verified: Borsh/serde encodings of payloads and
  RPC messages, `std::error::Error` for contract errors, and the `contract`
  command of the command-line wallet.
- `tests/` runs the library on concrete values.
