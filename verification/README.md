# rust_workshop

A Rust workshop in four parts — language lessons, a command-line crypto
portfolio tracker, a small portfolio web service and a set of crypto
primitives — whose logic is written and proved with Verus.

## Layout

- `src/` — the verified library. Its functions carry `requires` /
  `ensures` contracts that Verus checks against their bodies, with two
  exceptions: the small wrappers around outside crates and std (marked
  `external_body`) have contracts that Verus believes without proof, and
  the `Describable` trait leaves what `describe` returns to each
  implementation.
  - lesson material: `ownership`, `data_types`, `traits`, `network`, `auth`,
    `config`, `services`, `engine`, `generics`, `closures`, `testing`,
    `smart_pointers`, `oop`, `strategy`, `patterns`, `collections`, `text`;
  - the tracker: `portfolio` (symbol ids, price-service addresses, reading
    replies) and `portfolio::holdings` (one amount per symbol, kept in the
    byte order of the symbols, viewed as a map);
  - the web service's decisions: `web::*` (error answers, password and token
    checks, refresh decisions, portfolio rules, price lookups);
  - `crypto`: hashing, secp256k1 keys and signatures, Ethereum addresses,
    BIP-32 derivation and BIP-39 mnemonics, each outside call behind a small
    trusted wrapper whose contract names what the crate computes; those
    contracts are read against the crates' sources, not proved.
- `tests/` — executable tests of the library.
- `app/` — the program around the library: lesson walk-throughs, the
  tracker's command line and storage, the crypto walk-through, and the axum
  service with its database. Floating-point amounts and prices, I/O, threads
  and randomness live here.

Run `rust_workshop lesson <n>`, `rust_workshop portfolio <add|remove|list|total>`,
`rust_workshop crypto` or `rust_workshop serve`.
