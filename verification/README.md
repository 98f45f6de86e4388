# Binderbase

Local-first trading-card-game scanner and collection manager (Magic: The
Gathering and Pokémon TCG).

The crate is written in Verus: every function in `src/` carries a contract
that the verifier proves.

- `src/` — the verified library: domain types and errors, CSV import and
  export, the perceptual-hash matcher and its ranking, the import and index
  controllers, the decisions of the bulk catalog import (batching,
  pagination, progress and run logging), card/price conversion of the game
  APIs' responses, and the small text utilities they rest on. Calls into
  the `csv`, `image` and `uuid` crates sit behind trusted wrappers whose
  contracts are documented where they are declared.
- `tests/` — tests of the library, run against the compiled crate.
- `app/` — the application shell: SQLite (`rusqlite`), HTTP (`reqwest`),
  the OS keychain (`keyring`), the async runtime and the JSON shapes the UI
  exchanges. It holds no rules of its own; it calls the library for them.

## Collections

Two places keep plain vectors where a hash map or set would be the usual
choice: `InMemorySecrets` holds its entries as a `Vec<(String, String)>`
read last-wins (its contents are the map `entries_map`), and
`distinct_cards` removes duplicate `(game, card id)` pairs by a linear
search. The verifier's specification of std's `HashMap`/`HashSet` does not
let contracts about `String` keys be proved (not even that one insert gives
length one), so a vector with a stated map or set meaning stands in for
them; both hold a handful of items.
