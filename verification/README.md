# electrs_pivx

PIVX support for an Electrum server, written in Verus: the decisions are
stated as `requires`/`ensures` contracts and proved.

## Layout

- `src/` — the verified library.
  - `chain_kind`: which chain the server runs on.
  - `config`: network selection, directories, default ports, magic bytes,
    RPC authentication and the checks that reject a configuration.
  - `json`: a JSON value model with objects kept as ordered lists of members (insertion order).
  - `daemon`: normalisation of pivxd `getnetworkinfo` / `getblockchaininfo`
    replies, header reading from RPC replies, daemon polling and node checks,
    mempool summaries, header-sync ranges and batches, cookie parsing,
    transaction and block decoding from hex replies.
  - `daemon_pivx`: the PIVX daemon handle and block-hash replies.
  - `encoding`, `consensus`: hex text and the `bitcoin` crate's parsers and
    decoders, behind trusted wrappers whose contracts say what the crates do.
  - `pivx`: chain parameters, script classification, coinstake, cold-stake,
    Zerocoin and Sapling detection, and transaction parsing.
  - `text`: small string helpers (number parsing, splitting).
- `app/` — the program around the library: command-line reading, address
  resolution, logging and the RPC calls themselves.
- `tests/` — tests of the library on concrete values.
