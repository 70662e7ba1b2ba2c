# andromeda

The decision logic and arithmetic of a family of CosmWasm contracts (a
lockdrop, NFT auctions and crowdfunds, cw721 tokens with transfer agreements
and offers, address lists, a gumball machine, cw20 tokens and their staking,
a fixed multisig, a token factory, Astroport and Anchor front ends, NFT
transfers over IBC), written as functions from loaded state and an incoming
message to the state to store, the messages to send and the response
attributes, each with a contract proved by Verus.

- `src/` holds the verified library, one module per contract, plus the shared
  values (`common`), fixed-point arithmetic (`math`) and a keyed store (`kv`).
  Laws that relate several operations are public proof functions beside the
  operations they speak of.
- `tests/` runs the library on the contracts' own scenarios.
- `app/` holds the wire forms of messages, which carry serde derives.

The library calls `cosmwasm-std`, `cw3`, `cw-utils` and `semver` where the
contracts do, and std for lowercasing and for the `Debug` text of a string;
those calls are the trusted edge of the proofs.
