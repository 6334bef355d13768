# ddc_validator

Verified logic of the DDC validator pallets of the Cere node.

`src/` is the library, written in Verus and proved against its contracts:

- `decimal`: reading a `u32` from text the way `str::parse` does, and
  writing a `u64` in decimal; writing then reading gives the number back.
- `randomness`: the subject that seeds the runtime's randomness (SCALE
  encoded with `parity-scale-codec`), the number read from a random seed,
  and rejection sampling of a validator index.
- `era`: eras of the data provider's clock and the blocks on which the
  offchain workers act.
- `aggregate`, `query`, `http`: the data provider's replies, the addresses of
  its queries, and which responses are accepted.
- `chain`: accounts, dispatch origins and stored validation results.
- `ddc_validator`: the storage of the DDC validator pallet with its block
  hook (assignment of a quorum of randomly drawn validators to each CDN
  edge, once per era, filled through `frame_support`'s `BoundedVec`), its calls, the proof-of-delivery round and the offchain worker, the
  last two as state machines.
- `dac_validator_offchain_worker`: the storage, call and offchain worker of
  the DAC validator pallet.

`app/` holds the FRAME pallets that keep this storage on chain and perform
the actions the state machines ask for: HTTP requests, JSON decoding, the
offchain clock, the keystore and the transaction pool.
