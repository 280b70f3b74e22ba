# ibc-gamm

A Verus library for the IBC gamm contracts: a contract on Juno that sends swap,
funding and spot-price requests as IBC packets, a contract on Osmosis that acts on
them through the gamm module, and two bookkeeping contracts (pool-manager and
pool-api) that follow Osmosis epochs.

Layout:

- `src/` is the verified library.
  - `wire.rs`: the Protobuf wire format (varints, keys, scalar fields) and the
    trusted calls into `prost::encoding`.
  - `proto.rs`: the Cosmos and Osmosis wire messages with their encoders, the
    decoders of the one-field responses, and type URLs.
  - `balancer.rs`: the reply to a pool query and the balancer pool, decoded field
    by field, with the read-back laws of coins, pool assets and `Any`.
  - `msg_read.rs`: the gamm messages and queries decoded field by field, with the
    law that each reads back from its own bytes as itself.
  - `types/`: the typed messages (`Msg`) and their conversions.
  - `response.rs`: the responses the contracts give, as plain data.
  - `juno.rs`, `osmosis.rs`, `pool_manager.rs`, `pool_api.rs`: what each contract
    decides on the messages and packets it receives.
  - `text.rs`: text comparison, decimal amounts, block time arithmetic.
- `tests/`: tests of the library on concrete values.
- `app/`: the CosmWasm entry points: storage, JSON, chain queries and the
  floating-point pool arithmetic, around the library.
