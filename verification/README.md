# Sassi

Typed in-memory pools of shared values, written in Verus. A pool (`Punnu<T>`) keeps
values by id, within a capacity and with optional times to live, and tells about every
change by events. Around it stand predicates on fields and JSON documents, lazy queries,
refresh by polling and by deltas, and a binary container for storage below the pool.

The library is plain sequential code: a clock reading is an argument, and what a write
tells the outside (events, samples) is part of its result. The async handles that add the
clock, the channels, the tasks and the files are under `app/`.

## Layout

- `src/punnu/`: the pool. `state.rs` holds the resident entries over the persistent
  collections of `im`; `model.rs` says over maps what each write comes to; `pool.rs` and
  `capacity.rs` are the writes themselves; `laws.rs` states what holds across them.
  `delta_refresh.rs` and `recovery.rs` are the state of a delta subscription,
  `subscription_laws.rs` its laws. `refresh.rs`, `fetch.rs`, `single_flight.rs`,
  `fetch_commit.rs` and `backend_write.rs` decide what the async handles do.
- `src/predicate/`: predicates on fields (`basic.rs`, `field_ext.rs`) with the operands that
  they carry (`operand.rs`), on JSON documents (`jsahibon.rs`, `json_path.rs`), and queries (`memq.rs`, `stable_order.rs`), with their
  laws in `memq_laws.rs`.
- `src/jsahibon.rs`, `src/json/`: JSON values. Numbers compare by their exact values;
  `binary64.rs` reads a float by its bits.
- `src/wire.rs`, `src/payload.rs`, `src/portable.rs`, `src/wire_laws.rs`: the container.
- `src/backend/`: storage keys, the memory backend, the entries of the file backend, and
  what a failing backend does to a call.
- `src/sassi/`: queries across pools.
- `src/text.rs`, `src/text_bytes.rs`: texts, and what matching them comes to over bytes.
- `tests/`: tests of the library from outside.
- `app/`: the async handles.

## What is trusted

Calls into `im`, `fastrand`, `dashmap`, `postcard` and a few functions of `std` stand
behind functions whose contracts are believed: `src/punnu/snapshot.rs`,
`src/punnu/random.rs`, and the functions marked so in `src/backend/memory.rs`,
`src/punnu/single_flight.rs`, `src/payload.rs`, `src/text.rs` and `src/wire.rs`. Each says
what it claims of the function that it calls.

A type of the user says by `Cacheable` how its values are identified, by `WirePayload` how
they become bytes, and by `DeltaSyncCacheable` where in their source they were written; what
is proved of them rests on what these impls ensure.
