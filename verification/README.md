# chronos

A timestamp service hands out 64-bit timestamps that never repeat and only rise along a timeline.
This crate is its core: the decisions, the data it keeps and the bytes it exchanges, each with a
contract that Verus proves.

## Layout

- `src/tso.rs`, `src/runtime/` - timestamps, generators and their leases, the cache of timelines.
- `src/metadata/` - records, keys, ownership plans, identities and the in-memory store.
- `src/metadata/etcd/` - the store in an etcd cluster. Each operation that asks more than one
  question is a machine: `start` gives the first question, `on_reply` takes an answer and gives the
  next question or the result.
- `src/rpc/` - what the services read and write, error details in protobuf form, route watches.
- `src/planning.rs`, `src/recovery.rs`, `src/process_runtime.rs` - placing timelines, recovery floors,
  configuration of the process.
- `tests/` - the library at work on concrete values, among them an etcd emulation that drives the
  machines.
- `app/` - the asynchronous side: locks, sockets, streams, metrics and logs. It answers the machines'
  questions and does what they ask.

## What is proved

Contracts speak of views: texts are sequences of characters, stores are maps, records are plain
values. Properties that span several functions stand beside them as public proof functions, for
instance that allocations never overlap, that keys of different requests never collide, that a watch
delivers nothing twice and misses nothing, and that what is written is read back. Those about the
etcd store are stated over a model of a transactional store (`src/metadata/etcd/store.rs`): what is
asked of the store keeps its indexes in step with its records, late writers change nothing, a lock
has one holder, and a cleanup deletes what is due up to its limit.

Calls into other crates (`dashmap`, `prost`) and into parts of the standard library stand behind
small trusted functions; the comment above each says what is taken on trust.
