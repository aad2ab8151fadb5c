# raft_service_rs

A Raft service for applications, built on openraft: a RocksDB log store, a
RocksDB-backed state machine store, a gRPC network between nodes, a
controller service, and an orchestrator that runs the application's services
while the node is leader.

The decisions of the service are a library verified with Verus (`src/`):

- `keys`: log indexes as big-endian RocksDB keys; the key order is the index order.
- `log_store`: range reads, log state, the key ranges that truncation and purging delete,
  and what reads return and the store keeps across appends, truncations and purges.
- `state_machine`: the last applied log id and membership, snapshot ids, snapshot installation.
- `snapshot_transfer`: cutting a snapshot into messages and joining it back.
- `pb`, `pb_impl`, `types`: the wire messages, the Raft types, and the conversions between them.
- `controller`, `lifecycle`, `config`, `network`, `text`: controller requests,
  leader-service lifecycle and shutdown order, Raft timing, endpoints, and text forms.

`app/` holds the asynchronous runtime around the library: the openraft storage
and network traits, the gRPC bindings, the clients and the orchestrator.

`app/` stores its data with the `rocksdb` crate, which `Cargo.toml` does not
list; `app/` builds only where that crate is added as a dependency.
