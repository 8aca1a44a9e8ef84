# fluxpeer

The logic of a mesh node, verified with [Verus](https://github.com/verus-lang/verus): what a node
decides about its peers' paths and sessions, how packets find the worker that owns a peer, how
bonded connections are chosen and replaced, and which steps a host takes for routes, name servers
and packet filters.

- `src/` is the library. Sockets, tunnels, cryptographic sessions and processes stay outside: the
  library is told what happened, as plain values, and answers with what is to be done.
  - `codec`, `wire`, `text`, `words`, `ipv4`, `json`, `parse`, `digest`, `assoc`: bytes, texts and
    documents.
  - `health`, `bond`, `anytls`, `tcp_bond`, `transport`: connections and bonds of connections.
  - `mesh`: the data plane: peers and their ladder of transports, the periodic check, workers,
    routing, batches, and the network's members.
  - `node`: everything around it: the control server, relays, joining, the daemon, the status, and
    the host's routes, names and filters.
- `tests/` runs the library from outside.
- `app/` is the program around it: the command line, sockets, the tunnel and the daemon's API. What
  it needs of the other crates of the workspace, it has through the traits in `app/engine.rs`.

Each module ends with the laws that span its functions, as public proof functions: that a revoked
peer is routed nowhere, that two ends never begin a handshake at once, that what is written is read
back, that a host gets back the routes, options and filters that it had.
