# meta_mystia_network

The core of a peer-to-peer network for a local area: nodes that share a
session find each other, connect, elect a leader and exchange messages. It is
written in [Verus](https://github.com/verus-lang/verus): what each function
does is stated in its contract and proved.

## Layout

- `src/` is the verified library. A node is a state machine: it is handed
  packets, timer ticks and the outcome of what it asked for, and says which
  packets to queue on which channel and which addresses to connect to.
  - `types`, `config`, `error`, `text`, `clock`: basic types.
  - `protocol`, `wire`, `messaging`, `buffer`: internal messages, their binary
    form, packets and compression.
  - `peer_map`, `membership`, `leader`: who is there and who leads.
  - `transport`: the table of connections, with `transport::codec` (framing),
    `transport::handshake` (who may connect) and `transport::reconnect`
    (backoff).
  - `session_router`, `discovery`, `callback`: where messages go, whom to
    connect to, what the application is told.
  - `network` puts these together; `ffi` is what C callers can do with a node.
- `tests/` runs the library, single parts and whole networks of nodes.
- `app/` drives a node with sockets, timers and threads, and exports the
  functions that C callers use.

## Laws

What holds across functions is stated and proved as proof functions whose
names begin with `law_`: that reading gives back what was written, that a
stream of frames is taken apart into its packets, that a node votes once per
term, that only nodes of the same session connect, that a message arrives
unchanged, and others.

## What is trusted

Calls into other crates stand behind small functions whose contracts are not
proved: `bytes` (buffers), `postcard` (binary form of single values),
`lz4_flex` (compression), `rand` (election timeouts) and the clocks of `std`.
