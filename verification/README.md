# pgcluster

A high-availability PostgreSQL proxy and cluster manager whose decisions are
verified with [Verus](https://github.com/verus-lang/verus).

- `src/` is the library. Every rule of the cluster stands here, with a contract
  that Verus proves: the replicated topology and its commands, failover and
  switchover, health monitoring, backup scheduling, the PostgreSQL wire protocol,
  statement routing, connection pooling, configuration, the REST answers and the
  command line.
- `app/` is the program around it: sockets, gRPC, HTTP, the Raft log on disk, S3,
  certificates and the command-line parser. It performs what the library decides
  and hands back what came of it.
- `tests/` runs the library.

## How the library is laid out

| Module | What it holds |
|--------|---------------|
| `raft` | the topology, the commands that change it, the state machine, log keys, timing, the watch |
| `failover`, `switchover` | plans, and the phases a failover or a hand-off goes through |
| `node_monitor` | what follows from the health check of a node |
| `proxy` | messages, statement classes, routing, sessions, the pool |
| `backup` | which backup is due, from where, under which key |
| `config` | the configuration and its validation |
| `api`, `cli` | what the REST API and the command line answer |
| `tls`, `agent_clients`, `server`, `ops`, `metrics_registry` | smaller parts of the server |
| `table`, `text`, `numerals`, `big_endian`, `calendar`, `clock` | shared building blocks |

Text is modelled as `Seq<char>`, and a table of names as a `Map`. Laws that relate
several functions are public proof functions named `lemma_…`, next to what they
speak of; those on the topology and on the wire protocol have files of their own,
`raft/laws.rs` and `proxy/laws.rs`.
