# dnsflow

Per-application DNS routing: a local DNS proxy that answers each query
through the upstream server chosen by the rules for the process that sent it.

The library under `src/` is verified with Verus. Its public functions
carry contracts; where a result depends on what `/proc` or another outside
source gave, the contract says what holds of every outcome, and a public
function that takes what was read states the rest exactly. The properties
that span calls are stated as proof functions.

- `rules` — the rules engine: rule matching in order, session bindings,
  the walk up the process tree (at most ten levels), caches.
- `proxy` — the proxy's decisions: attributing a datagram to a process,
  reading the question, the upstream, the answer and the query-log entry,
  and the order in which listen addresses are tried at start.
- `wire`, `packet` — the shim's DNS query/response codec and the
  recognition of captured Ethernet/IPv4/UDP DNS queries.
- `process` — processes from `/proc`, socket ownership, the name cache and
  the process monitor.
- `launcher`, `detect`, `shim`, `commands`, `policy` — launching
  applications in a mount namespace, reading the system's DNS servers, the
  shim's settings, the decisions behind the interface's commands, and the
  Firefox policy document that turns off its own DNS-over-HTTPS.
- `config`, `querylog`, `common`, `ebpf`, `state`, `text` — settings
  storage and import, query-log batches, the kernel probe's record, the BPF
  map registry, the shared records and string helpers.

`app/` is the service around the library: SQLite storage, the tokio socket
loops, the hickory resolver, the aya probe loader, file and process I/O.
