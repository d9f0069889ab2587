# nexus

Building blocks for low-latency, multi-process systems: streaming integer
statistics, shared-memory segments and rings, a three-segment append log
with crash recovery, and a sans-IO TLS codec. The library in `src/` is
verified with Verus; `app/` holds the operating-system side.

## Layout

- `src/stats/` — integer monitors (liveness, jitter, drawdown, running and
  windowed extremes, peak hold, max gauge, CoDel, differences) and clocks.
- `src/net/` — TLS buffer capacities and the TLS codec over a rustls client
  connection.
- `src/platform/` — mapping options, the shared-memory naming rule and the
  length, bounds and `mmap` argument decisions.
- `src/shm/` — the segment control block and its create/attach checks, the
  SPSC ring's layout and cursors (with a single-process model whose
  `lemma_ring_history` proves FIFO order under any interleaving), and
  the segmented log: frame codec, manifest codec, log offsets,
  append/read/scan/rotate/recover, session ids and the conductor's
  decisions.
- `tests/` — scenario tests against the library.
- `app/` — mappings, file locks, process leases, mapped segments and rings
  with atomics, the conductor thread and file-backed sessions, and the
  floating-point statistics.

## Not covered

- The write-ahead journal (`Journal::open`): its writer, reader, frame
  and header modules are not among this project's sources, so what they
  compute cannot be stated here.
- `TlsCodec::process_into`, which hands plaintext to the WebSocket
  `FrameReader`, whose module is likewise not among this project's
  sources.
