# desktop_stream

A desktop streaming toolkit: a sender captures (or synthesises) frames,
scales and encodes them and sends them over UDP; a receiver reassembles,
decodes, queues and presents them; a harness simulates latency scenarios.

## Layout

- `src/` — the library, verified with Verus.
  - `network/` — the wire messages, fragmentation and the adaptive packet
    sizer, frame reassembly, the jitter buffer, socket-address parsing,
    endpoint configuration, and the sending and receiving session state
    machines. `network/delivery.rs` states what the receiving side makes of
    the packets a sender emits for a frame.
  - `codec.rs`, `codec/h264.rs` — the codec that frames pass through, NAL
    unit scanning and the decoded-output buffering policy.
  - `sender/`, `receiver/` — configuration (defaults, command-line
    overrides, normalisation, validation), pipeline decisions (scaling,
    retry policy, render queue, decoding), metrics windows and the
    decisions of the control windows.
  - `perf.rs` — the deterministic parts of the benchmark harness.
  - `text.rs`, `clock.rs`, `error.rs` — text helpers, clock readings, errors.
- `app/` — the programs: sockets and tasks, JSON configuration files,
  command lines, logging and the floating-point simulation.
- `tests/` — tests of the library.
