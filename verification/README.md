# rust-expect

Terminal automation in the manner of Expect: patterns matched against a
program's output, dialogs that answer prompts, mock sessions for testing,
SSH session management, and the helpers around them.

The library is written in Verus. Its behaviour is stated in `requires` /
`ensures` contracts over mathematical models (sequences, maps, spec
functions) and proved.

## Layout

- `src/` — the verified library.
  - `expect/`: the output buffer, patterns (literal, regex, glob), the
    matcher, the regex cache, file-backed buffer arithmetic and chunked search.
  - `dialog/`: dialog definitions and a step-by-step runner.
  - `backend/`: PTY spawn preparation and the SSH side (authentication
    flow, known hosts, keepalive, retry, connection pool, resilient
    reconnection, channels).
  - `mock/`: scripted transports and scenarios.
  - `interact/`: interaction modes, escape detection, the interaction's
    decisions, terminal state.
  - `config/`, `auto_config/`, `encoding.rs`, `pii.rs`, `health.rs`,
    `metrics/`, `multi/`, `error/`.
- `tests/` — tests of the library.
- `app/` — the parts that touch the outside world: the environment, files,
  floating-point statistics, user callbacks, tracing, and the
  loops that perform what the library decides.

Outside crates are reached from `src/` only through small trusted wrappers
whose contracts say what the crate's documentation and source promise
(`regex`, `memchr`, and parts of `std`).
