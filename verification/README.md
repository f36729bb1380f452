# eww-triad

A client for the Triad compositor's native IPC socket, and the `eww-triad`
binary that prints Triad's state as newline-delimited JSON for Eww's
`deflisten`.

The library in `src/` is verified with Verus: the requests it builds, the
replies and stream lines it accepts or refuses, the state it caches from
events, and the projection of that state for Eww widgets each carry a
contract, and the properties that span several functions are stated and
proved as lemmas beside them. JSON text itself is read and printed by
serde_json: `src/json.rs` calls it through two trusted functions whose
results are named (`parsed_json`, `json_error_text`, `json_text`), and every
contract that involves text is stated over those names.

- `src/json.rs` — the JSON values that travel over the socket, their model,
  and the trusted calls into serde_json.
- `src/protocol.rs` — native requests, reply checks, event accessors.
- `src/state.rs` — the cached state and how events change it.
- `src/view.rs` — the Eww projection, its printed form and how it reads back.
- `src/client.rs` — request names, the clients' socket paths, stream steps.
- `src/ipc.rs` — socket path resolution, reading a socket line as JSON, and
  the decisions of the streams.
- `src/cli.rs` — the binary's argument parsing that is not I/O (event
  lists, the `request` and `--payload` JSON texts).
- `app/` — the binary and the socket I/O (blocking and Tokio), with the
  serde, clap and thiserror forms of the library's types.
- `tests/` — tests of the library on concrete values.
