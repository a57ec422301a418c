# azcli

The logic of a small Azure command-line client, verified with Verus.

## Layout

- `src/` — the verified library.
  - `json`: the JSON documents the commands read and build (objects keep
    their keys sorted, each key once), with reading, writing and compact text.
  - `text`: string helpers with exact specifications.
  - `models`: the resource types and `VirtualMachine::to_flattened_value`.
  - `output`: table, TSV and coloured JSON text; the columns shown for each
    resource type.
  - `commands`: the request bodies and decisions of the `vm`, `vmss` and
    `bastion wait` commands (NICs, data disks, run commands, SKUs, ports).
  - `ws`, `tunnel`: WebSocket framing, the upgrade handshake, the relay
    decisions and the session bookkeeping of the Bastion tunnel.
  - `tui`: the terminal UI as a state machine: keys become actions, actions
    and fetched data move the app from state to state and name the fetch
    to run next. Its laws are in `tui/laws.rs`.
- `tests/` — tests on concrete values.
- `app/` — the I/O around the library: serde conversion, printing, stderr
  capture, drawing with ratatui, and the tunnel's sockets.

Calls into outside crates (`base64`, `url`, `uuid`) and a few std functions
stand behind small trusted wrappers, each with a doc comment saying what
its contract claims.
