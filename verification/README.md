# orbit

`orbit` is the system-management CLI of OrbitOS / NixOS: rebuilds through
`nh`, a package runner on `nix search`, a desktop-shell switcher, git sync of
the configuration, `age`-encrypted SSH secrets, installation, and the sync of
Antigravity IDE conversation summaries.

The rules of the program (what each command does, the steps it takes in
order and every command line it runs) are a library verified with Verus; the
program around it runs the steps, reads and writes files and talks to the
user.

## Layout

- `src/` — the verified library.
  - `proto.rs` — protobuf wire format: varint and field encoders, the parser,
    and laws that what is written reads back.
  - `chats.rs` — conversation titles and metadata, and the base64 protobuf
    payload of trajectory summaries.
  - `encoding.rs` — base64 text and version 5 UUIDs (through `base64` and
    `uuid`).
  - `cli.rs`, `dispatch.rs` — the command line, the legacy rebuild argument
    parser, and what each invocation does.
  - `rebuild.rs` — rebuild options and the command lines of each rebuild step.
  - `selection.rs` — package search results, the package selection parser,
    and orderings.
  - `shell.rs`, `secrets.rs`, `ssh.rs`, `install.rs`, `util.rs`,
    `animation.rs` — the rules of the other subcommands.
  - `text.rs` — character-level string operations.
- `tests/` — tests of the library.
- `app/` — the program: argument parsing with clap, processes, files,
  SQLite, and terminal output.
