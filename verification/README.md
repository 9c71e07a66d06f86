# cargo-device

A Cargo subcommand that cross-compiles, deploys and runs Rust binaries on embedded
Linux devices, with its planning logic verified by Verus.

## Layout

- `src/` — the verified library. It takes parsed configuration and plain answers from
  the machine (is a tool on `PATH`, what is in a sync directory) and returns the commands
  to run, as `command::Invocation` values, with contracts that state them exactly.
  - `config` — the `[device.*]` tables and how `.cargo/device.local.toml` merges over
    `.cargo/config.toml`, with the merge laws (identity, idempotence, associativity,
    per-key `env`).
  - `device` — resolving a device: defaults, tilde expansion of host paths only,
    transport parsing.
  - `build` — the build backend (native, `cross`, SDK script, local toolchain) and its
    command and environment.
  - `deploy` — transport selection, the transfer plan, the `ssh mkdir`, `rsync` and
    `sftp` commands.
  - `listing` — the walk order of a sync directory's entries (by path, names sorted,
    a directory before its contents), with a verified sort.
  - `run` — the remote shell command and the local `cargo run`, and exit forwarding.
  - `remote` — quoting for the remote POSIX shell, with a model of how the shell reads
    a word back.
  - `resolve` — splitting arguments at `--`, `-p` and feature injection, the binary name.
  - `toolchain` — reading `rustup` output and toolchain pins for the `cross` check.
  - `strmap`, `text`, `command`, `error` — supporting types.
- `app/` — the program: command line, reading files, walking sync directories, running
  the planned commands.
- `tests/` — tests of the library.
