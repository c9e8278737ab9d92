# telekio

Telekio runs Tokio programs with their runtime provided by a host. This crate
holds the verified core of its build tooling and of its runtime interface; the
contracts and laws in `src/` are checked by Verus.

## Layout

- `src/` — the verified library:
  - `toml_value`, `json_value` — TOML and JSON documents as the `toml` and
    `serde_json` crates read them; `manifest::document` turns a TOML document
    into a manifest and back.
  - `manifest`, `package`, `guest` — Cargo manifests as lists of keyed values,
    and the edits that turn Tokio's manifest into the patch crates; `package::fresh`
    and `guest::package::fresh` prove that a freshly written patch is current.
  - `source`, `invocation`, `compiler`, `linker`, `path`, `bytes`, `text` —
    fetching Tokio's source step by step, reading Cargo's command, the compiler
    proxies' settings, and linker records.
  - `edit` — the choices that the syntax-tree edits make (which match, which
    replacement, which comma goes with a use tree).
  - `abi`, `hooks`, `timing`, `lifecycle`, `task_id`, `histogram` — the runtime
    interface: call results, task hooks, poll timing, wake-up lifecycles, task
    IDs, and the builder settings a guest hands its host.
- `tests/` — tests of the library on concrete values.
- `app/` — the unverified side: files, processes, environment, and the
  syntax-tree edits.

## Paths

Paths are modelled with Unix syntax: `/` is the only separator and there is
no drive or UNC prefix. On a Windows host, where `std::path` also splits at `\`
and knows prefixes such as `C:`, the linker proxy's path tests can answer
differently for paths written that way. Where the library asks `std::path` for a
parent directory, its contracts pin the answer down for portable paths (no `\`,
no `:`, no leading `//`), on which every host agrees.

