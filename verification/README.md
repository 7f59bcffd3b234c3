# devcontainer runtime, verified

A library for the runtime of a dev container command line tool, written in
Verus. Its functions carry `requires`/`ensures` contracts over mathematical
models (`Seq`, `Map`-like entry lists, views of JSON and YAML values), and
Verus proves every body against its contract.

## Layout

- `src/` — the verified library. Dockerfile analysis (`dockerfile`), mount
  handling (`mounts`), engine and compose arguments (`engine`, `compose`,
  `compose_override`, `compose_definition`, `compose_services`,
  `compose_profiles`, `compose_project`), finding and starting containers
  (`discovery`, `engine_run`, `up_container`, `inspection`), the remote user
  (`user_resolution`, `uid_update`), `exec` and lifecycle commands, and JSON
  and YAML values (`json`, `yaml`). Engine and compose processes are reached
  through closures the caller passes in; each contract states the request a
  closure is given and what the result is for every answer it gives.
- Calls into `serde_json`, `serde_yaml` and `sha2` stand behind a few trusted
  wrappers whose contracts name what the outside function returns.
- `tests/` — tests that run the library with the real outside crates.
- `app/` — the host side: processes, files, the terminal and floating-point
  option values.

## Checking

Verus verifies `src/`; the tests run with `cargo test`.
