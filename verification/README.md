# ail_core

The core of the `ail` pipeline runtime, written in Verus: pipelines of
prompt, shell, sub-pipeline, loop and join steps, loaded from YAML, validated,
and run step by step against a runner.

## Layout

- `src/` — the verified library.
  - `error` — the error model: kinds, stable `error_type` names, context,
    recovery strategy.
  - `config` — configuration: the file shapes (`dto`), the validated domain
    (`domain`), validation (`validation`, with conditions, `on_result`,
    regex literals and cycle detection), inheritance and hooks
    (`inheritance`), and the discovery decision (`discovery`).
  - `template` — `{{ variable }}` rendering against a running session.
  - `session` — the run state and its turn log.
  - `executor` — the run itself: the step loop and its laws (`engine`),
    conditions and `on_result` (`condition`), JSON Schema checks
    (`schema`), async branches and joins (`parallel`), timestamps and their
    order (`timestamp_order`).
  - `materialize`, `formatter`, `protocol`, `logs`, `delete` — rendering a
    pipeline back to YAML, rendering a run as a log, the control protocol,
    log queries (with tool events placed on their rows) and run deletion.
  - `project` — the SHA-1 name of a project's state directory.
- `tests/` — tests run against the compiled library with the real outside
  crates.
- `app/` — the parts that do I/O: file loading and discovery, reading the
  working directory, the SQLite run store, the controlled-run event channel, shell commands, sampling settings
  (floating point).

Outside crates are reached from `src/` only through small trusted wrappers,
each documented with what its contract claims of the call it makes.
