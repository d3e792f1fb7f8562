# scheduler_core

The decision logic of a task scheduler that runs agent workflows over QA
items, written in Verus: each function states what it computes in its
contract, and Verus proves it.

## Layout

- `src/` — the verified library.
  - `text`, `scan`, `strmap`: strings, character scanning, and an ordered
    string-keyed map with a `Map` view.
  - `config`: the workflow, step and task model the scheduler reads.
  - `loop_policy`, `task_loop`: when a task loop starts, continues or stops
    a cycle, rapid-cycle detection, rollback and invariant decisions.
  - `segment`: grouping of a plan's steps into task- and item-scoped
    segments, and what each segment hands on.
  - `accumulator`, `spill`, `item_flow`: per-item step state (captures,
    status transitions, ticket seeding, builtin steps, final status) and
    spilling of large variables to files.
  - `phase`, `phase_command`: running a phase: prompt and command rendering,
    prompt delivery, heartbeats, waiting and timeouts, verdicts.
  - `sandbox`: classification of sandbox denials from exit status and stderr.
  - `graph`: scheduling of execution-graph nodes and edge decisions.
  - `selection`, `dynamic_items`: picking a winner among evaluated items, and
    generating new items from JSON text (parsed with serde_json).
  - `check`, `check_workflow`: preflight checks of a configuration.
- `tests/` — tests run against the compiled library.
- `app/` — the I/O around it: writing spill files, reading output logs,
  probing the file system for the checks, floating-point score ranking,
  check reports as JSON, and storing generated items in SQLite.
