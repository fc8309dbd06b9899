# sayiir

The core of a durable workflow engine, verified with Verus.

A workflow is a tree of tasks, forks, delays, signals, routes, loops and child workflows.
The library builds such trees and rejects ill-formed ones, fingerprints them, stores and
rehydrates them, keeps the state of running instances in snapshots, says what the
persistence backends read and write, and expands the macros that define tasks and
workflows. Every function of it is proved against its contract.

## Layout

- `src/` is the verified library. `tree.rs` holds the mathematical model of a workflow,
  `snapshot.rs` that of an instance; the other modules state their contracts over these
  two. What holds across functions is stated as `law_*` proof functions, next to the
  functions they are about or in the `*laws.rs` modules.
- `tests/` runs the library on concrete values.
- `app/` is the runtime around it: task functions and futures, JSON codecs and the serde
  forms of stored values, contexts, the calls to DynamoDB and SQLite, and the entry points
  of the macros.

## What is trusted

The library calls a few functions of other crates and of `std` behind wrappers whose
contracts are believed: the clock and the calendar of `chrono`, SHA-256 of `sha2`, the
readers of Rust fragments of `syn`, fresh ids of `ulid`, and the character properties,
case mapping and debug texts of `std`. Each wrapper says in its doc comment what it claims.
What `syn` reads depends on the process it runs in: it is kept with the tokens, and the
grammar of the macros is proved for everything that may have been read.

Task functions are known by handles. Times come in as arguments where a function decides
something about them; a variant without that argument reads the clock.
