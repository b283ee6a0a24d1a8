# caravan

A tool for moving a large data set from one volume to another in batches: each batch is
copied, verified against its source, and only deleted from the source after an operator
approves it. Runs can be interrupted and resumed; the state of every batch is kept in a JSON
file under `.caravan/` in the source directory, and a registry records every migration.

## Layout

- `src/` is the library, verified with Verus. Its contracts describe, among other things:
  - planning: how the source files are ordered and cut into batches (`plan`), and how a
    recorded batch manifest is compared with a new plan;
  - the per-batch state machine of a transfer and of a resumed run (`workflow`, `resume`),
    including the fail-closed rules for deletion (`cleanup`, `prompt`);
  - the naming-conflict guardrail (`conflict`, `workflow::batch_flow`): files whose
    destination already exists are never handed to the copier;
  - capacity decisions, preflight filesystem checks and `/proc/self/mountinfo` parsing;
  - the migration registry with its announce-then-commit status transitions;
  - command-line validation and size parsing, and the exact rendering of byte sizes.
- `app/` is the executable: argument parsing with clap, JSON persistence with serde,
  filesystem access (scanning, copying, hashing with BLAKE3, free space with fs2, directory
  listings), terminal prompts and progress output. It feeds what it reads to the library and
  carries out the library's decisions.
- `tests/` exercises the library on concrete values.
