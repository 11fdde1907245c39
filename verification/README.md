# fdapquery

Physical query plans: the operators, what they compute on batches of rows, how
plans are drawn, what they measure while they run, and how they travel as
messages. The library under `src/` is written in Verus: every function states
what it returns, and Verus proves it.

## Layout

- `src/` is the library.
  - Data: `scalar`, `schema`, `batch`, `row_key`, `expr`, `aggregates`, `error`.
  - Plans: `plan`, `plan_properties`, `partitioning`, `plan_visitor`, and one
    module per operator (`*_exec`).
  - What operators do to batches: `limits`, `concat`, `sorting`, `group_table`,
    `join_table`, `hash_join_stream`. `join_laws` and `sort_laws` state what
    joins and sorts amount to.
  - Drawing: `display`, `plan_display`, `render_plan`, `tree_render`,
    `tree_layers`, `wrap`. `ascii_plans` states which plans can be drawn.
  - `metrics/`: counters, timers, ratios, the sets that hold them, the handles
    that operators record through, and their texts.
  - `proto/`: messages for plans and back. `round_trip` states what is read back.
- `app/` runs plans: streams, evaluation of expressions, sources and shuffle
  files around the library.
- `tests/` runs the library on concrete values.

## How an operator runs

An operator does not pull its input itself. Its `execute` checks the request and
returns the state that the run starts with; the caller hands in each batch, with
the values of the operator's expressions on it, and gets back what comes out.
Every step has a contract over the rows of the batches.

## What is trusted

A few functions of the standard library, `arrow` and `chrono` are called through
small wrappers whose contracts Verus takes as given: clocks, the text of floating
point numbers and dates, the lexicographic sort. Each wrapper's comment says what
is claimed of the function that it calls.
