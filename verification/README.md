# v_langx

Vector Language: a small language whose programs compile to the operations
of a deterministic kernel. Every successful change to the network state is
kept as an event, chained to the one before it by its hash.

The library under `src/` is verified with Verus:

- `lexer`, `parser`: source text to tokens to statements, each against a
  specification of the grammar (`lex_spec`, `parse_spec`).
- `compiler`: statements to kernel operations (`compile_spec`), including the
  authorization ratio of a certification, in exact basis points.
- `allocation`: proportional splitting of an amount over a vector's
  components with largest-remainder rounding, and its laws.
- `kernel`: one operation against the state (`kernel_step`), with the events
  it records (`next_event`); `history`: what every operation keeps of the
  event history.
- `runtime`: queries, record lookups, and whole runs (`run_ops`,
  `source_run`).
- `event`, `state`, `value`, `token`, `ast`, `error`, `strmap`, `text`: the
  data and their text forms.

`app/main.rs` is the command-line runner (`[--ast] [--events] <file>`).
