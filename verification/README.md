# van

A small modal text editor for the terminal, with its logic verified by Verus.

- `src/` is the verified library: the document with its undo history, the keyboard and
  command line as a state machine, the screen as a list of drawing instructions, and the
  requests to and replies from the Groq assistant. Each function has a contract over the
  models in `state.rs`; `laws.rs`, `key_laws.rs`, `run_laws.rs` and `screen_laws.rs` state
  and prove what holds of the editor as a whole.
- `src/outside.rs` holds the few items that are taken on trust from std and crossterm.
- `app/` is the terminal program around the library: it reads keys, draws, and does the
  file and program work that the editor asks for.
- `tests/` runs the library on concrete values.

The editor never touches the world itself. `Editor::handle_key` returns an `Effect`; the
program carries it out and hands the `Outcome` to `Editor::resume`.
