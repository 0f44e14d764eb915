# Continuum Studio core

The decision logic of the Continuum Studio desktop app, verified with Verus:
what each message of a panel does to the panel's state and which requests it
makes, the parsers of the `/proc` files that session metrics come from, the
offline operation queue, and the text the app shows.

- `src/` is the verified library, one module per concern (`task_board`,
  `chat_pipeline`, `feed`, `triage`, `core_state`, `settings`, `monitoring`,
  `offline`, `studio`, `launch`, `workspace_files`), with `text` and `units`
  holding the shared text and number formatting.
- `tests/` runs the library on concrete values.
- `app/` is a small command-line front end that does the reading and writing
  (processes, files, `busctl`, `du`) and hands the results to the library.
