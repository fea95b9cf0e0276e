# todox

A terminal todo list: tasks with priorities and due dates, a filtered and
searchable list, a task form, and interface texts in English, simplified
Chinese and custom JSON locale packs.

The library under `src/` is verified with Verus:

- `model.rs`: tasks, the store and its operations, the list order, search
  and filters.
- `app.rs`: what every key does in each screen, as a state machine whose
  steps return the file work to perform (`Command`); the `finish_*` methods
  take the outcome.
- `i18n.rs`, `catalog.rs`: the catalogs, custom packs and `{name}`
  placeholders.
- `storage.rs`: where the files live and what loading decides.
- `ui.rs`: labels, shortened texts, tones and dialog placement.
- `text.rs`, `clock.rs`, `error.rs`, `cli.rs`: text helpers, dates and
  instants, errors, command-line options.

`app/` is the program around it: the command line, the files, the terminal
and the drawing.
