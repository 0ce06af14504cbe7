# Rodeo

The logic of the Rodeo workspace frontend: entries with typed labels, saved
views with filters, sorting and a timeline, comments, automation rules and
workspace settings.

- `src/` holds the library. Every function states in its contract what it
  returns or changes, and Verus proves it. The public proof functions state what
  holds across several functions.
- `app/` is the browser application around it: pages, widgets, requests and
  local storage.
- `tests/` runs the library on concrete values.

JSON is read and written by `serde_json`. What the library takes for granted
about it stands in `src/json.rs`, `src/components.rs` and `src/settings.rs`;
what it takes for granted about characters and strings of the standard library
stands in `src/text.rs`.
