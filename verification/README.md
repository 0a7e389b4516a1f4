# deepcanvas-core

The `deep` command line client for DeepCanvas: device login, linking a
directory to a project, listing and pulling task context into `.deep/<code>/`,
and completing tasks with a report of the agent session's token usage.

- `src/` is the library, verified with Verus: task codes and project slugs,
  request paths, API error answers, error messages and hints, the task
  Markdown written by `deep pull`, the task table, `.gitignore` updates, the
  active-task marker and credential files, the login poll loop's decisions,
  and the usage summed over session transcripts.
- `app/` is the program around it: argument parsing, HTTP, the keychain, the
  file system, terminal output and self-update.
- `tests/` runs the library on concrete values.
