# gitsearcher_ui

The logic of a small desktop front end that runs a repository scanner, lists
the git repositories it finds, and shows a repository's recent history.

- `src/` is the verified library: ordering and stable sorting of the
  repository table (`order`, `sort`), the window's state and how each user
  action and worker message changes it (`app`), reading `git log` output
  (`git_log`), the scanner's command line and messages (`scanner`), settings
  (`config`), text helpers (`text`) and captions (`utils`).
- `app/` is the egui window, the worker threads, process and file I/O, and the
  serde copies of the library's types.
- `tests/` runs the library on concrete values.
