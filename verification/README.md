# dsorter

A background tool that watches a folder and moves new files into folders by their type.

- `src/` is the library, verified with Verus: commands (`cli`), configuration and the
  program's files (`config`), the daemon (`daemon`), categories (`types`), the extension map
  and paths in the home directory (`utils`), names that are not taken (`moves`), the log
  (`lines`), running at login (`install`).
- `app/` is the program: arguments, files, signals and the watcher.
- `tests/` runs the library.

The daemon and the loading of the configuration are written as steps: each takes the answer
to what was asked for and says what to do and what to ask for next. `daemon/model.rs` says
what each answer leads to, `daemon/run.rs` does it, and `daemon/laws.rs` proves what holds
whatever is answered.

What the library takes on trust from outside stands in `paths.rs` and `text.rs`.
