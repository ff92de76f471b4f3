# rugit

A terminal interface for staging, committing and browsing a repository,
for git and for jj. Files are listed by section (untracked, unstaged,
staged, stashes, unpushed and recent commits); a file unfolds into its
diff, and a hunk, a single line or a visual selection of lines can be
staged, unstaged or discarded. A small vim-like editor writes commit
messages.

## Layout

- `src/` is the library, verified with Verus. Every function there has a
  contract over mathematical models (`Seq`, `Set`, `Map`, views):
  - `diff.rs`: hunk parsing and the patches built from a hunk or from
    chosen lines;
  - `app.rs`: the list of items, cursor movement, the diff cache, the log
    filter and what a cursor action stands for;
  - `session.rs`: key handling as a step from state and key to new state
    and a `Command` for the caller to perform;
  - `editor.rs`: the commit-message editor over `tui_textarea`;
  - `view.rs`, `window.rs`: what each line of the screen says, and which
    part of a long list is shown;
  - `backend/`: parsing of `jj` output, git status and branch ordering,
    and the choice of backend;
  - `laws.rs`: properties that span several functions, stated and proved.
- `app/` is the program around it: argument parsing, the terminal loop,
  calls to git and jj, drawing with `ratatui` and reading the config file.
- `tests/` runs the library on concrete values.
