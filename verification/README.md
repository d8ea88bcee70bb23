# git_repo_manager

A git repository manager whose core is verified with Verus.

A task string such as `+host:repo@tree!open` names up to four entries of a
stack of TOML configuration layers. The library parses the task, resolves each
part to an entry (following manifest files and expanding `${...}` templates),
and says what running the result takes: opening or cloning the repo, adding
the tree's worktree, running the open's command.

Layout:

- `src/` — the verified library
  - `task.rs` — task strings: parsing and printing
  - `template.rs` — reading templates token by token
  - `bytes.rs` — byte-string helpers
  - `cli.rs` — the commands as values
  - `schemas/` — configuration entries, merging of layers, paths, repo manifests
  - `state/` — the stack of layers, queries, and the resolution of tasks
- `tests/` — tests of the library
- `app/` — the command line program: argument parsing, files, environment,
  git operations
