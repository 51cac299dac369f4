# polyws

A polyrepo workspace orchestrator: one `.polyws` file lists the repositories
of a workspace, their branches, their dependencies on one another and their
mirrors, and `polyws` clones, pulls, pushes, snapshots and mirrors them in
dependency order, from the command line or from a terminal UI.

## Layout

- `src/` is the library, verified with Verus. It holds the decisions of the
  program: the dependency graph (topological order, execution levels, the
  tree drawing), adding and removing projects, the git operations as state
  machines that name the next `git` command and take its outcome, snapshots,
  the sync daemon's schedule, the doctor's reports, the VM commands, the
  self-update logic and the key handling and screens of the terminal UI.
  Public proof functions named `law_*` state what holds across calls.
- `app/` is the program around it: argument parsing, files, processes,
  threads, the terminal, and the drawing. It performs what the library
  decides.
- `tests/` runs the library on concrete values.
