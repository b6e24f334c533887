# tms

The command line of `tms`, a manager of `tmux` sessions for git repositories and their worktrees.

- `src/` is the verified library. It declares the command line (`grammar`), reads a parsed one
  (`request`) and decides, step by step, what a subcommand does (`handle`, with one module for each
  subcommand). Paths are expanded in an environment that the caller hands over (`expansion`). A step
  holds effects to carry out and then a question or the outcome (`protocol`). Laws about all inputs and
  whole runs stand in the modules whose names end in `laws`.
- `app/` reads the environment, parses arguments with `clap`, carries out the effects and answers the
  questions with `tmux`, `git2` and the file system.
- `tests/` runs the library on concrete values.

What is taken on trust from other crates and from the standard library stands in `src/outside.rs`,
with the declaration of `PathBuf` in `src/config.rs`.
