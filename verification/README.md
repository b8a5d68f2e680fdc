# bgrun

A background process runner: a command line that talks to a per-user daemon
over a Unix socket. The daemon starts jobs (piped or in a pseudo-terminal),
records their output as JSON lines, tracks readiness, restarts jobs by policy
and answers `tail`, `diff`, `wait`, `expect`, `kill` and the other commands.

## Layout

- `src/` is the verified library. Every decision the program makes lives
  here with a contract proved by Verus: the job state machine and the job
  store, the request model, name and prefix resolution, log line selection,
  digests, rotation and export, restart backoff, the readiness checkers, the
  answers the daemon computes, the command line's argument assembly and its
  human-readable output, and the detach sequence of `attach`.
  Calls into `chrono`, `regex`, `strip-ansi-escapes`, `crossterm`,
  `directories` and `nix` stand behind small trusted wrappers whose
  contracts are written next to them.
- `app/` is the executable around it: argument parsing, the socket server,
  process spawning, file I/O, timers and the interactive menu. It hands the
  library plain values and acts on what comes back.
- `tests/` runs the library on concrete values.
