# slumber

Slumber hands a long shell command to a small local daemon, records how the
command ended, and wakes an existing agent session with a compact completion
event. Jobs run locally or on one SSH server.

This crate is written in Verus. `src/` is the verified library: every
decision the tool makes, each with a contract, and the laws that tie those
decisions together.

- `text`: character vectors, decimal numerals and their parsing, Unicode
  white space and trimming, substring search, line splitting, path joining.
- `records`: submissions, answers, job records, exit statuses, daemon
  requests; an environment with each name once.
- `clock`: the wall clock as whole seconds since the epoch.
- `paths`: the state directory, socket, jobs directory and job directories;
  job identifiers.
- `exit`: exit status records and how they read.
- `shell`: single-quoting for POSIX shells, with the proof that the shell
  reads a quoted value back unchanged.
- `remote`: SSH options and destinations, the detaching wrapper script,
  remote paths, reading the remote process number, the monitoring probe and
  its answer.
- `payload`: durations, the completion event and the wake-up command.
- `tmux`: the pane-size query, the log pane's open command (split along the
  submitting pane's longer side) and its close command.
- `supervisor`: a job record from submission to wake-up, the remote
  monitor's steps, pane warnings, recovery after a restart, retry of a failed
  wake-up.
- `daemon`: request handling, the count of supervised work, stopping, the
  protocol stamp.
- `listing`: the `status` listing and the newest-first order of jobs.
- `cli`: what `run` submits, the log-pane setting, `logs`, `update`, the
  daemon identity check and start-up polling.
- `init`: the handoff protocol added to an agent's instructions file. By
  agent name it selects only Codex's `AGENTS.md`; any other agent's
  instructions file is named with `--file`, and an interactive answer other
  than `codex` is taken as a path.

`app/` is the program around the library: argument parsing, the file
system, sockets, processes, SSH, tmux and JSON. It performs what the library
decides.

`tests/` runs the library on concrete values.
