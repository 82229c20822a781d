# hako

Runs agent loops in ephemeral sandboxes: a kernel drives a coding agent
through iterations over one workspace, verifies what it claims, and pauses
where a human has to decide. The library is verified with Verus; every effect
it needs is asked of a host, which performs it and answers.

## Layout

- `src/` is the verified library.
  - `kernel`, `bracket`, `invocation`, `verify`, `skeptic`, `ending`: the
    machines every kernel is made of.
  - `pipeline/`, `fanout/`, `ralph/`, `kernels`: the kernels themselves.
  - `json`, `wire`, `fault`, `event`, `dto`, `report`, `progress`: what goes
    over the wire and into the log, and what a document is refused for.
  - `secrets`, `scrub`, `sink`: secrets, and their redaction from everything
    that is recorded.
  - `store`, `projection`: a run's directory, its log, and what the log says.
  - `workspace`, `prepare`: the repository a run works on.
  - `cli`, `client`, `attach`, `config`, `daemon`: the command line's decisions.
  - `testkit/`: sandboxes, agents and sinks that follow a script.
- `tests/` runs the library, whole loops included.
- `app/` is the program: argument parsing, files, processes, the network, and
  the host that performs a kernel's effects.

## Reading the contracts

A machine has a spec predicate (`steps`, `answered`, `decides`) that says where
each reply takes it; its step function is proved to follow it. What holds of
whole runs is stated in public proof functions next to the machines, most of
all in `pipeline/laws`, `bracket`, `ending`, `store` and `attach`.
