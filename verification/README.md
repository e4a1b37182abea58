# microclaw

The decisions of an agent that runs tools, written in Verus and proved, with the input and output
around them in ordinary Rust.

- `src/sandbox` decides where a shell command runs: on the host, or in a container of Docker or
  Podman. It names the containers, makes up the arguments with which they are inspected, started and
  entered, checks whether a directory may be mounted, and follows a command to its result.
- `src/mcp` drives connections to tool servers: it merges their configuration, settles how they are
  reached, keeps the list of their tools, and takes each call through rate limiter, queue, circuit
  breaker and retries.
- `src/skills.rs` answers requests about skills.
- `src/text.rs`, `src/clock.rs` and `src/table.rs` are what these are built on.
- `app/` runs processes, reads files, speaks to servers and answers web requests, as the library
  decides.
- `tests/` runs the library on concrete values.

Nothing in `src/` touches the outside world. Work that does is described by an action that a function
returns, and what came of it is handed back as an event, so each decision is a function from state
and event to the next state, with a contract. Functions whose name begins with `law_` state what
holds of all states and inputs.
