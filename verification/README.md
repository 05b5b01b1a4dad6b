# smalux-agent

Decisions of a monitoring agent, verified with Verus: a job scheduler and the service that samples
metrics, reports them to a server and carries out what the server asks for.

- `src/scheduler`: jobs with one-shot, interval and cron triggers. The engine is a state machine;
  every operation states the next state and the effects that a runtime has to carry out.
  `engine/laws.rs` holds what is true of the engine as a whole.
- `src/service`: sampling, reporting, delivery over a connection that may fail, commands of the
  server, remote tasks, probes and interactive sessions. Each loop is a function from state and
  event to next state and action.
- `src/tasks.rs`: the built-in tasks and their stable names.
- `src/text.rs`: numbers and white space in texts.
- `tests`: the library on concrete values.
- `app`: the runtime around the library: clocks, timers, channels, sockets, processes and terminals.

Instants and lengths of time are nanoseconds in `i128` and `u128`. Calls into other crates stand
behind small functions whose contracts are trusted; their doc comments say what is claimed.
