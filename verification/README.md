# restart_that_thang

Restarts docker containers according to their labels: on an interval or at a time of day,
when a container they watch restarted, or when a container they watch became unhealthy.

The library under `src/` is verified with Verus:

- `text` — character-level text handling (lines, trimming, words, decimal numbers) with its
  specification over `Seq<char>`.
- `time` — instants, spans and times of day, and the clock, calendar and parsers of `chrono`
  behind trusted wrappers.
- `configuration` — the settings read from the environment.
- `controller::label_parser` — what a container's labels say.
- `controller::schedule`, `controller::basic_schedule` — when a scheduled restart is next.
- `controller::container`, `controller::cache` — the tracked containers, one per name.
- `controller::fetch` — which listed containers are monitored, and what `docker inspect`
  reports of them.
- `controller` (with `graph`, the `petgraph` wrappers) — the dependency order of the
  containers.
- `controller::restart` — one cycle of restart decisions, as a state machine.
- `routes` — the health check endpoint's answers.
- `startup` — the application and its settings.

`app/main.rs` runs docker, the timers, the logging and the health check socket around it.
