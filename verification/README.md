# mcp_edge_gateway

An edge gateway for the Model Context Protocol, with its core written in
Verus and proved against its contracts.

Layout:

- `src/` — the verified library: error classification and recovery
  strategies, circuit breakers, retry schedules, rate limiting, the gateway's
  caches and connection pool, request admission, host counter parsing, the
  offline request queue, load balancing, model loading decisions, the model
  cache on the `lru` crate, and the pipeline guard's state, alerts and
  recovery bookkeeping. Each module states its model in spec functions and
  views; the laws that span several operations are public proof functions.
- `tests/` — tests of the library on concrete values.
- `app/` — the executable around the library: configuration with fractional
  settings, reading the host's counter files, timers, channels and the
  asynchronous monitoring and recovery loops.
