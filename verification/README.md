# hive

The logic of the hive service orchestrator and its job executor, verified with Verus.

- `src/` — the library. Each module holds a part of the logic with contracts over
  mathematical models: configuration and its validation, dependency ordering, variable
  interpolation, plugin defaults, the service proxy (routes, middleware, error pages),
  DNS records, observability (events, log buffer, log formatting), file flags, the job
  executor (job store, job runs, container set-up, output delivery), the daemon's
  answers and client sessions, and cocoon requests from the signaling server. Calls into
  outside crates (`sha2`, `hmac`, `hex`, `base64`, `chrono`, `http`) and into `std`
  where `vstd` gives no specification stand behind small trusted wrappers whose
  contracts name what they rely on.
- `tests/` — tests of the library on concrete values.
- `app/` — the parts that do I/O: reading and writing files, the process environment,
  the network address parsing of `std`, serde copies of library types.
