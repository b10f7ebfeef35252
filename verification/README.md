# cobapi

The Cobalt plugin API, with its decisions proved against their contracts.

- `src/` is the library: the meaning of the host's status codes
  (`lib.rs`, `injection.rs`), FNV-1a hashing (`fnv.rs`), text helpers
  (`text.rs`), the checks and the plan behind `#[service]` traits
  (`service/`), and the method-table lookup that generated clients perform
  (`vtable.rs`). Plain event-argument types live in `services/`.
- `app/` holds the rest: the `extern "C"` calls into the host, raw-pointer
  method tables, the service traits with `extern "C"` handlers, and the code
  generator that reads traits with syn and writes code with quote. The code it
  generates names this library as `::cobapi` and the host bindings of `app/`
  as `::cobapi_host`.
- `tests/` exercises the library on concrete values.
