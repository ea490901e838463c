# thunder

The verified core of the Thunder edge-function runtime, written in Verus.

`src/` holds the logic, each function with a contract that Verus proves:

- `registry`: the deployed functions, their isolates, round-robin routing,
  pool limits and least-recently-used replica eviction, with each deploy,
  update, resize and shutdown split into the steps taken before and after
  the caller boots or stops isolates;
- `connection_manager`, `tenant_table`: outbound connection leases with
  per-tenant limits, adaptive file-descriptor limits and a token bucket;
- `metrics`, `types`: counters, snapshots and the shared data types;
- `lifecycle`, `handler`, `snapshot`: isolate supervision, proxy settings,
  the inspector's routing, the JavaScript response bridge, lease ids and the
  bytecode-cache envelope;
- `bundle`, `check`, `watch`, `start`, `telemetry`, `embedded_assert`: the
  rules of the command-line front end;
- `text`: character and byte sequence helpers.

`app/` is the command-line program around the library (argument parsing,
files, processes, logging) and the shared connection manager, which holds
the lock, the clock and the wake-ups of waiting lease requests while the
library decides each step; `tests/` exercises the library on concrete values.
