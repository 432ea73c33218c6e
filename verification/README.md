# dstest

A deterministic-simulation test harness for distributed systems: a Lua
script declares subjects (containers), the faults that may hit them, the
workload to drive and the checks to run; the harness injects faults step by
step, records every event, and reports what held.

## Layout

- `src/` is the verified library. It holds the domain (faults, tiers, fault
  trees, configs, subjects, events, the event log and its projections, the
  oracle report), the state of a run, the decisions of each use case
  (setup, step, teardown), the bookkeeping of the Docker substrate (virtual
  clocks, device-mapper disks, network links, resource limits and the
  readiness waits), the workload's request model, the reading of OpenAPI
  documents (JSON or YAML, through `serde_json` and `serde_yaml`) and the
  statistics, the seeded draws (through `rand`), and exact text helpers. Every
  function carries a contract that Verus proves; the public proof functions
  state the laws that span several functions.
- `app/` is the program around it: the Lua bindings, the Docker, HTTP, TCP
  and Postgres connections, file reads, the async step loop, and the
  floating-point parts (weighted fault draw, weight normalisation,
  probability draws). It hands the library
  plain values and acts on what comes back.
- `tests/` runs the library on concrete values.
