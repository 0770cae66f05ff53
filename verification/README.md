# memory_admission

Admission gates that pause new work when host or cgroup memory runs short.

- `src/` is the verified library: the decisions of the unweighted gate
  (`admission`) and of the byte-budgeted gate (`weighted`) as state machines
  with laws proved over them, the parsers of `/proc/meminfo` and cgroup-v2
  accounting files (`providers`), and the character-level specifications the
  parsers are stated in (`text`).
- `app/` is the library's user-facing shell: the floating-point
  configuration, the `MemoryProvider` trait, the locks, the Tokio and
  `Condvar` waiting, the file reads and the `tracing` output.
- `tests/` exercises the parsers and drives the state machines through the
  scenarios the gates go through.
