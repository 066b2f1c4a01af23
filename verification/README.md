# moss (x86_64 architecture layer, verified)

The x86_64 layer of the moss kernel: page tables, descriptor tables,
exception and system-call dispatch, user-memory copies, signal frames,
interrupt controllers, timers and the serial console. Verus proves
every function in `src/` against its `requires`/`ensures` contract.

Hardware is reached through values: register snapshots go in, register
writes and port accesses come out as data. The few calls into outside
crates stand behind small trusted wrappers whose doc comments say what
they claim.

Layout:

- `src/` — the verified library (one module per subsystem; `lib.rs`
  lists them).
- `tests/` — tests on concrete values, one file per subsystem.
- `app/` — a host tool around the library: port and MSR access,
  multiboot2 parsing, the 16550 UART driver and fault reports.
