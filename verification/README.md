# Slope

Slope is the userspace ABI library of ArachOS: the wire records a process
exchanges with the kernel, the admission gates and leases that guard them,
and the bounded state machines behind its allocator, executor, rings and
mailboxes.

- `src/` is the library, written in Verus. Every function carries a contract
  over a mathematical model of its data, and the properties that span
  several operations (the work partition tiles its range, a sealed record
  verifies, a freed slot is free again, an admitted job meets its deadline,
  and so on) are stated and proved as public proof functions beside them.
- `app/` is the ordinary Rust around it: the kernel calls, the process-entry
  stack, the process-shared lock, the global allocator, the future-driven
  executor and the floating-point route scorer. Each of these hands the
  library plain values and acts on the values it returns.
- `tests/` runs the library on concrete values.

The Quantum Crest page is modelled by its contents (the snapshot cell, the
two mailboxes and the two epochs), not by its memory layout: the 4096-byte,
4096-aligned layout of the page that the kernel maps is a property of the
shared mapping, which the library does not hold.

The Nexus control client's transactions and telemetry, the certificate
page reader, and the mapping of the resonance split pages read and write
records whose layout and validation belong to the kernel's `aether` wire
crate, which is not available to this build. Their sequencing (the Nexus
sequence numbers, the argument packing, the one-command-in-flight rule of
the resonance client) is in the library; the calls themselves are in
neither `src/` nor `app/`.
