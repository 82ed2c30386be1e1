# libos_runtime

The scheduling and socket logic of a library OS runtime, verified with Verus.

- `src/` is the verified library. It decides: which vCPU an entity runs on
  (`vcpu_selector`, on the vCPU sets of `bitmask`), what each vCPU does next and where tasks go
  (`executor`, `vcpu`), which thread is to be woken (`parker`), and what a datagram receiver
  does with what the host hands it (`datagram`). `bits` holds the contracts of the bit vector
  that the vCPU sets are stored in, `datagram::sockaddr` the one of a C structure's size.
- `app/` carries the decisions out: it holds the state behind locks, parks threads, polls
  futures and talks to the host.
- `tests/` runs the library on concrete values.
