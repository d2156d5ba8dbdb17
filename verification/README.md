# club_sem_rust

The registry of a sports club, verified with Verus: members, categories and
their monthly fees, payments, the discount earned by a streak of fees paid on
time, the monthly issue of fees, and reports over the payments.

- `src/fecha.rs`: calendar arithmetic (dates, instants counted in seconds from 1970).
- `src/cuenta.rs`: account ids.
- `src/registro.rs`: the club, its permissions, members, categories and fees.
- `src/reportes.rs`: reports over a club, and a club of fixed data to run them on.
- `src/registro_de_pagos.rs`, `src/rust_tp_final.rs`: two smaller registries of the club.
- `src/leyes.rs`: properties that span several operations, proved.
- `app/lib.rs`: the club as a contract on the chain; the caller and the block's
  time come from the contract's environment.
- `tests/`: tests of the library.
