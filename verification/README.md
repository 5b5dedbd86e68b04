# plaine

The rules of a Plaine CPU miner and of a Plaine node, written in Verus.

- `src/text.rs`: string functions that everything else needs.
- `src/miner/`: what a mining client decides. It reads the lines of a stratum
  server, keeps jobs, lays out nonces so that no two workers meet, climbs its
  backoff ladders, reads its command line and its configuration file, describes
  the machine, chooses pages and batches, and reports.
- `src/node/`: what a node decides. It checks its configuration and says what is
  wrong with it, keeps the ring of blocks that are not sealed yet, indexes
  announcements, advises on fees, pages through histories, answers RPC queries
  and says what it does in its log.
- `app/`: the miner program. It owns the socket, the threads, the clock and the
  memory, and asks `src/` what to do. The hash itself comes from the native
  library `isochron`.
- `tests/`: the library, run.

Times are milliseconds, rates are whole numbers, and whatever the system or
another process has to say comes in as plain values. Public proof functions whose
names begin with `law_` state what holds across functions.
