# pyblock_miner

A miner for Bitcoin BLAKE2b pools: a stratum client that shares nonces out
among GPU grinders and CPU threads, with a tabbed terminal screen, alerts, and
a local API.

`src/` is the verified library. It holds what the miner decides and computes:
targets and difficulties, work units and the search for nonces, the stratum
session, the engine's rounds, how a sweep is shared out, settings and the
command line, what the keys do, what the pool's pages say and which of it is
shown, and every line of text on the screens, in the log, the alerts and the
API. Contracts are stated over views of the types; functions named `law_…` state
what holds across several of them.

`app/` is the program around it: sockets, processes, threads, files, HTTP,
the terminal, and floating-point arithmetic. Numbers that it computes reach the
screens as text; doubles cross the boundary by their bits.

Outside crates that the library calls are `blake2b_simd` (hashing), `hex`,
`serde_json` (JSON text) and `bitcoin` (keys and addresses). Each call stands
behind a small wrapper whose contract says what is relied on.
