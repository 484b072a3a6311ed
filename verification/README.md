# kira_r2kad

The decision logic of R²/KAD, the routing protocol of the KIRA architecture, as a
sans-I/O library whose behaviour is stated in `requires`/`ensures` contracts and proved
with Verus.

Each use case is a state machine: the runtime hands it events (timers that fired,
messages that arrived, changes of contacts) together with the views of the node's tables
it needs, and gets back the new state and the actions to perform (messages to send,
timers to register). Times are microseconds (`Micros`), node ids are `u128`.

## Layout

- `src/domain.rs`: node ids and subnets, contacts and their paths, source routes, path
  hashes.
- `src/utils/`: exponential backoff, the maps of requests in flight and of backoff
  timers, the vicinity graph of approved links, nonces.
- `src/underlay.rs`, `src/underlay/`: interfaces and underlay neighbors, the underlay
  information base, and the decisions on the link events of the kernel.
- `src/use_cases/`: the use cases of the protocol (vicinity discovery, overlay
  neighborhood discovery, failure handling, path probing, explicit path management,
  forwarding table entries, the distributed hash table and its injector, ...).
- `src/random.rs`: the random numbers the protocol draws, from the `rand` crate.
- `app/`: glue that the library leaves out: rediscovery timeouts scaled by
  floating-point factors, and `Ipv6Addr` conversions.
- `tests/`: tests of the library on concrete values.

Properties that relate several operations stand as public proof functions named
`law_*` beside the functions they speak of.
