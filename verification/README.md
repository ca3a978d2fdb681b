# sensor_fuse

An un-opinionated observer/callback framework: sensors whose value is written by writers, watched
by observers that can be mapped and fused, and waited for. The logic is verified with Verus.

- `src/version.rs`: versions, which count updates and tell whether a sensor is closed.
- `src/observer.rs`, `src/waiting.rs`: observers, and what a wait has to do next.
- `src/writer.rs`: writers and ways of sharing a core.
- `src/sensor_core/`: cores. `no_alloc` is single-threaded with a fair reader-writer queue,
  `in_house` counts permits and wakes in clusters, `standard` and `shared` are built on
  `async_lock` and `event_listener`; `external.rs` holds what is taken on trust of those two.
- `src/callback/`, `src/callback_manager/`, `src/executor/`: callbacks and wakers that run on
  updates.
- `src/lock.rs`: the traits of locks, and stand-ins for locks.
- `app/`: what is awaited, blocked on or shared: futures, blocking locks, boxed callbacks.
- `tests/`: scenarios.

Operations take the core that they work on as an argument, rather than hiding it behind interior
mutability, and return the wakers of those that are to be woken.
