# runtime_pool

Scheduling core of a pool that runs many independent single-worker circuits on a fixed set of
threads, written in Rust and verified with Verus.

- `src/` is the verified library. It makes the decisions: which circuits may join a pool and where
  they are placed, in what order the circuits of a thread run, how a command turns into calls on a
  circuit, what is counted, and how a pool ends. `src/laws/` states and proves what holds of the
  whole, such as that the circuits of a thread are served first come, first served.
- `app/` is ordinary Rust around it: threads, locks, clocks, panics and the circuit engine, which
  is any implementation of `engine::Runtime`. It does what the library tells it and reports what
  came of it.
- `tests/` runs pools of toy circuits from end to end, and the parts of the library on their own.

Messages to workers, and commands to circuits, travel through channels of the `crossbeam` crate.
What the proofs assume of those channels stands in `src/channel.rs`; besides that they assume only
what `Duration::from_nanos` is documented to do.
