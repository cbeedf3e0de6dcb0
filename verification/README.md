# orpc

Observable queues (OQueues) and the servers of a block-cache prefetching demo, with their
behaviour stated in contracts and proved by Verus.

- `src/oqueue/`: the ring buffer behind a locking oqueue (`table.rs`), the plain and observable
  queues with their sender, receiver and observer handles (`locking.rs`), cursors, attachment
  errors, a registry of named values, and the laws that hold across queue operations
  (`laws.rs`).
- `src/orpc_impl/`: RPC errors and the abort protocol of servers.
- `src/sync/`: wait lists of tasks.
- `src/prefetcher_demo/`: the decisions of the demo's cache, eviction and prefetching servers.
- `app/`: the program around the library: locks shared between threads, task parking, server
  threads, the disk file, and the window.
- `tests/`: tests of the library.
