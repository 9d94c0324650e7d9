# mini_tokio

A tiny task executor whose bookkeeping is verified with Verus.

- `src/executor.rs` — `MiniTokio`: spawning onto a bounded schedule queue of
  task ids, the table of tasks whose futures are still held, the outstanding
  task count, and the run loop's decision for each event (`run_step`).
- `src/local.rs` — `LocalSpawner`: local tasks run newest first, each
  answering its number plus one over a one-shot channel.
- `src/watcher.rs` — the watcher that signals shutdown once no task is left.
- `src/channel.rs` — the tokio channel types and calls the library relies on.
- `app/main.rs` — the demo program: it owns the futures, waits on the
  channels with `tokio::select!`, polls, sleeps and prints.
