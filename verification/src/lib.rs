//! A small task executor: a bounded schedule queue of task ids, a table of
//! the tasks whose futures are still held, a counter of outstanding tasks,
//! and the decisions of the executor's run loop; plus a single-threaded
//! spawner for local tasks that answer over one-shot channels.
pub mod channel;
pub mod executor;
pub mod local;
pub mod watcher;
