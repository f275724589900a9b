//! A small in-process concurrent execution engine, fully verified: an
//! ordered job queue with graceful closing (`queue`, shared across threads
//! by `shared_queue`), mutex-guarded shared state with scoped access and
//! ordered dual-resource acquisition (`guarded`, with the deadlock-freedom
//! argument in `lock_order`), a lock-free atomic counter (`counter`, with
//! its counting law in `counter_model`), and a fixed pool of workers that
//! drain the queue and report their termination (`pool`).
//!
//! Sequential companions share the crate: a todo-list core (`todo`,
//! `todo_app`, `clock`) with its text format built on `text` and `numtext`,
//! number and word parsing (`parsing`), and assorted small verified
//! utilities (`basics`, `shapes`, `summary`).

pub mod basics;
pub mod clock;
pub mod counter;
pub mod counter_model;
pub mod guarded;
pub mod lock_order;
pub mod numtext;
pub mod parsing;
pub mod pool;
pub mod queue;
pub mod shapes;
pub mod shared_queue;
pub mod summary;
pub mod text;
pub mod todo;
pub mod todo_app;
