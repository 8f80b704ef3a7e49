//! The core of a terminal dashboard that authors tasks, queues them and runs them one at
//! a time: structured documents addressed by dot-joined keys, the task-authoring stages,
//! the task queue, the screen state, and the decisions of the poll loop.

pub mod app;
pub mod display;
pub mod doc;
pub mod events;
pub mod page;
pub mod session;
pub mod task;
pub(crate) mod text;
