//! The player: what is playing, how it goes on, and the queue.
pub mod controller;
pub mod flow;
pub mod queue;
pub mod queue_view;
pub mod status;
