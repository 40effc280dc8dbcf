//! Server-side state of a live area chart: one session per connected client,
//! the events that change it, the background task that feeds it, and the
//! description of what is drawn after every change.

pub mod chart;
pub mod event;
pub mod frame;
pub mod push_loop;
pub mod sample;
