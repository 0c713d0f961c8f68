//! Control core of a small home-automation controller.
//!
//! A single worker owns the device inventory and the I/O context. Every
//! mutation reaches it as a message, and messages are handled strictly in
//! the order in which they arrive. This crate holds the message protocol,
//! the worker's state machine and the data it works on; threads, queues
//! and files live with the caller.

pub mod context;
pub mod control;
pub mod failure;
pub mod state;
