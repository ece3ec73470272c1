//! Frame message pipeline of a small real-time rendering engine.
//!
//! Game logic describes drawable objects through stable tokens. Each token is
//! resolved to a dense slot index, the resulting commands are accumulated in a
//! frame, and whole frames are handed to the render thread over a bounded
//! single-producer single-consumer queue.

pub mod color;
pub mod frame;
pub mod producer;
pub mod texture;
pub mod tracker;
pub mod types;
