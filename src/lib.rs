//! Drives three LED duty cycles from a sampled button press rate.
//!
//! `mapping` turns a speed into a duty cycle triple, `wire` reads and renders
//! the text formats of the two kernel interfaces, `backend` describes what each
//! interface reads and writes, and `control` decides each step of the polling
//! loop.
pub mod backend;
pub mod control;
pub mod mapping;
pub mod wire;
