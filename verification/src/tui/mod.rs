//! The interactive views' state machine.

pub mod app;
