//! Engine services: the logging rules and the engine's window-event decisions.
pub mod logging;
pub mod engine;
pub mod debug;
pub mod builder;
