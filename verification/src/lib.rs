//! Verified control plane of a layer-7 reverse proxy: upstream liveness
//! tracking, upstream selection, health-sweep bookkeeping, per-source rate
//! limiting, and the per-session relay state machine. Socket work, timers and
//! argument parsing live outside the library and drive it with plain values.

pub mod commands;
pub mod config;
pub mod framing;
pub mod health;
pub mod registry;
pub mod liveness;
pub mod rate;
pub mod relay;
pub mod select;
pub mod vecops;
pub mod words;
