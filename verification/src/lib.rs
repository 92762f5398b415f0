//! Telemetry engine for a remote Android device monitored over a shell
//! channel: parsers for the device's text output, rate computation from
//! cumulative counters, bounded metric histories, and the shared snapshot
//! that a consumer reads. Every parser's contract equates its result with
//! a function of the input text alone, so parsing is pure and repeatable.

pub mod adb;
pub mod audit;
pub mod backup;
pub mod checks;
pub mod config;
pub mod cpu;
pub mod disk;
pub mod history;
pub mod mem;
pub mod menu;
pub mod monitor;
pub mod net;
pub mod process;
pub mod rate;
pub mod resource;
pub mod service;
pub mod snapshot;
pub mod stress;
pub mod text;
