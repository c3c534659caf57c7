//! Log setup: file names, filter directives, and the records of hypervisor calls.
//!
//! The file is `ternvale-<vm>-<YYYYMMDD-HHMMSS>.log` under `LogConfig::log_dir`
//! (by default `~/Library/Logs/Ternvale`). `TERNVALE_LOG` selects the
//! `EnvFilter` directive; `LogConfig::level` is the fallback (`info`).
pub mod config;
pub mod directive;
pub mod error;
pub mod filter;
pub mod hv;
pub mod laws;
pub mod panic_text;
pub mod subscriber;
