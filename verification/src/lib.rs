//! Verified core of the yumi CPU scheduling daemon.

pub mod text;
pub mod daemon;
pub mod frame;
pub mod freq;
pub mod cpu_load;
pub mod screen;
pub mod config;
pub mod paths;
pub mod i18n;
pub mod release;
pub mod sched_probe;
pub mod foreground;
