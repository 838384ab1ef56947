//! Per-cgroup CPU utilisation between two runs of a status report, and the
//! plain configuration records of the report's widgets.

pub mod component;
pub mod config;
pub mod constants;
pub mod delta;
pub mod error;
pub mod names;
pub mod render;
pub mod stat_file;
pub mod text;
pub mod usage;
pub mod widgets;
