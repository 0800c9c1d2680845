//! Diagnostics and benchmarks of the driver.

pub mod busy;
pub mod busy_report_laws;
pub mod cancel;
pub mod cancel_laws;
pub mod compute;
pub mod data;
pub mod measure;
pub mod points;
pub mod probe;
pub mod probe_laws;
pub mod range;
pub mod read;
pub mod read_course_laws;
pub mod read_laws;
pub mod read_plan;
pub mod read_results;
pub mod recorder_laws;
pub mod stage;
pub mod stats;
pub mod sustained;
pub mod time_laws;
pub mod wake;
pub mod write;
pub mod write_laws;
pub mod write_measure;
pub mod write_plan;
pub mod write_report_laws;
pub mod write_results;
pub mod write_seen;
