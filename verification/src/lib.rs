//! Session plumbing of the panes application: spotting the "model at capacity"
//! message in terminal output, arming at most one delayed retry for it, and
//! binding a detected resume id to its launch history record.

pub mod bind_resume;
pub mod json;
pub mod launch_table;
pub mod model_capacity_detector;
pub mod model_capacity_retry;
pub mod persist_binding;
pub mod persist_laws;
pub mod persist_schedule;
pub mod project_name;
pub mod resume_payload;
pub mod text;
