//! The decisions behind a terminal monitor for GitHub Actions runs.

pub mod archive;
pub mod fetched;
pub mod keys;
pub mod line;
pub mod list;
pub mod list_laws;
pub mod log_tail;
pub mod repo;
pub mod run;
pub mod run_laws;
pub mod screen;
pub mod screen_laws;
pub mod status;
pub mod table;
pub mod text;
pub mod time;
pub mod view_laws;
