//! Verified core of the Capybara recorder and project package.

pub mod audio;
pub mod backend;
pub mod errors;
pub mod export;
pub mod mp4;
pub mod parallel;
pub mod project;
pub mod readiness;
pub mod record;
pub mod render_source;
pub mod snapshot;
pub mod text;
