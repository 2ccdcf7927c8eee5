//! Build orchestration core: package-group resolution, the sequential build
//! run, and the sweep of output directories.

pub mod build_run;
pub mod cleanup;
pub mod course;
pub mod duration;
pub mod expand;
pub mod fetch;
pub mod group;
pub mod notice;
pub mod numeral;
pub mod protocol;
pub mod resolver;
pub mod text;
