//! A resumable sweep over a build tool's release-profile knobs: a plan of
//! single-knob experiments, the merge of each experiment into a complete
//! configuration, the decisions of the runner and of the sweep, and the
//! ranking of finished results by total time.

pub mod model;
pub mod plan;
pub mod merge;
pub mod runner;
pub mod sweep;
pub mod report;
