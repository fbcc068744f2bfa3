//! Build-plan synthesis for zero-configuration container builds.
//!
//! Given a snapshot of an application's source tree, the planner picks the
//! first language provider that recognises the tree and composes a
//! [`plan::BuildPlan`]: setup, install, build and start phases plus the
//! variables to inject. Every function is verified against a contract over
//! mathematical views of the data.

pub mod app;
pub mod environment;
pub mod error;
pub mod glob;
pub mod json;
pub mod pattern;
pub mod phase;
pub mod pkg;
pub mod plan;
pub mod planner;
pub mod providers;
pub mod string_map;
pub mod text;
