//! Security inspection toolkit: the decision and text-processing core of a
//! host triage tool.
pub mod text;
pub mod style;
pub mod utils;
pub mod commands;
pub mod update;
