//! The transport-shaped mirror of the canonical model, and the lossless
//! projection into it: each type's `from` takes the canonical value, and
//! `projects` states field by field what the copy holds.
pub mod column_groups;
pub mod diagram;
pub mod diagram_settings;
pub mod diagram_walkers;
