//! Robot path planning core: motion actions, admission control, pose
//! tracking, and trajectory simplification over a bounded square field.
//!
//! Every scalar is an exact integer in nano units (nanometres for lengths,
//! nanoradians for angles), so the whole pipeline — admission checks, pose
//! replay, path simplification — is deterministic and verified end to end.
pub mod fixed;
pub mod trig;
pub mod vec;
pub mod action;
pub mod error;
pub mod robot_state;
pub mod trajectory;
pub mod units;
pub mod field_labels;
pub mod builder;
pub mod text;
