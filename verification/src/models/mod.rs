//! The models that the management server computes from what the nodes report.

pub mod api;
pub mod bob;
pub mod shared;
