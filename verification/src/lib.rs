//! Verified core of the BOB cluster management backend.

pub mod bindings;
pub mod cli;
pub mod error;
pub mod macros;
pub mod server;
pub mod text;
pub mod decimal;
pub mod form;
pub mod connector;
pub mod models;
pub mod router;
pub mod services;
