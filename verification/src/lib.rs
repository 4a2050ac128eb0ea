//! Decision logic of the OpenC3 COSMOS launcher.

pub mod check;
pub mod commands;
pub mod connection;
pub mod context;
pub mod enroll;
pub mod error;
pub mod identity;
pub mod installer;
pub mod laws;
pub mod model;
pub mod pairing;
pub mod plan;
pub mod precedence;
pub mod status;
pub mod text;
pub mod token;
pub mod update;
pub mod version;
