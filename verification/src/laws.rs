//! What the operations are for, stated over their inputs and results.
pub mod check;
pub mod commands;
pub mod connection;
pub mod enroll;
pub mod identity;
pub mod installer;
pub mod plan;
pub mod status;
pub mod steps;
pub mod text;
pub mod token;
pub mod update;
pub mod version;
