//! The record store: a local overlay over a mirror of the server's state.

pub mod db;
pub mod laws;
pub mod model;
pub mod rows;
