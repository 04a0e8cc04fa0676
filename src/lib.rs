//! Finds local branches whose review requests are all closed, and decides
//! which of them to delete.
pub mod remote;
pub mod classify;
pub mod resolver;
pub mod error;
pub mod run;
pub mod config;
pub mod token;
