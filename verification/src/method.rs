//! The arguments of the methods, and how they are read.

pub mod account;
pub mod get;
