//! Backend utility library: numeric helpers, text helpers, and a user
//! record with on-demand validation and a structured-data encoding.

pub mod data;
pub mod utils;
