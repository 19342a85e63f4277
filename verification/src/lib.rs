//! Record consistency engine for athletics results: decides which of an
//! athlete's results hold the personal-best and season-best designations.

pub mod clock;
pub mod cloud;
pub mod consistency;
pub mod crud;
pub mod dates;
pub mod error;
pub mod laws;
pub mod partition;
pub mod records;
pub mod rules;
pub mod store;
pub mod text;
pub mod types;
