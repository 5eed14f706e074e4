//! Test assertion matchers whose matching rules and messages are proved
//! against mathematical specifications.

pub mod assertions;
pub mod matcher;
pub mod text;
pub mod value;
pub mod collection;
pub mod compat;
pub mod error_source;
pub mod matchers;
