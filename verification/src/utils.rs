//! Names, sorting orders, tokens, and strings.

pub mod kebab;
pub mod sorting;
pub mod strings;
pub mod token;
