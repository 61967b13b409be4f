//! The two collaborators of a request: the store and the credential.

pub mod redis;
pub mod token;
