//! The requests that the service answers, each as a session: a request
//! begins, sends commands to the store one by one, and is resumed with each
//! reply until it is answered.

pub mod board;
pub mod home;
pub mod score;
