//! The board and score engine of a leaderboard service.
//!
//! Clients create named boards, submit the scores of players and ask for
//! ranks. All shared state lives in an ordered-set store that is reached
//! over the network, so the engine neither waits nor locks: each request is
//! a session that says which command to send to the store next and goes on
//! with the reply ([`shortcuts::redis`], [`routes`]).
//!
//! - [`utils::kebab`] makes names canonical, [`utils::sorting`] holds the
//!   two sorting orders, [`utils::token`] generates the tokens of boards.
//! - [`shortcuts::token`] reads the credential out of a request.
//! - [`keys`] derives the keys under which a board rests in the store.
//! - [`outcome`] holds what a request ends in.
//! - [`model`], [`standing`] and [`secrecy`] state what the store is relied
//!   on for and prove what the engine makes of it: a board is created
//!   exactly once, the best score of a player stands, ranks count from the
//!   best score, and no read shows a token.

pub mod config;
pub mod keys;
pub mod model;
pub mod outcome;
pub mod routes;
pub mod secrecy;
pub mod shortcuts;
pub mod standing;
pub mod utils;
