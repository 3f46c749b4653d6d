//! Session and authentication core of a user-account service.
//!
//! The crate holds the rules of the service as verified code, and leaves
//! the network, the database and the clock to its caller.
//!
//! - [`token`]: the codec that turns a session's identifier and expiry into
//!   a signed token and back.
//! - [`session`] and [`store`]: what a session is, the ledger of sessions
//!   with its constraints, and the store that keeps it.
//! - [`credentials`]: the users and the check of a password's digest.
//! - [`manager`]: login, refresh, logout, revocation and the guard, each
//!   stated as a function from the ledger before to the answer and the
//!   ledger after.
//! - [`accounts`]: what a change of password or the end of an account does
//!   to the sessions of the user.
//! - [`laws`]: what holds of these operations together, proved for every
//!   ledger, token and time.
//! - [`error`]: the failures that a client is told, with their HTTP status.
//! - [`configuration`]: how the settings of the database and the server
//!   are resolved from what the environment held.
//! - [`encoding`] and [`table`]: the hexadecimal text of a token's claims,
//!   and rows that are found by a key.
//!
//! Time is a number of seconds that the caller reads from its clock, and
//! the identifier of a new session is a number that the caller draws at
//! random: every function takes both as arguments.

pub mod accounts;
pub mod configuration;
pub mod credentials;
pub mod encoding;
pub mod error;
pub mod laws;
pub mod manager;
pub mod session;
pub mod store;
pub mod table;
pub mod token;
