//! Core of a small community forum: users register and log in, submit link
//! posts, and attach threaded comments.
//!
//! The crate is organised around the components that carry the interesting
//! invariants:
//!
//! * [`errors`] — the error taxonomy shared by every operation.
//! * [`models`] — the row types (`User`, `Post`, `Comment`) and the insertion
//!   forms (`NewUser`, `NewPost`, `NewComment`), with mathematical views.
//! * [`password`] — one-way password hashing and constant-time verification.
//! * [`session`] — signed, tamper-evident session cookies: issue, resolve,
//!   clear.
//! * [`store`] — the relational model: users, posts and comments with
//!   uniqueness, foreign-key and threading invariants.
//! * [`auth`] — the guard that turns a resolved session into a user or an
//!   authorization failure.
//! * [`forum`] — the request-level operations (sign up, log in, submit,
//!   comment) built from the pieces above.

pub mod auth;
pub mod errors;
pub mod forum;
pub mod models;
pub mod password;
pub mod session;
pub mod store;
