//! A gateway between two chat completion formats: it takes requests in the
//! caller format, sends them on in the upstream format under one of a pool
//! of credentials, and books what each call has used.
//!
//! The library decides and computes; it performs no I/O. The program around
//! it talks to the network and to the persisted store.
//!
//! - [`schema`]: the two wire formats.
//! - [`translate`]: the mapping between them, in both directions.
//! - [`tokens`]: the length-based estimate of what a text costs.
//! - [`pool`] and [`config`]: the rotation pool of upstream credentials and
//!   the line of text it is configured with.
//! - [`gateway`]: one inbound call as a state machine.
//! - [`auth`]: the bearer credential of a caller and the session of an
//!   administrator.
//! - [`records`] and [`ledger`]: the credential directory and the audit log.
//! - [`error`]: the error type and what a caller sees of it.
//! - [`text`] and [`ambient`]: the contracts under which string functions,
//!   identifiers and clocks are taken from outside.

pub mod ambient;
pub mod auth;
pub mod config;
pub mod error;
pub mod gateway;
pub mod ledger;
pub mod pool;
pub mod records;
pub mod schema;
pub mod text;
pub mod tokens;
pub mod translate;
