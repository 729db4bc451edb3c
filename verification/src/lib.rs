//! Admission control for typed arithmetic.
//!
//! A front end reads lines that a user types and passes arithmetic
//! expressions on to an evaluation engine, which runs whatever text it is
//! given. This library decides what may be passed on:
//!
//! - [`validator`] accepts or rejects a text as an arithmetic expression;
//! - [`text`] trims a typed line and recognises the exit word;
//! - [`session`] says what the control loop does with each line, and holds
//!   the texts that it prints;
//! - [`decimal`] writes the engine's result in decimal;
//! - [`engine`] frames an accepted expression as the null-terminated bytes
//!   that the engine takes.
//!
//! Reading, printing and the call into the engine are left to the caller.

pub mod decimal;
pub mod engine;
pub mod session;
pub mod text;
pub mod validator;
