//! The logic of a client that looks up the subdomains of a domain at a
//! remote service, with several credentials to choose from.
//!
//! Nothing in this library sends a request, sleeps or touches a file. It
//! says which address a request goes to and what the reply means ([`api`]),
//! which credential to try next ([`rotation`]), where the credentials come
//! from ([`config`]), and what is written out in the end ([`output`]). The
//! program around it does what it is told and hands back what happened.

pub mod api;
pub mod config;
pub mod encoding;
pub mod output;
pub mod rotation;
pub mod text;
