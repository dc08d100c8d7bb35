//! Rules behind a small command-line helper that turns a long-lived AWS
//! profile into a short-lived, MFA-backed one.
//!
//! The crate holds every decision the helper takes, each with a contract
//! that Verus proves: how the cursor of the selection list moves
//! ([`selector`]), which profiles of a credentials file can be chosen and how
//! the derived profile is written ([`store`]), what the answers of the `aws`
//! command mean ([`aws`]), and in which order the steps of a run follow each
//! other ([`flow`]). Touching the terminal, the file system or a subprocess
//! is left to the caller.
//!
//! Two outside crates do work that is believed, not proved: `ini` reads and
//! writes the syntax of the credentials file, and `serde_json` reads JSON.
//! Each call into them stands in a small function of [`trusted`], whose
//! contract says what is taken on trust.

pub mod aws;
pub mod document;
pub mod failure;
pub mod flow;
pub mod json;
pub mod order;
pub mod selector;
pub mod store;
pub mod text;
pub mod trusted;
