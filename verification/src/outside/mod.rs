//! What the library has from outside crates.
//!
//! Everything in these modules is stated, not proved: each function makes a
//! call into another crate, and its contract says what the library relies on.
//! The rest of the library is proved from these contracts.

pub mod archive;
pub mod embedded;
pub mod json;
pub mod mime;
pub mod percent;
pub mod utf8;
