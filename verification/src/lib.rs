//! A compact, classified error-value library.
//!
//! An error is a 16-bit packed classification (`kind`) together with the
//! identity of the module that raised it, optionally carrying a text
//! message.  Errors without a message are stored allocation-free; the
//! module registry assigns 16-bit identities to module names by hashing
//! with linear probing.

pub mod decimal;
pub mod error;
pub mod kind;
pub mod registry;
