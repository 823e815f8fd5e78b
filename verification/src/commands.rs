//! What each command decides; the caller performs the I/O that each step asks for.
pub mod accounts;
pub mod import;
pub mod login;
pub mod validate;
