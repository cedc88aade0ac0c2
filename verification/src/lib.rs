//! Decision logic for unlocking a batch of password-protected PDF files.
//!
//! The files live in `<base>/locked`; an external tool writes the decrypted
//! copies to `<base>/unlocked`. This library performs no I/O. It decides what
//! has to happen next and what is reported to the user; a driver carries the
//! requests out and hands the answers back.

pub mod laws;
pub mod notice;
pub mod paths;
pub mod session;
