//! The two commands: `add` and `init`.
pub mod add;
pub mod init;
