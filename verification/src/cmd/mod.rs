//! The subcommands of the program.
pub mod check_update;
pub mod fix;
pub mod init;
