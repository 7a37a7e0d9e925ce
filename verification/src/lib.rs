//! The logic of a terminal front end for OpenSSH: the screens' key handling,
//! the `~/.ssh/config` and `known_hosts` text formats, the connection
//! history and the command lines it runs.
pub mod history;
pub mod ssh_config;
pub mod text;
pub mod screen;
pub mod app;
pub mod commands;
pub mod key_files;
pub mod form_field;
