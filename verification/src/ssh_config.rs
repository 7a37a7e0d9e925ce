//! Reading and editing the OpenSSH client files: `~/.ssh/config` and
//! `~/.ssh/known_hosts`.
pub mod config_reader;
pub mod known_hosts;
