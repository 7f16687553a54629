//! Library of a desktop SSH-login notifier.
//!
//! The verified core turns one raw `sshd` log line into a structured
//! connection event, resolves the key fingerprint against a configured
//! identity list, and renders the notification and greeting text that the
//! surrounding program dispatches to the desktop and the user's terminal.

pub mod config;
pub mod doc;
pub mod greet;
pub mod parser;
pub mod render;
pub mod text;
