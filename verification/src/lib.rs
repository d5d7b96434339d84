//! Verified core of a local file-sharing service: share registry, share
//! tokens, password checks, tunnel URL recognition and the HTTP replies
//! served for a share link.

pub mod text;
pub mod server;
pub mod tunnel;
pub mod share;
pub mod token;
pub mod password;
pub mod commands;
pub mod state;
pub mod reply;
pub mod laws;
