//! Supervision logic of the Hindsight menu-bar app: the commands it hands to
//! `hindsight-embed`, the daemon's HTTP replies it reads, the control-center
//! address it opens, and what the tray shows.

pub mod http;
pub mod supervisor;
pub mod text;
pub mod tray;
