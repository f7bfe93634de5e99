//! The logic of an rclone VFS mount service and of the tray client that talks to it.
//!
//! Everything here computes on plain values. Reading the kernel's mount table, talking to
//! systemd and to the session bus, running programs and drawing the tray are the
//! application's part; what to ask, in which order, and what the answers mean is decided
//! in this crate.

pub mod actions;
pub mod args;
pub mod client;
pub mod config;
pub mod errors;
pub mod ipc;
pub mod journal;
pub mod json;
pub mod laws;
pub mod link;
pub mod menu;
pub mod model;
pub mod mountinfo;
pub mod paths;
pub mod poller;
pub mod quantity;
pub mod rate;
pub mod rc;
pub mod registry;
pub mod scratch;
pub mod session;
pub mod sni;
pub mod supervisor;
pub mod systemd;
pub mod table;
pub mod text;
pub mod transfer;
pub mod watch;
pub mod wrap;
