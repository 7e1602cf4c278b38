//! Session plumbing for Braid, a thin netplay wrapper around retro emulators:
//! emulator command lines, ROM identity hashes, session manifests,
//! `braid://` session links, the signaling wire formats and the decisions of
//! the UDP rendezvous service.

pub mod text;
pub mod emulator;
pub mod hash;
pub mod manifest;
pub mod session_link;
pub mod signaling;
pub mod rendezvous;
pub mod cli;
pub mod dashboard;
