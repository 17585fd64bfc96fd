//! A shared, bounded feed of text messages and files that every connected
//! client sees live, with its little-endian binary wire protocol.
//!
//! The library holds every rule and decision: the frame codec ([`codec`],
//! [`frames`]), the feed with its identity counter ([`feed`]), the admission
//! of uploads ([`upload`]), what a session answers and when it ends
//! ([`session`]), and the answers to requests for stored files ([`files`]).
//! Sockets, files and tasks belong to the program around it.

use vstd::prelude::*;

pub mod bytebuf;
pub mod codec;
pub mod feed;
pub mod files;
pub mod frames;
pub mod msg;
pub mod session;
pub mod upload;

verus! {

/// The port that the server listens on unless it is told another.
pub const DEFAULT_PORT: u16 = 3000;

/// The name of the storage directory below the user's home directory.
pub const SHARE_DIR: &'static str = "Share";

} // verus!
