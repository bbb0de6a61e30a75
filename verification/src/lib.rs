//! The logic behind a collection of small puzzle services, each verified
//! against its contract: a room-based broadcast chat, a password game, a
//! star map with its shortest journeys, and a handful of smaller tasks on
//! numbers, names and texts. Sockets, files and databases are left to the
//! program that serves them.

pub mod archive;
pub mod chat;
pub mod cookies;
pub mod elf;
pub mod geo;
pub mod gifts;
pub mod orders;
pub mod paging;
pub mod password;
pub mod pattern;
pub mod pixels;
pub mod reindeer;
pub mod rocket;
pub mod sled;
pub mod text;
pub mod ulids;
