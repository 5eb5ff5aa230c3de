//! Decision logic of an exporter that reads game progression from captured
//! session traffic and locates the signed pull-history address in a
//! web-view cache.
//!
//! Everything here works on plain values. Opening capture handles, reading
//! files and talking to the network is left to the program built on top:
//! the library says what is to be done next, the program does it and
//! reports what came of it.
//!
//! - `export` runs an achievement export step by step, with `devices` to
//!   choose the network devices, `keys` to read the session keys, `capture`
//!   for the life of a capture worker and `extract` to collect the
//!   completed ids from what the session decoder hands out.
//! - `search` runs the search for the pull-history address step by step,
//!   with `version` to pick the latest cache directory and `pull` to find
//!   the candidate addresses in the cache blob and to order the probes.
//! - `logs` reads a game's data directory off its client log.
//! - `game` holds what differs between the games, `error` the failures,
//!   `paths` the remembered data directories.
//! - `bytes` and `text` are helpers; `outside` holds the calls into other
//!   crates, whose contracts are taken on trust.

pub mod bytes;
pub mod capture;
pub mod devices;
pub mod error;
pub mod export;
pub mod extract;
pub mod game;
pub mod keys;
pub mod logs;
pub mod outside;
pub mod paths;
pub mod pull;
pub mod search;
pub mod text;
pub mod version;
