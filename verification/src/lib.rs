//! Verified server core of a legacy multiplayer session protocol.
//!
//! The crate covers the protocol and session layer of the game server: the
//! little-endian wire codec for the typed message family, the per-peer block
//! cipher over whole-block prefixes, the key-check handshake, and the
//! per-connection session state machine with its outbound command queue.
//! Transport plumbing, configuration loading and logging stay outside.
pub mod bitfield;
pub mod chat;
pub mod cipher;
pub mod config;
pub mod dispatch;
pub mod error;
pub mod frame;
pub mod handlers;
pub mod list;
pub mod movement;
pub mod packets_game;
pub mod packets_loading;
pub mod packets_more;
pub mod packets_text;
pub mod session;
pub mod text;
pub mod utf8;
pub mod waypoint;
pub mod world;
pub mod wire;

use vstd::prelude::*;

verus! {

/// The client cannot handle rosters with more slots than this.
pub const PLAYER_COUNT_MAX: usize = 12;

/// Simulation ticks per second of the fixed-step loop.
pub const TICKS_PER_SECOND: u64 = 30;

} // verus!
