//! Parsed configuration structures the session core consumes.
//!
//! Loading them from disk is the surrounding program's concern; the core
//! receives plain values.
use vstd::prelude::*;

verus! {

use crate::world::Team;

/// The server endpoint to bind.
#[derive(Clone, Debug, PartialEq, Eq)]
pub struct ServerConfig {
    pub address: Vec<u8>,
    pub port: u16,
}

/// The whole server-side configuration.
#[derive(Clone, Debug, PartialEq, Eq)]
pub struct Config {
    pub server: ServerConfig,
}

/// One roster entry: a pre-authenticated player and their champion.
#[derive(Clone, Debug, PartialEq, Eq)]
pub struct PlayerConfig {
    pub name: Vec<u8>,
    pub key: Vec<u8>,
    pub player_id: u64,
    pub team: Team,
    pub champion: Vec<u8>,
    pub skin_id: u32,
    pub summoner_level: u16,
    pub summoner_spell0: u32,
    pub summoner_spell1: u32,
    pub profile_icon: i32,
}

pub struct PlayerConfigView {
    pub name: Seq<u8>,
    pub key: Seq<u8>,
    pub player_id: u64,
    pub team: Team,
    pub champion: Seq<u8>,
    pub skin_id: u32,
    pub summoner_level: u16,
    pub summoner_spell0: u32,
    pub summoner_spell1: u32,
    pub profile_icon: i32,
}

impl View for PlayerConfig {
    type V = PlayerConfigView;

    open spec fn view(&self) -> PlayerConfigView {
        PlayerConfigView {
            name: self.name@,
            key: self.key@,
            player_id: self.player_id,
            team: self.team,
            champion: self.champion@,
            skin_id: self.skin_id,
            summoner_level: self.summoner_level,
            summoner_spell0: self.summoner_spell0,
            summoner_spell1: self.summoner_spell1,
            profile_icon: self.profile_icon,
        }
    }
}

} // verus!
