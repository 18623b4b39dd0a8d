//! Entity-side identifiers and components of the simulation scaffold.
use vstd::prelude::*;

verus! {

/// The node class held in the top byte of a network id.
#[derive(Clone, Copy, Debug, PartialEq, Eq, Structural)]
pub enum NetNodeId {
    Spawned,
    MapObject,
}

impl NetNodeId {
    pub open spec fn as_byte(self) -> u8 {
        match self {
            NetNodeId::Spawned => 0x40,
            NetNodeId::MapObject => 0xFF,
        }
    }

    /// The node class of a top byte known to name one.
    pub fn from_trusted(byte: u8) -> (r: NetNodeId)
        requires
            byte == 0x40 || byte == 0xFF,
        ensures
            r.as_byte() == byte,
    {
        if byte == 0x40 {
            NetNodeId::Spawned
        } else {
            NetNodeId::MapObject
        }
    }

    pub fn to_u8(self) -> (r: u8)
        ensures
            r == self.as_byte(),
    {
        match self {
            NetNodeId::Spawned => 0x40,
            NetNodeId::MapObject => 0xFF,
        }
    }
}

/// A 32-bit network-visible entity id: node class in the top byte, a dense
/// per-class id in the low 24 bits.
#[derive(Clone, Copy, Debug, PartialEq, Eq, Structural)]
pub struct NetId(pub u32);

impl NetId {
    /// The id names a known node class.
    pub open spec fn classed(self) -> bool {
        (self.0 >> 24) == 0x40 || (self.0 >> 24) == 0xFF
    }

    pub fn new_spawned(id: u32) -> (r: NetId)
        ensures
            r.0 == 0x40000000u32 | (id & 0x00FFFFFF),
            r.classed(),
    {
        let v: u32 = 0x40000000u32 | (id & 0x00FFFFFF);
        assert((0x40000000u32 | (id & 0x00FFFFFF)) >> 24 == 0x40) by (bit_vector);
        NetId(v)
    }

    pub fn new_map(id: u32) -> (r: NetId)
        ensures
            r.0 == 0xFF000000u32 | (id & 0x00FFFFFF),
            r.classed(),
    {
        let v: u32 = 0xFF000000u32 | (id & 0x00FFFFFF);
        assert((0xFF000000u32 | (id & 0x00FFFFFF)) >> 24 == 0xFF) by (bit_vector);
        NetId(v)
    }

    pub fn id(self) -> (r: u32)
        ensures
            r == self.0,
    {
        self.0
    }

    /// The node class of a well-classed id.
    pub fn node_id(self) -> (r: NetNodeId)
        requires
            self.classed(),
        ensures
            r.as_byte() == (self.0 >> 24) as u8,
    {
        let v = self.0;
        let b: u8 = ((v & 0xFF000000) >> 24) as u8;
        assert(((v & 0xFF000000) >> 24) as u8 == (v >> 24) as u8) by (bit_vector);
        NetNodeId::from_trusted(b)
    }
}

/// A champion's unit name.
#[derive(Clone, Debug, PartialEq, Eq)]
pub struct UnitName(pub Vec<u8>);

/// The two summoner spell ids of a champion.
#[derive(Clone, Copy, Debug, PartialEq, Eq, Structural)]
pub struct SummonerSpells(pub u32, pub u32);

/// The two sides of the map.
#[derive(Clone, Copy, Debug, PartialEq, Eq, Structural)]
pub enum Team {
    Order,
    Chaos,
}

impl Team {
    /// The wire number of the side: Order is 100, Chaos is 200.
    pub open spec fn team_id(self) -> u32 {
        match self {
            Team::Order => 100,
            Team::Chaos => 200,
        }
    }

    pub fn to_u32(self) -> (r: u32)
        ensures
            r == self.team_id(),
    {
        match self {
            Team::Order => 100,
            Team::Chaos => 200,
        }
    }
}

/// The process-wide game phase.  The session starts Loading and advances
/// to Running exactly once, when every slot reports ready.
#[derive(Clone, Copy, Debug, PartialEq, Eq, Structural)]
pub enum GameState {
    Paused,
    Running,
    Loading,
}

} // verus!
