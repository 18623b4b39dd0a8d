//! The typed game-channel message family: the packets the session layer
//! sends and receives, with exact wire images and round-trip lemmas.
//!
//! Single-precision fields travel as their IEEE-754 bit patterns and are
//! held as `u32` words with a `_bits` suffix.
use vstd::prelude::*;

verus! {

use crate::bitfield::{bit8, bool_u8};
use crate::frame::{game_frame, game_frame_bytes};
use crate::list::{
    lemma_parse_wire_u32s,
    parse_raw,
    parse_u32s,
    put_u32s,
    take_raw,
    take_u32s,
    wire_u32s,
};
use crate::movement::{MovementData, MovementDataNormal, MovementDataNormalView, MovementDataView, Vector2, Vector3};
use crate::text::{
    fixed_fits,
    lemma_parse_wire_fixed,
    parse_fixed,
    put_fixed,
    put_zeros,
    take_fixed,
    wire_fixed,
    zero_bytes,
};
use crate::wire::{
    lemma_parse_wire_bool,
    lemma_parse_wire_i16,
    lemma_parse_wire_i32,
    lemma_parse_wire_u16,
    lemma_parse_wire_u32,
    lemma_parse_wire_u64,
    lemma_parse_wire_u8,
    parse_bool,
    parse_i16,
    parse_i32,
    parse_u16,
    parse_u32,
    parse_u64,
    parse_u8,
    parsed,
    put_bool,
    put_i16,
    put_i32,
    put_u16,
    put_u32,
    put_u64,
    put_u8,
    take_bool,
    take_i16,
    take_i32,
    take_u16,
    take_u32,
    take_u64,
    take_u8,
    wire_bool,
    wire_i16,
    wire_i32,
    wire_u16,
    wire_u32,
    wire_u64,
    wire_u8,
};

/// Client status query; empty body.
#[derive(Clone, Copy, Debug, PartialEq, Eq, Structural)]
pub struct CQueryStatusReq {
}

impl CQueryStatusReq {
    pub open spec fn wire(self) -> Seq<u8> {
        Seq::empty()
    }

    pub open spec fn parse(s: Seq<u8>, i: int) -> Option<(Self, int)> {
        if 0 <= i <= s.len() {
            Some((CQueryStatusReq {  }, i))
        } else {
            None
        }
    }

    /// Parsing an encoded record restores it.
    pub proof fn lemma_parse_wire(self, s: Seq<u8>, pre: Seq<u8>, post: Seq<u8>)
        requires
            s == pre + self.wire() + post,
        ensures
            Self::parse(s, pre.len() as int) == Some((self, (pre.len() + self.wire().len()) as int)),
    {
        vstd::bytes::lemma_auto_spec_u16_to_from_le_bytes();
        vstd::bytes::lemma_auto_spec_u32_to_from_le_bytes();
        vstd::bytes::lemma_auto_spec_u64_to_from_le_bytes();
    }

    pub fn encode(&self, out: &mut Vec<u8>)
        ensures
            final(out)@ == old(out)@ + self.wire(),
    {
        let ghost base = out@;
        assert(out@ =~= base + self.wire());
    }

    pub fn decode(s: &[u8], i: usize) -> (r: Option<(Self, usize)>)
        ensures
            parsed(Self::parse(s@, i as int), r),
    {
        let slen = s.len();
        assert(s@.len() == slen);
        if i <= slen {
            Some((CQueryStatusReq {  }, i))
        } else {
            None
        }
    }

    /// The full game frame carrying this packet.
    pub fn to_bytes(&self, sender_net_id: u32) -> (r: Vec<u8>)
        ensures
            r@ == game_frame(0x17, sender_net_id, self.wire()),
    {
        let mut payload: Vec<u8> = Vec::new();
        self.encode(&mut payload);
        game_frame_bytes(0x17, sender_net_id, &payload)
    }
}

/// Client finished loading; empty body.
#[derive(Clone, Copy, Debug, PartialEq, Eq, Structural)]
pub struct CClientReady {
}

impl CClientReady {
    pub open spec fn wire(self) -> Seq<u8> {
        Seq::empty()
    }

    pub open spec fn parse(s: Seq<u8>, i: int) -> Option<(Self, int)> {
        if 0 <= i <= s.len() {
            Some((CClientReady {  }, i))
        } else {
            None
        }
    }

    /// Parsing an encoded record restores it.
    pub proof fn lemma_parse_wire(self, s: Seq<u8>, pre: Seq<u8>, post: Seq<u8>)
        requires
            s == pre + self.wire() + post,
        ensures
            Self::parse(s, pre.len() as int) == Some((self, (pre.len() + self.wire().len()) as int)),
    {
        vstd::bytes::lemma_auto_spec_u16_to_from_le_bytes();
        vstd::bytes::lemma_auto_spec_u32_to_from_le_bytes();
        vstd::bytes::lemma_auto_spec_u64_to_from_le_bytes();
    }

    pub fn encode(&self, out: &mut Vec<u8>)
        ensures
            final(out)@ == old(out)@ + self.wire(),
    {
        let ghost base = out@;
        assert(out@ =~= base + self.wire());
    }

    pub fn decode(s: &[u8], i: usize) -> (r: Option<(Self, usize)>)
        ensures
            parsed(Self::parse(s@, i as int), r),
    {
        let slen = s.len();
        assert(s@.len() == slen);
        if i <= slen {
            Some((CClientReady {  }, i))
        } else {
            None
        }
    }

    /// The full game frame carrying this packet.
    pub fn to_bytes(&self, sender_net_id: u32) -> (r: Vec<u8>)
        ensures
            r@ == game_frame(0x55, sender_net_id, self.wire()),
    {
        let mut payload: Vec<u8> = Vec::new();
        self.encode(&mut payload);
        game_frame_bytes(0x55, sender_net_id, &payload)
    }
}

/// Client confirmed its character; empty body.
#[derive(Clone, Copy, Debug, PartialEq, Eq, Structural)]
pub struct CCharSelected {
}

impl CCharSelected {
    pub open spec fn wire(self) -> Seq<u8> {
        Seq::empty()
    }

    pub open spec fn parse(s: Seq<u8>, i: int) -> Option<(Self, int)> {
        if 0 <= i <= s.len() {
            Some((CCharSelected {  }, i))
        } else {
            None
        }
    }

    /// Parsing an encoded record restores it.
    pub proof fn lemma_parse_wire(self, s: Seq<u8>, pre: Seq<u8>, post: Seq<u8>)
        requires
            s == pre + self.wire() + post,
        ensures
            Self::parse(s, pre.len() as int) == Some((self, (pre.len() + self.wire().len()) as int)),
    {
        vstd::bytes::lemma_auto_spec_u16_to_from_le_bytes();
        vstd::bytes::lemma_auto_spec_u32_to_from_le_bytes();
        vstd::bytes::lemma_auto_spec_u64_to_from_le_bytes();
    }

    pub fn encode(&self, out: &mut Vec<u8>)
        ensures
            final(out)@ == old(out)@ + self.wire(),
    {
        let ghost base = out@;
        assert(out@ =~= base + self.wire());
    }

    pub fn decode(s: &[u8], i: usize) -> (r: Option<(Self, usize)>)
        ensures
            parsed(Self::parse(s@, i as int), r),
    {
        let slen = s.len();
        assert(s@.len() == slen);
        if i <= slen {
            Some((CCharSelected {  }, i))
        } else {
            None
        }
    }

    /// The full game frame carrying this packet.
    pub fn to_bytes(&self, sender_net_id: u32) -> (r: Vec<u8>)
        ensures
            r@ == game_frame(0xC6, sender_net_id, self.wire()),
    {
        let mut payload: Vec<u8> = Vec::new();
        self.encode(&mut payload);
        game_frame_bytes(0xC6, sender_net_id, &payload)
    }
}

/// Client requests to leave; empty body.
#[derive(Clone, Copy, Debug, PartialEq, Eq, Structural)]
pub struct CExit {
}

impl CExit {
    pub open spec fn wire(self) -> Seq<u8> {
        Seq::empty()
    }

    pub open spec fn parse(s: Seq<u8>, i: int) -> Option<(Self, int)> {
        if 0 <= i <= s.len() {
            Some((CExit {  }, i))
        } else {
            None
        }
    }

    /// Parsing an encoded record restores it.
    pub proof fn lemma_parse_wire(self, s: Seq<u8>, pre: Seq<u8>, post: Seq<u8>)
        requires
            s == pre + self.wire() + post,
        ensures
            Self::parse(s, pre.len() as int) == Some((self, (pre.len() + self.wire().len()) as int)),
    {
        vstd::bytes::lemma_auto_spec_u16_to_from_le_bytes();
        vstd::bytes::lemma_auto_spec_u32_to_from_le_bytes();
        vstd::bytes::lemma_auto_spec_u64_to_from_le_bytes();
    }

    pub fn encode(&self, out: &mut Vec<u8>)
        ensures
            final(out)@ == old(out)@ + self.wire(),
    {
        let ghost base = out@;
        assert(out@ =~= base + self.wire());
    }

    pub fn decode(s: &[u8], i: usize) -> (r: Option<(Self, usize)>)
        ensures
            parsed(Self::parse(s@, i as int), r),
    {
        let slen = s.len();
        assert(s@.len() == slen);
        if i <= slen {
            Some((CExit {  }, i))
        } else {
            None
        }
    }

    /// The full game frame carrying this packet.
    pub fn to_bytes(&self, sender_net_id: u32) -> (r: Vec<u8>)
        ensures
            r@ == game_frame(0x94, sender_net_id, self.wire()),
    {
        let mut payload: Vec<u8> = Vec::new();
        self.encode(&mut payload);
        game_frame_bytes(0x94, sender_net_id, &payload)
    }
}

/// End of the spawn sequence; empty body.
#[derive(Clone, Copy, Debug, PartialEq, Eq, Structural)]
pub struct SEndSpawn {
}

impl SEndSpawn {
    pub open spec fn wire(self) -> Seq<u8> {
        Seq::empty()
    }

    pub open spec fn parse(s: Seq<u8>, i: int) -> Option<(Self, int)> {
        if 0 <= i <= s.len() {
            Some((SEndSpawn {  }, i))
        } else {
            None
        }
    }

    /// Parsing an encoded record restores it.
    pub proof fn lemma_parse_wire(self, s: Seq<u8>, pre: Seq<u8>, post: Seq<u8>)
        requires
            s == pre + self.wire() + post,
        ensures
            Self::parse(s, pre.len() as int) == Some((self, (pre.len() + self.wire().len()) as int)),
    {
        vstd::bytes::lemma_auto_spec_u16_to_from_le_bytes();
        vstd::bytes::lemma_auto_spec_u32_to_from_le_bytes();
        vstd::bytes::lemma_auto_spec_u64_to_from_le_bytes();
    }

    pub fn encode(&self, out: &mut Vec<u8>)
        ensures
            final(out)@ == old(out)@ + self.wire(),
    {
        let ghost base = out@;
        assert(out@ =~= base + self.wire());
    }

    pub fn decode(s: &[u8], i: usize) -> (r: Option<(Self, usize)>)
        ensures
            parsed(Self::parse(s@, i as int), r),
    {
        let slen = s.len();
        assert(s@.len() == slen);
        if i <= slen {
            Some((SEndSpawn {  }, i))
        } else {
            None
        }
    }

    /// The full game frame carrying this packet.
    pub fn to_bytes(&self, sender_net_id: u32) -> (r: Vec<u8>)
        ensures
            r@ == game_frame(0x12, sender_net_id, self.wire()),
    {
        let mut payload: Vec<u8> = Vec::new();
        self.encode(&mut payload);
        game_frame_bytes(0x12, sender_net_id, &payload)
    }
}

/// Client reconnect request.
#[derive(Clone, Copy, Debug, PartialEq, Eq, Structural)]
pub struct CReconnect {
    pub is_full_reconnect: bool,
}

impl CReconnect {
    pub open spec fn wire(self) -> Seq<u8> {
        wire_bool(self.is_full_reconnect)
    }

    pub open spec fn parse(s: Seq<u8>, i: int) -> Option<(Self, int)> {
        match parse_bool(s, i) {
            Some((v0, j0)) =>
            Some((CReconnect { is_full_reconnect: v0 }, j0)),
            None => None,
        }
    }

    /// Parsing an encoded record restores it.
    pub proof fn lemma_parse_wire(self, s: Seq<u8>, pre: Seq<u8>, post: Seq<u8>)
        requires
            s == pre + self.wire() + post,
        ensures
            Self::parse(s, pre.len() as int) == Some((self, (pre.len() + self.wire().len()) as int)),
    {
        vstd::bytes::lemma_auto_spec_u16_to_from_le_bytes();
        vstd::bytes::lemma_auto_spec_u32_to_from_le_bytes();
        vstd::bytes::lemma_auto_spec_u64_to_from_le_bytes();
        assert(s =~= pre + wire_bool(self.is_full_reconnect) + post);
        lemma_parse_wire_bool(s, pre, self.is_full_reconnect, post);
    }

    pub fn encode(&self, out: &mut Vec<u8>)
        ensures
            final(out)@ == old(out)@ + self.wire(),
    {
        let ghost base = out@;
        put_bool(out, self.is_full_reconnect);
        assert(out@ =~= base + self.wire());
    }

    pub fn decode(s: &[u8], i: usize) -> (r: Option<(Self, usize)>)
        ensures
            parsed(Self::parse(s@, i as int), r),
    {
        let slen = s.len();
        assert(s@.len() == slen);
        match take_bool(s, i) {
            Some((v0, j0)) =>
            Some((CReconnect { is_full_reconnect: v0 }, j0)),
            None => None,
        }
    }

    /// The full game frame carrying this packet.
    pub fn to_bytes(&self, sender_net_id: u32) -> (r: Vec<u8>)
        ensures
            r@ == game_frame(0xAC, sender_net_id, self.wire()),
    {
        let mut payload: Vec<u8> = Vec::new();
        self.encode(&mut payload);
        game_frame_bytes(0xAC, sender_net_id, &payload)
    }
}

/// Reconnect acknowledgement.
#[derive(Clone, Copy, Debug, PartialEq, Eq, Structural)]
pub struct SReconnect {
    pub client_id: u32,
}

impl SReconnect {
    pub open spec fn wire(self) -> Seq<u8> {
        wire_u32(self.client_id)
    }

    pub open spec fn parse(s: Seq<u8>, i: int) -> Option<(Self, int)> {
        match parse_u32(s, i) {
            Some((v0, j0)) =>
            Some((SReconnect { client_id: v0 }, j0)),
            None => None,
        }
    }

    /// Parsing an encoded record restores it.
    pub proof fn lemma_parse_wire(self, s: Seq<u8>, pre: Seq<u8>, post: Seq<u8>)
        requires
            s == pre + self.wire() + post,
        ensures
            Self::parse(s, pre.len() as int) == Some((self, (pre.len() + self.wire().len()) as int)),
    {
        vstd::bytes::lemma_auto_spec_u16_to_from_le_bytes();
        vstd::bytes::lemma_auto_spec_u32_to_from_le_bytes();
        vstd::bytes::lemma_auto_spec_u64_to_from_le_bytes();
        assert(s =~= pre + wire_u32(self.client_id) + post);
        lemma_parse_wire_u32(s, pre, self.client_id, post);
    }

    pub fn encode(&self, out: &mut Vec<u8>)
        ensures
            final(out)@ == old(out)@ + self.wire(),
    {
        let ghost base = out@;
        put_u32(out, self.client_id);
        assert(out@ =~= base + self.wire());
    }

    pub fn decode(s: &[u8], i: usize) -> (r: Option<(Self, usize)>)
        ensures
            parsed(Self::parse(s@, i as int), r),
    {
        let slen = s.len();
        assert(s@.len() == slen);
        match take_u32(s, i) {
            Some((v0, j0)) =>
            Some((SReconnect { client_id: v0 }, j0)),
            None => None,
        }
    }

    /// The full game frame carrying this packet.
    pub fn to_bytes(&self, sender_net_id: u32) -> (r: Vec<u8>)
        ensures
            r@ == game_frame(0x10, sender_net_id, self.wire()),
    {
        let mut payload: Vec<u8> = Vec::new();
        self.encode(&mut payload);
        game_frame_bytes(0x10, sender_net_id, &payload)
    }
}

/// Status answer.
#[derive(Clone, Copy, Debug, PartialEq, Eq, Structural)]
pub struct SQueryStatusAns {
    pub is_ok: bool,
}

impl SQueryStatusAns {
    pub open spec fn wire(self) -> Seq<u8> {
        wire_bool(self.is_ok)
    }

    pub open spec fn parse(s: Seq<u8>, i: int) -> Option<(Self, int)> {
        match parse_bool(s, i) {
            Some((v0, j0)) =>
            Some((SQueryStatusAns { is_ok: v0 }, j0)),
            None => None,
        }
    }

    /// Parsing an encoded record restores it.
    pub proof fn lemma_parse_wire(self, s: Seq<u8>, pre: Seq<u8>, post: Seq<u8>)
        requires
            s == pre + self.wire() + post,
        ensures
            Self::parse(s, pre.len() as int) == Some((self, (pre.len() + self.wire().len()) as int)),
    {
        vstd::bytes::lemma_auto_spec_u16_to_from_le_bytes();
        vstd::bytes::lemma_auto_spec_u32_to_from_le_bytes();
        vstd::bytes::lemma_auto_spec_u64_to_from_le_bytes();
        assert(s =~= pre + wire_bool(self.is_ok) + post);
        lemma_parse_wire_bool(s, pre, self.is_ok, post);
    }

    pub fn encode(&self, out: &mut Vec<u8>)
        ensures
            final(out)@ == old(out)@ + self.wire(),
    {
        let ghost base = out@;
        put_bool(out, self.is_ok);
        assert(out@ =~= base + self.wire());
    }

    pub fn decode(s: &[u8], i: usize) -> (r: Option<(Self, usize)>)
        ensures
            parsed(Self::parse(s@, i as int), r),
    {
        let slen = s.len();
        assert(s@.len() == slen);
        match take_bool(s, i) {
            Some((v0, j0)) =>
            Some((SQueryStatusAns { is_ok: v0 }, j0)),
            None => None,
        }
    }

    /// The full game frame carrying this packet.
    pub fn to_bytes(&self, sender_net_id: u32) -> (r: Vec<u8>)
        ensures
            r@ == game_frame(0x8D, sender_net_id, self.wire()),
    {
        let mut payload: Vec<u8> = Vec::new();
        self.encode(&mut payload);
        game_frame_bytes(0x8D, sender_net_id, &payload)
    }
}

/// Game start broadcast.
#[derive(Clone, Copy, Debug, PartialEq, Eq, Structural)]
pub struct SStartGame {
    pub tournament_pause_enabled: bool,
}

impl SStartGame {
    pub open spec fn wire(self) -> Seq<u8> {
        wire_bool(self.tournament_pause_enabled)
    }

    pub open spec fn parse(s: Seq<u8>, i: int) -> Option<(Self, int)> {
        match parse_bool(s, i) {
            Some((v0, j0)) =>
            Some((SStartGame { tournament_pause_enabled: v0 }, j0)),
            None => None,
        }
    }

    /// Parsing an encoded record restores it.
    pub proof fn lemma_parse_wire(self, s: Seq<u8>, pre: Seq<u8>, post: Seq<u8>)
        requires
            s == pre + self.wire() + post,
        ensures
            Self::parse(s, pre.len() as int) == Some((self, (pre.len() + self.wire().len()) as int)),
    {
        vstd::bytes::lemma_auto_spec_u16_to_from_le_bytes();
        vstd::bytes::lemma_auto_spec_u32_to_from_le_bytes();
        vstd::bytes::lemma_auto_spec_u64_to_from_le_bytes();
        assert(s =~= pre + wire_bool(self.tournament_pause_enabled) + post);
        lemma_parse_wire_bool(s, pre, self.tournament_pause_enabled, post);
    }

    pub fn encode(&self, out: &mut Vec<u8>)
        ensures
            final(out)@ == old(out)@ + self.wire(),
    {
        let ghost base = out@;
        put_bool(out, self.tournament_pause_enabled);
        assert(out@ =~= base + self.wire());
    }

    pub fn decode(s: &[u8], i: usize) -> (r: Option<(Self, usize)>)
        ensures
            parsed(Self::parse(s@, i as int), r),
    {
        let slen = s.len();
        assert(s@.len() == slen);
        match take_bool(s, i) {
            Some((v0, j0)) =>
            Some((SStartGame { tournament_pause_enabled: v0 }, j0)),
            None => None,
        }
    }

    /// The full game frame carrying this packet.
    pub fn to_bytes(&self, sender_net_id: u32) -> (r: Vec<u8>)
        ensures
            r@ == game_frame(0x5F, sender_net_id, self.wire()),
    {
        let mut payload: Vec<u8> = Vec::new();
        self.encode(&mut payload);
        game_frame_bytes(0x5F, sender_net_id, &payload)
    }
}

/// Start of the spawn sequence.
#[derive(Clone, Copy, Debug, PartialEq, Eq, Structural)]
pub struct SStartSpawn {
    pub bot_count_order: u8,
    pub bot_count_chaos: u8,
}

impl SStartSpawn {
    pub open spec fn wire(self) -> Seq<u8> {
        wire_u8(self.bot_count_order) + wire_u8(self.bot_count_chaos)
    }

    pub open spec fn parse(s: Seq<u8>, i: int) -> Option<(Self, int)> {
        match parse_u8(s, i) {
            Some((v0, j0)) =>
            match parse_u8(s, j0) {
                Some((v1, j1)) =>
                Some((SStartSpawn { bot_count_order: v0, bot_count_chaos: v1 }, j1)),
                None => None,
            },
            None => None,
        }
    }

    /// Parsing an encoded record restores it.
    pub proof fn lemma_parse_wire(self, s: Seq<u8>, pre: Seq<u8>, post: Seq<u8>)
        requires
            s == pre + self.wire() + post,
        ensures
            Self::parse(s, pre.len() as int) == Some((self, (pre.len() + self.wire().len()) as int)),
    {
        vstd::bytes::lemma_auto_spec_u16_to_from_le_bytes();
        vstd::bytes::lemma_auto_spec_u32_to_from_le_bytes();
        vstd::bytes::lemma_auto_spec_u64_to_from_le_bytes();
        assert(s =~= pre + wire_u8(self.bot_count_order) + (wire_u8(self.bot_count_chaos) + post));
        lemma_parse_wire_u8(s, pre, self.bot_count_order, (wire_u8(self.bot_count_chaos) + post));
        let pre1 = pre + wire_u8(self.bot_count_order);
        assert(s =~= pre1 + wire_u8(self.bot_count_chaos) + post);
        lemma_parse_wire_u8(s, pre1, self.bot_count_chaos, post);
    }

    pub fn encode(&self, out: &mut Vec<u8>)
        ensures
            final(out)@ == old(out)@ + self.wire(),
    {
        let ghost base = out@;
        put_u8(out, self.bot_count_order);
        put_u8(out, self.bot_count_chaos);
        assert(out@ =~= base + self.wire());
    }

    pub fn decode(s: &[u8], i: usize) -> (r: Option<(Self, usize)>)
        ensures
            parsed(Self::parse(s@, i as int), r),
    {
        let slen = s.len();
        assert(s@.len() == slen);
        match take_u8(s, i) {
            Some((v0, j0)) =>
            match take_u8(s, j0) {
                Some((v1, j1)) =>
                Some((SStartSpawn { bot_count_order: v0, bot_count_chaos: v1 }, j1)),
                None => None,
            },
            None => None,
        }
    }

    /// The full game frame carrying this packet.
    pub fn to_bytes(&self, sender_net_id: u32) -> (r: Vec<u8>)
        ensures
            r@ == game_frame(0x65, sender_net_id, self.wire()),
    {
        let mut payload: Vec<u8> = Vec::new();
        self.encode(&mut payload);
        game_frame_bytes(0x65, sender_net_id, &payload)
    }
}

/// Mission start time, as the bit pattern of a single-precision second count.
#[derive(Clone, Copy, Debug, PartialEq, Eq, Structural)]
pub struct SSyncMissionStartTime {
    pub start_time_bits: u32,
}

impl SSyncMissionStartTime {
    pub open spec fn wire(self) -> Seq<u8> {
        wire_u32(self.start_time_bits)
    }

    pub open spec fn parse(s: Seq<u8>, i: int) -> Option<(Self, int)> {
        match parse_u32(s, i) {
            Some((v0, j0)) =>
            Some((SSyncMissionStartTime { start_time_bits: v0 }, j0)),
            None => None,
        }
    }

    /// Parsing an encoded record restores it.
    pub proof fn lemma_parse_wire(self, s: Seq<u8>, pre: Seq<u8>, post: Seq<u8>)
        requires
            s == pre + self.wire() + post,
        ensures
            Self::parse(s, pre.len() as int) == Some((self, (pre.len() + self.wire().len()) as int)),
    {
        vstd::bytes::lemma_auto_spec_u16_to_from_le_bytes();
        vstd::bytes::lemma_auto_spec_u32_to_from_le_bytes();
        vstd::bytes::lemma_auto_spec_u64_to_from_le_bytes();
        assert(s =~= pre + wire_u32(self.start_time_bits) + post);
        lemma_parse_wire_u32(s, pre, self.start_time_bits, post);
    }

    pub fn encode(&self, out: &mut Vec<u8>)
        ensures
            final(out)@ == old(out)@ + self.wire(),
    {
        let ghost base = out@;
        put_u32(out, self.start_time_bits);
        assert(out@ =~= base + self.wire());
    }

    pub fn decode(s: &[u8], i: usize) -> (r: Option<(Self, usize)>)
        ensures
            parsed(Self::parse(s@, i as int), r),
    {
        let slen = s.len();
        assert(s@.len() == slen);
        match take_u32(s, i) {
            Some((v0, j0)) =>
            Some((SSyncMissionStartTime { start_time_bits: v0 }, j0)),
            None => None,
        }
    }

    /// The full game frame carrying this packet.
    pub fn to_bytes(&self, sender_net_id: u32) -> (r: Vec<u8>)
        ensures
            r@ == game_frame(0xCA, sender_net_id, self.wire()),
    {
        let mut payload: Vec<u8> = Vec::new();
        self.encode(&mut payload);
        game_frame_bytes(0xCA, sender_net_id, &payload)
    }
}

/// Simulation clock broadcast, as a single-precision bit pattern.
#[derive(Clone, Copy, Debug, PartialEq, Eq, Structural)]
pub struct SSyncSimTime {
    pub sync_time_bits: u32,
}

impl SSyncSimTime {
    pub open spec fn wire(self) -> Seq<u8> {
        wire_u32(self.sync_time_bits)
    }

    pub open spec fn parse(s: Seq<u8>, i: int) -> Option<(Self, int)> {
        match parse_u32(s, i) {
            Some((v0, j0)) =>
            Some((SSyncSimTime { sync_time_bits: v0 }, j0)),
            None => None,
        }
    }

    /// Parsing an encoded record restores it.
    pub proof fn lemma_parse_wire(self, s: Seq<u8>, pre: Seq<u8>, post: Seq<u8>)
        requires
            s == pre + self.wire() + post,
        ensures
            Self::parse(s, pre.len() as int) == Some((self, (pre.len() + self.wire().len()) as int)),
    {
        vstd::bytes::lemma_auto_spec_u16_to_from_le_bytes();
        vstd::bytes::lemma_auto_spec_u32_to_from_le_bytes();
        vstd::bytes::lemma_auto_spec_u64_to_from_le_bytes();
        assert(s =~= pre + wire_u32(self.sync_time_bits) + post);
        lemma_parse_wire_u32(s, pre, self.sync_time_bits, post);
    }

    pub fn encode(&self, out: &mut Vec<u8>)
        ensures
            final(out)@ == old(out)@ + self.wire(),
    {
        let ghost base = out@;
        put_u32(out, self.sync_time_bits);
        assert(out@ =~= base + self.wire());
    }

    pub fn decode(s: &[u8], i: usize) -> (r: Option<(Self, usize)>)
        ensures
            parsed(Self::parse(s@, i as int), r),
    {
        let slen = s.len();
        assert(s@.len() == slen);
        match take_u32(s, i) {
            Some((v0, j0)) =>
            Some((SSyncSimTime { sync_time_bits: v0 }, j0)),
            None => None,
        }
    }

    /// The full game frame carrying this packet.
    pub fn to_bytes(&self, sender_net_id: u32) -> (r: Vec<u8>)
        ensures
            r@ == game_frame(0xC9, sender_net_id, self.wire()),
    {
        let mut payload: Vec<u8> = Vec::new();
        self.encode(&mut payload);
        game_frame_bytes(0xC9, sender_net_id, &payload)
    }
}

/// Client clock echo; ignored by the server.
#[derive(Clone, Copy, Debug, PartialEq, Eq, Structural)]
pub struct CSyncSimTime {
    pub time_last_server_bits: u32,
    pub time_last_client_bits: u32,
}

impl CSyncSimTime {
    pub open spec fn wire(self) -> Seq<u8> {
        wire_u32(self.time_last_server_bits) + wire_u32(self.time_last_client_bits)
    }

    pub open spec fn parse(s: Seq<u8>, i: int) -> Option<(Self, int)> {
        match parse_u32(s, i) {
            Some((v0, j0)) =>
            match parse_u32(s, j0) {
                Some((v1, j1)) =>
                Some((CSyncSimTime { time_last_server_bits: v0, time_last_client_bits: v1 }, j1)),
                None => None,
            },
            None => None,
        }
    }

    /// Parsing an encoded record restores it.
    pub proof fn lemma_parse_wire(self, s: Seq<u8>, pre: Seq<u8>, post: Seq<u8>)
        requires
            s == pre + self.wire() + post,
        ensures
            Self::parse(s, pre.len() as int) == Some((self, (pre.len() + self.wire().len()) as int)),
    {
        vstd::bytes::lemma_auto_spec_u16_to_from_le_bytes();
        vstd::bytes::lemma_auto_spec_u32_to_from_le_bytes();
        vstd::bytes::lemma_auto_spec_u64_to_from_le_bytes();
        assert(s =~= pre + wire_u32(self.time_last_server_bits) + (wire_u32(self.time_last_client_bits) + post));
        lemma_parse_wire_u32(s, pre, self.time_last_server_bits, (wire_u32(self.time_last_client_bits) + post));
        let pre1 = pre + wire_u32(self.time_last_server_bits);
        assert(s =~= pre1 + wire_u32(self.time_last_client_bits) + post);
        lemma_parse_wire_u32(s, pre1, self.time_last_client_bits, post);
    }

    pub fn encode(&self, out: &mut Vec<u8>)
        ensures
            final(out)@ == old(out)@ + self.wire(),
    {
        let ghost base = out@;
        put_u32(out, self.time_last_server_bits);
        put_u32(out, self.time_last_client_bits);
        assert(out@ =~= base + self.wire());
    }

    pub fn decode(s: &[u8], i: usize) -> (r: Option<(Self, usize)>)
        ensures
            parsed(Self::parse(s@, i as int), r),
    {
        let slen = s.len();
        assert(s@.len() == slen);
        match take_u32(s, i) {
            Some((v0, j0)) =>
            match take_u32(s, j0) {
                Some((v1, j1)) =>
                Some((CSyncSimTime { time_last_server_bits: v0, time_last_client_bits: v1 }, j1)),
                None => None,
            },
            None => None,
        }
    }

    /// The full game frame carrying this packet.
    pub fn to_bytes(&self, sender_net_id: u32) -> (r: Vec<u8>)
        ensures
            r@ == game_frame(0x08, sender_net_id, self.wire()),
    {
        let mut payload: Vec<u8> = Vec::new();
        self.encode(&mut payload);
        game_frame_bytes(0x08, sender_net_id, &payload)
    }
}

/// Game number notification.
#[derive(Clone, Copy, Debug, PartialEq, Eq, Structural)]
pub struct SWorldSendGameNumber {
    pub game_id: u64,
}

impl SWorldSendGameNumber {
    pub open spec fn wire(self) -> Seq<u8> {
        wire_u64(self.game_id)
    }

    pub open spec fn parse(s: Seq<u8>, i: int) -> Option<(Self, int)> {
        match parse_u64(s, i) {
            Some((v0, j0)) =>
            Some((SWorldSendGameNumber { game_id: v0 }, j0)),
            None => None,
        }
    }

    /// Parsing an encoded record restores it.
    pub proof fn lemma_parse_wire(self, s: Seq<u8>, pre: Seq<u8>, post: Seq<u8>)
        requires
            s == pre + self.wire() + post,
        ensures
            Self::parse(s, pre.len() as int) == Some((self, (pre.len() + self.wire().len()) as int)),
    {
        vstd::bytes::lemma_auto_spec_u16_to_from_le_bytes();
        vstd::bytes::lemma_auto_spec_u32_to_from_le_bytes();
        vstd::bytes::lemma_auto_spec_u64_to_from_le_bytes();
        assert(s =~= pre + wire_u64(self.game_id) + post);
        lemma_parse_wire_u64(s, pre, self.game_id, post);
    }

    pub fn encode(&self, out: &mut Vec<u8>)
        ensures
            final(out)@ == old(out)@ + self.wire(),
    {
        let ghost base = out@;
        put_u64(out, self.game_id);
        assert(out@ =~= base + self.wire());
    }

    pub fn decode(s: &[u8], i: usize) -> (r: Option<(Self, usize)>)
        ensures
            parsed(Self::parse(s@, i as int), r),
    {
        let slen = s.len();
        assert(s@.len() == slen);
        match take_u64(s, i) {
            Some((v0, j0)) =>
            Some((SWorldSendGameNumber { game_id: v0 }, j0)),
            None => None,
        }
    }

    /// The full game frame carrying this packet.
    pub fn to_bytes(&self, sender_net_id: u32) -> (r: Vec<u8>)
        ensures
            r@ == game_frame(0x98, sender_net_id, self.wire()),
    {
        let mut payload: Vec<u8> = Vec::new();
        self.encode(&mut payload);
        game_frame_bytes(0x98, sender_net_id, &payload)
    }
}

/// Selected-object notification; ignored by the server.
#[derive(Clone, Copy, Debug, PartialEq, Eq, Structural)]
pub struct CSendSelectedObjID {
    pub client_id: u32,
    pub selected_net_id: u32,
}

impl CSendSelectedObjID {
    pub open spec fn wire(self) -> Seq<u8> {
        wire_u32(self.client_id) + wire_u32(self.selected_net_id)
    }

    pub open spec fn parse(s: Seq<u8>, i: int) -> Option<(Self, int)> {
        match parse_u32(s, i) {
            Some((v0, j0)) =>
            match parse_u32(s, j0) {
                Some((v1, j1)) =>
                Some((CSendSelectedObjID { client_id: v0, selected_net_id: v1 }, j1)),
                None => None,
            },
            None => None,
        }
    }

    /// Parsing an encoded record restores it.
    pub proof fn lemma_parse_wire(self, s: Seq<u8>, pre: Seq<u8>, post: Seq<u8>)
        requires
            s == pre + self.wire() + post,
        ensures
            Self::parse(s, pre.len() as int) == Some((self, (pre.len() + self.wire().len()) as int)),
    {
        vstd::bytes::lemma_auto_spec_u16_to_from_le_bytes();
        vstd::bytes::lemma_auto_spec_u32_to_from_le_bytes();
        vstd::bytes::lemma_auto_spec_u64_to_from_le_bytes();
        assert(s =~= pre + wire_u32(self.client_id) + (wire_u32(self.selected_net_id) + post));
        lemma_parse_wire_u32(s, pre, self.client_id, (wire_u32(self.selected_net_id) + post));
        let pre1 = pre + wire_u32(self.client_id);
        assert(s =~= pre1 + wire_u32(self.selected_net_id) + post);
        lemma_parse_wire_u32(s, pre1, self.selected_net_id, post);
    }

    pub fn encode(&self, out: &mut Vec<u8>)
        ensures
            final(out)@ == old(out)@ + self.wire(),
    {
        let ghost base = out@;
        put_u32(out, self.client_id);
        put_u32(out, self.selected_net_id);
        assert(out@ =~= base + self.wire());
    }

    pub fn decode(s: &[u8], i: usize) -> (r: Option<(Self, usize)>)
        ensures
            parsed(Self::parse(s@, i as int), r),
    {
        let slen = s.len();
        assert(s@.len() == slen);
        match take_u32(s, i) {
            Some((v0, j0)) =>
            match take_u32(s, j0) {
                Some((v1, j1)) =>
                Some((CSendSelectedObjID { client_id: v0, selected_net_id: v1 }, j1)),
                None => None,
            },
            None => None,
        }
    }

    /// The full game frame carrying this packet.
    pub fn to_bytes(&self, sender_net_id: u32) -> (r: Vec<u8>)
        ensures
            r@ == game_frame(0xB7, sender_net_id, self.wire()),
    {
        let mut payload: Vec<u8> = Vec::new();
        self.encode(&mut payload);
        game_frame_bytes(0xB7, sender_net_id, &payload)
    }
}

/// High-rate camera report; ignored by the server.
#[derive(Clone, Copy, Debug, PartialEq, Eq, Structural)]
pub struct CWorldSendCameraServer {
    pub camera_position: Vector3,
    pub camera_direction: Vector3,
    pub client_id: u32,
    pub sync_id: u8,
}

impl CWorldSendCameraServer {
    pub open spec fn wire(self) -> Seq<u8> {
        self.camera_position.wire() + self.camera_direction.wire() + wire_u32(self.client_id) + wire_u8(self.sync_id)
    }

    pub open spec fn parse(s: Seq<u8>, i: int) -> Option<(Self, int)> {
        match Vector3::parse(s, i) {
            Some((v0, j0)) =>
            match Vector3::parse(s, j0) {
                Some((v1, j1)) =>
                match parse_u32(s, j1) {
                    Some((v2, j2)) =>
                    match parse_u8(s, j2) {
                        Some((v3, j3)) =>
                        Some((CWorldSendCameraServer { camera_position: v0, camera_direction: v1, client_id: v2, sync_id: v3 }, j3)),
                        None => None,
                    },
                    None => None,
                },
                None => None,
            },
            None => None,
        }
    }

    /// Parsing an encoded record restores it.
    pub proof fn lemma_parse_wire(self, s: Seq<u8>, pre: Seq<u8>, post: Seq<u8>)
        requires
            s == pre + self.wire() + post,
        ensures
            Self::parse(s, pre.len() as int) == Some((self, (pre.len() + self.wire().len()) as int)),
    {
        vstd::bytes::lemma_auto_spec_u16_to_from_le_bytes();
        vstd::bytes::lemma_auto_spec_u32_to_from_le_bytes();
        vstd::bytes::lemma_auto_spec_u64_to_from_le_bytes();
        assert(s =~= pre + self.camera_position.wire() + (self.camera_direction.wire() + wire_u32(self.client_id) + wire_u8(self.sync_id) + post));
        self.camera_position.lemma_parse_wire(s, pre, (self.camera_direction.wire() + wire_u32(self.client_id) + wire_u8(self.sync_id) + post));
        let pre1 = pre + self.camera_position.wire();
        assert(s =~= pre1 + self.camera_direction.wire() + (wire_u32(self.client_id) + wire_u8(self.sync_id) + post));
        self.camera_direction.lemma_parse_wire(s, pre1, (wire_u32(self.client_id) + wire_u8(self.sync_id) + post));
        let pre2 = pre1 + self.camera_direction.wire();
        assert(s =~= pre2 + wire_u32(self.client_id) + (wire_u8(self.sync_id) + post));
        lemma_parse_wire_u32(s, pre2, self.client_id, (wire_u8(self.sync_id) + post));
        let pre3 = pre2 + wire_u32(self.client_id);
        assert(s =~= pre3 + wire_u8(self.sync_id) + post);
        lemma_parse_wire_u8(s, pre3, self.sync_id, post);
    }

    pub fn encode(&self, out: &mut Vec<u8>)
        ensures
            final(out)@ == old(out)@ + self.wire(),
    {
        let ghost base = out@;
        self.camera_position.encode(out);
        self.camera_direction.encode(out);
        put_u32(out, self.client_id);
        put_u8(out, self.sync_id);
        assert(out@ =~= base + self.wire());
    }

    pub fn decode(s: &[u8], i: usize) -> (r: Option<(Self, usize)>)
        ensures
            parsed(Self::parse(s@, i as int), r),
    {
        let slen = s.len();
        assert(s@.len() == slen);
        match Vector3::decode(s, i) {
            Some((v0, j0)) =>
            match Vector3::decode(s, j0) {
                Some((v1, j1)) =>
                match take_u32(s, j1) {
                    Some((v2, j2)) =>
                    match take_u8(s, j2) {
                        Some((v3, j3)) =>
                        Some((CWorldSendCameraServer { camera_position: v0, camera_direction: v1, client_id: v2, sync_id: v3 }, j3)),
                        None => None,
                    },
                    None => None,
                },
                None => None,
            },
            None => None,
        }
    }

    /// The full game frame carrying this packet.
    pub fn to_bytes(&self, sender_net_id: u32) -> (r: Vec<u8>)
        ensures
            r@ == game_frame(0x30, sender_net_id, self.wire()),
    {
        let mut payload: Vec<u8> = Vec::new();
        self.encode(&mut payload);
        game_frame_bytes(0x30, sender_net_id, &payload)
    }
}

/// One inventory entry of a visibility packet.
#[derive(Clone, Copy, Debug, PartialEq, Eq, Structural)]
pub struct ItemData {
    pub slot: u8,
    pub items_in_slot: u8,
    pub spell_charges: u8,
    pub item_id: u32,
}

impl ItemData {
    pub open spec fn wire(self) -> Seq<u8> {
        wire_u8(self.slot) + wire_u8(self.items_in_slot) + wire_u8(self.spell_charges) + wire_u32(self.item_id)
    }

    pub open spec fn parse(s: Seq<u8>, i: int) -> Option<(Self, int)> {
        match parse_u8(s, i) {
            Some((v0, j0)) =>
            match parse_u8(s, j0) {
                Some((v1, j1)) =>
                match parse_u8(s, j1) {
                    Some((v2, j2)) =>
                    match parse_u32(s, j2) {
                        Some((v3, j3)) =>
                        Some((ItemData { slot: v0, items_in_slot: v1, spell_charges: v2, item_id: v3 }, j3)),
                        None => None,
                    },
                    None => None,
                },
                None => None,
            },
            None => None,
        }
    }

    /// Parsing an encoded record restores it.
    pub proof fn lemma_parse_wire(self, s: Seq<u8>, pre: Seq<u8>, post: Seq<u8>)
        requires
            s == pre + self.wire() + post,
        ensures
            Self::parse(s, pre.len() as int) == Some((self, (pre.len() + self.wire().len()) as int)),
    {
        vstd::bytes::lemma_auto_spec_u16_to_from_le_bytes();
        vstd::bytes::lemma_auto_spec_u32_to_from_le_bytes();
        vstd::bytes::lemma_auto_spec_u64_to_from_le_bytes();
        assert(s =~= pre + wire_u8(self.slot) + (wire_u8(self.items_in_slot) + wire_u8(self.spell_charges) + wire_u32(self.item_id) + post));
        lemma_parse_wire_u8(s, pre, self.slot, (wire_u8(self.items_in_slot) + wire_u8(self.spell_charges) + wire_u32(self.item_id) + post));
        let pre1 = pre + wire_u8(self.slot);
        assert(s =~= pre1 + wire_u8(self.items_in_slot) + (wire_u8(self.spell_charges) + wire_u32(self.item_id) + post));
        lemma_parse_wire_u8(s, pre1, self.items_in_slot, (wire_u8(self.spell_charges) + wire_u32(self.item_id) + post));
        let pre2 = pre1 + wire_u8(self.items_in_slot);
        assert(s =~= pre2 + wire_u8(self.spell_charges) + (wire_u32(self.item_id) + post));
        lemma_parse_wire_u8(s, pre2, self.spell_charges, (wire_u32(self.item_id) + post));
        let pre3 = pre2 + wire_u8(self.spell_charges);
        assert(s =~= pre3 + wire_u32(self.item_id) + post);
        lemma_parse_wire_u32(s, pre3, self.item_id, post);
    }

    pub fn encode(&self, out: &mut Vec<u8>)
        ensures
            final(out)@ == old(out)@ + self.wire(),
    {
        let ghost base = out@;
        put_u8(out, self.slot);
        put_u8(out, self.items_in_slot);
        put_u8(out, self.spell_charges);
        put_u32(out, self.item_id);
        assert(out@ =~= base + self.wire());
    }

    pub fn decode(s: &[u8], i: usize) -> (r: Option<(Self, usize)>)
        ensures
            parsed(Self::parse(s@, i as int), r),
    {
        let slen = s.len();
        assert(s@.len() == slen);
        match take_u8(s, i) {
            Some((v0, j0)) =>
            match take_u8(s, j0) {
                Some((v1, j1)) =>
                match take_u8(s, j1) {
                    Some((v2, j2)) =>
                    match take_u32(s, j2) {
                        Some((v3, j3)) =>
                        Some((ItemData { slot: v0, items_in_slot: v1, spell_charges: v2, item_id: v3 }, j3)),
                        None => None,
                    },
                    None => None,
                },
                None => None,
            },
            None => None,
        }
    }
}

/// One talent entry of an avatar record.
#[derive(Clone, Copy, Debug, PartialEq, Eq, Structural)]
pub struct Talent {
    pub hash: u32,
    pub level: u8,
}

impl Talent {
    pub open spec fn wire(self) -> Seq<u8> {
        wire_u32(self.hash) + wire_u8(self.level)
    }

    pub open spec fn parse(s: Seq<u8>, i: int) -> Option<(Self, int)> {
        match parse_u32(s, i) {
            Some((v0, j0)) =>
            match parse_u8(s, j0) {
                Some((v1, j1)) =>
                Some((Talent { hash: v0, level: v1 }, j1)),
                None => None,
            },
            None => None,
        }
    }

    /// Parsing an encoded record restores it.
    pub proof fn lemma_parse_wire(self, s: Seq<u8>, pre: Seq<u8>, post: Seq<u8>)
        requires
            s == pre + self.wire() + post,
        ensures
            Self::parse(s, pre.len() as int) == Some((self, (pre.len() + self.wire().len()) as int)),
    {
        vstd::bytes::lemma_auto_spec_u16_to_from_le_bytes();
        vstd::bytes::lemma_auto_spec_u32_to_from_le_bytes();
        vstd::bytes::lemma_auto_spec_u64_to_from_le_bytes();
        assert(s =~= pre + wire_u32(self.hash) + (wire_u8(self.level) + post));
        lemma_parse_wire_u32(s, pre, self.hash, (wire_u8(self.level) + post));
        let pre1 = pre + wire_u32(self.hash);
        assert(s =~= pre1 + wire_u8(self.level) + post);
        lemma_parse_wire_u8(s, pre1, self.level, post);
    }

    pub fn encode(&self, out: &mut Vec<u8>)
        ensures
            final(out)@ == old(out)@ + self.wire(),
    {
        let ghost base = out@;
        put_u32(out, self.hash);
        put_u8(out, self.level);
        assert(out@ =~= base + self.wire());
    }

    pub fn decode(s: &[u8], i: usize) -> (r: Option<(Self, usize)>)
        ensures
            parsed(Self::parse(s@, i as int), r),
    {
        let slen = s.len();
        assert(s@.len() == slen);
        match take_u32(s, i) {
            Some((v0, j0)) =>
            match take_u8(s, j0) {
                Some((v1, j1)) =>
                Some((Talent { hash: v0, level: v1 }, j1)),
                None => None,
            },
            None => None,
        }
    }
}

// ---------------------------------------------------------------------------
// connection info: the load-progress record with masked and bit-packed
// fields
// ---------------------------------------------------------------------------

/// Load-progress data; the ping travels masked to 15 bits and readiness as
/// the low bit of one byte.
#[derive(Clone, Copy, Debug, PartialEq, Eq, Structural)]
pub struct ConnectionInfo {
    pub client_id: u32,
    pub player_id: u64,
    pub percentage_bits: u32,
    pub eta_bits: u32,
    pub count: i16,
    pub ping: u16,
    pub ready: bool,
}

impl ConnectionInfo {
    /// The ping must fit in its fifteen wire bits.
    pub open spec fn valid(self) -> bool {
        self.ping < 0x8000
    }

    pub open spec fn wire(self) -> Seq<u8> {
        wire_u32(self.client_id) + wire_u64(self.player_id) + wire_u32(self.percentage_bits)
            + wire_u32(self.eta_bits) + wire_i16(self.count) + wire_u16(self.ping & 0x7fff)
            + wire_u8(bit8(self.ready))
    }

    pub open spec fn parse(s: Seq<u8>, i: int) -> Option<(Self, int)> {
        match parse_u32(s, i) {
            Some((cid, j0)) => match parse_u64(s, j0) {
                Some((pid, j1)) => match parse_u32(s, j1) {
                    Some((pct, j2)) => match parse_u32(s, j2) {
                        Some((eta, j3)) => match parse_i16(s, j3) {
                            Some((count, j4)) => match parse_u16(s, j4) {
                                Some((ping, j5)) => match parse_u8(s, j5) {
                                    Some((rb, j6)) => Some(
                                        (
                                            ConnectionInfo {
                                                client_id: cid,
                                                player_id: pid,
                                                percentage_bits: pct,
                                                eta_bits: eta,
                                                count,
                                                ping: ping & 0x7fff,
                                                ready: rb & 1 != 0,
                                            },
                                            j6,
                                        ),
                                    ),
                                    None => None,
                                },
                                None => None,
                            },
                            None => None,
                        },
                        None => None,
                    },
                    None => None,
                },
                None => None,
            },
            None => None,
        }
    }

    /// Parsing an encoded record restores it.
    #[verifier::rlimit(100)]
    #[verifier::spinoff_prover]
    pub proof fn lemma_parse_wire(self, s: Seq<u8>, pre: Seq<u8>, post: Seq<u8>)
        requires
            self.valid(),
            s == pre + self.wire() + post,
        ensures
            Self::parse(s, pre.len() as int) == Some((self, (pre.len() + self.wire().len()) as int)),
    {
        vstd::bytes::lemma_auto_spec_u16_to_from_le_bytes();
        vstd::bytes::lemma_auto_spec_u32_to_from_le_bytes();
        vstd::bytes::lemma_auto_spec_u64_to_from_le_bytes();
        let p = self.ping;
        let mp = self.ping & 0x7fff;
        let rb = bit8(self.ready);
        assert(mp == p && mp & 0x7fff == mp) by (bit_vector)
            requires
                mp == p & 0x7fff,
                p < 0x8000,
        ;
        assert((rb & 1 != 0) <==> rb == 1) by (bit_vector)
            requires
                rb <= 1,
        ;
        let w0 = wire_u32(self.client_id);
        let w1 = wire_u64(self.player_id);
        let w2 = wire_u32(self.percentage_bits);
        let w3 = wire_u32(self.eta_bits);
        let w4 = wire_i16(self.count);
        let w5 = wire_u16(mp);
        let w6 = wire_u8(rb);
        assert(s =~= pre + w0 + (w1 + w2 + w3 + w4 + w5 + w6 + post));
        lemma_parse_wire_u32(s, pre, self.client_id, w1 + w2 + w3 + w4 + w5 + w6 + post);
        let pre1 = pre + w0;
        assert(s =~= pre1 + w1 + (w2 + w3 + w4 + w5 + w6 + post));
        lemma_parse_wire_u64(s, pre1, self.player_id, w2 + w3 + w4 + w5 + w6 + post);
        let pre2 = pre1 + w1;
        assert(s =~= pre2 + w2 + (w3 + w4 + w5 + w6 + post));
        lemma_parse_wire_u32(s, pre2, self.percentage_bits, w3 + w4 + w5 + w6 + post);
        let pre3 = pre2 + w2;
        assert(s =~= pre3 + w3 + (w4 + w5 + w6 + post));
        lemma_parse_wire_u32(s, pre3, self.eta_bits, w4 + w5 + w6 + post);
        let pre4 = pre3 + w3;
        assert(s =~= pre4 + w4 + (w5 + w6 + post));
        lemma_parse_wire_i16(s, pre4, self.count, w5 + w6 + post);
        let pre5 = pre4 + w4;
        assert(s =~= pre5 + w5 + (w6 + post));
        lemma_parse_wire_u16(s, pre5, mp, w6 + post);
        let pre6 = pre5 + w5;
        assert(s =~= pre6 + w6 + post);
        lemma_parse_wire_u8(s, pre6, rb, post);
    }

    pub fn encode(&self, out: &mut Vec<u8>)
        ensures
            final(out)@ == old(out)@ + self.wire(),
    {
        let ghost base = out@;
        put_u32(out, self.client_id);
        put_u64(out, self.player_id);
        put_u32(out, self.percentage_bits);
        put_u32(out, self.eta_bits);
        put_i16(out, self.count);
        put_u16(out, self.ping & 0x7fff);
        put_u8(out, bool_u8(self.ready));
        assert(out@ =~= base + self.wire());
    }

    pub fn decode(s: &[u8], i: usize) -> (r: Option<(Self, usize)>)
        ensures
            parsed(Self::parse(s@, i as int), r),
            r is Some ==> r->Some_0.0.valid(),
    {
        let slen = s.len();
        assert(s@.len() == slen);
        let (cid, j0) = match take_u32(s, i) { Some(v) => v, None => { return None; } };
        let (pid, j1) = match take_u64(s, j0) { Some(v) => v, None => { return None; } };
        let (pct, j2) = match take_u32(s, j1) { Some(v) => v, None => { return None; } };
        let (eta, j3) = match take_u32(s, j2) { Some(v) => v, None => { return None; } };
        let (count, j4) = match take_i16(s, j3) { Some(v) => v, None => { return None; } };
        let (ping, j5) = match take_u16(s, j4) { Some(v) => v, None => { return None; } };
        let (rb, j6) = match take_u8(s, j5) { Some(v) => v, None => { return None; } };
        let mp = ping & 0x7fff;
        assert(mp < 0x8000) by (bit_vector)
            requires
                mp == ping & 0x7fff,
        ;
        Some(
            (
                ConnectionInfo {
                    client_id: cid,
                    player_id: pid,
                    percentage_bits: pct,
                    eta_bits: eta,
                    count,
                    ping: mp,
                    ready: rb & 1 != 0,
                },
                j6,
            ),
        )
    }
}

/// Load progress report from a client; its player id is patched before the
/// fan-out.
#[derive(Clone, Copy, Debug, PartialEq, Eq, Structural)]
pub struct CPingLoadInfo {
    pub connection_info: ConnectionInfo,
}

impl CPingLoadInfo {
    pub open spec fn valid(self) -> bool {
        self.connection_info.valid()
    }

    pub open spec fn wire(self) -> Seq<u8> {
        self.connection_info.wire()
    }

    pub open spec fn parse(s: Seq<u8>, i: int) -> Option<(Self, int)> {
        match ConnectionInfo::parse(s, i) {
            Some((ci, j)) => Some((CPingLoadInfo { connection_info: ci }, j)),
            None => None,
        }
    }

    /// Parsing an encoded record restores it.
    #[verifier::rlimit(100)]
    #[verifier::spinoff_prover]
    pub proof fn lemma_parse_wire(self, s: Seq<u8>, pre: Seq<u8>, post: Seq<u8>)
        requires
            self.valid(),
            s == pre + self.wire() + post,
        ensures
            Self::parse(s, pre.len() as int) == Some((self, (pre.len() + self.wire().len()) as int)),
    {
        self.connection_info.lemma_parse_wire(s, pre, post);
    }

    pub fn encode(&self, out: &mut Vec<u8>)
        ensures
            final(out)@ == old(out)@ + self.wire(),
    {
        self.connection_info.encode(out);
    }

    pub fn decode(s: &[u8], i: usize) -> (r: Option<(Self, usize)>)
        ensures
            parsed(Self::parse(s@, i as int), r),
            r is Some ==> r->Some_0.0.valid(),
    {
        match ConnectionInfo::decode(s, i) {
            Some((ci, j)) => Some((CPingLoadInfo { connection_info: ci }, j)),
            None => None,
        }
    }

    /// The full game frame carrying this packet.
    pub fn to_bytes(&self, sender_net_id: u32) -> (r: Vec<u8>)
        ensures
            r@ == game_frame(0x19, sender_net_id, self.wire()),
    {
        let mut payload: Vec<u8> = Vec::new();
        self.encode(&mut payload);
        game_frame_bytes(0x19, sender_net_id, &payload)
    }
}

/// Load progress fan-out to every client.
#[derive(Clone, Copy, Debug, PartialEq, Eq, Structural)]
pub struct SPingLoadInfo {
    pub connection_info: ConnectionInfo,
}

impl SPingLoadInfo {
    pub open spec fn valid(self) -> bool {
        self.connection_info.valid()
    }

    pub open spec fn wire(self) -> Seq<u8> {
        self.connection_info.wire()
    }

    pub open spec fn parse(s: Seq<u8>, i: int) -> Option<(Self, int)> {
        match ConnectionInfo::parse(s, i) {
            Some((ci, j)) => Some((SPingLoadInfo { connection_info: ci }, j)),
            None => None,
        }
    }

    /// Parsing an encoded record restores it.
    #[verifier::rlimit(100)]
    #[verifier::spinoff_prover]
    pub proof fn lemma_parse_wire(self, s: Seq<u8>, pre: Seq<u8>, post: Seq<u8>)
        requires
            self.valid(),
            s == pre + self.wire() + post,
        ensures
            Self::parse(s, pre.len() as int) == Some((self, (pre.len() + self.wire().len()) as int)),
    {
        self.connection_info.lemma_parse_wire(s, pre, post);
    }

    pub fn encode(&self, out: &mut Vec<u8>)
        ensures
            final(out)@ == old(out)@ + self.wire(),
    {
        self.connection_info.encode(out);
    }

    pub fn decode(s: &[u8], i: usize) -> (r: Option<(Self, usize)>)
        ensures
            parsed(Self::parse(s@, i as int), r),
    {
        match ConnectionInfo::decode(s, i) {
            Some((ci, j)) => Some((SPingLoadInfo { connection_info: ci }, j)),
            None => None,
        }
    }

    /// The full game frame carrying this packet.
    pub fn to_bytes(&self, sender_net_id: u32) -> (r: Vec<u8>)
        ensures
            r@ == game_frame(0x9D, sender_net_id, self.wire()),
    {
        let mut payload: Vec<u8> = Vec::new();
        self.encode(&mut payload);
        game_frame_bytes(0x9D, sender_net_id, &payload)
    }
}

// ---------------------------------------------------------------------------
// player load info: the fixed 87-byte roster entry of the version handshake
// ---------------------------------------------------------------------------

/// One roster entry of the version answer.  Two 28-byte reserved runs
/// travel as zeros and are carried nowhere.
#[derive(Clone, Copy, Debug, PartialEq, Eq, Structural)]
pub struct PlayerLoadInfo {
    pub player_id: u64,
    pub summoner_level: u16,
    pub summoner_spell1: u32,
    pub summoner_spell2: u32,
    pub is_bot: bool,
    pub team_id: u32,
    pub bot_difficulty: i32,
    pub profile_icon_id: i32,
}

impl PlayerLoadInfo {
    pub open spec fn wire(self) -> Seq<u8> {
        wire_u64(self.player_id) + wire_u16(self.summoner_level) + wire_u32(self.summoner_spell1)
            + wire_u32(self.summoner_spell2) + wire_bool(self.is_bot) + wire_u32(self.team_id)
            + zero_bytes(56) + wire_i32(self.bot_difficulty) + wire_i32(self.profile_icon_id)
    }

    pub open spec fn parse(s: Seq<u8>, i: int) -> Option<(Self, int)> {
        match parse_u64(s, i) {
            Some((pid, j0)) => match parse_u16(s, j0) {
                Some((lvl, j1)) => match parse_u32(s, j1) {
                    Some((sp1, j2)) => match parse_u32(s, j2) {
                        Some((sp2, j3)) => match parse_bool(s, j3) {
                            Some((bot, j4)) => match parse_u32(s, j4) {
                                Some((team, j5)) => match parse_raw(s, j5, 56) {
                                    Some((_pad, j6)) => match parse_i32(s, j6) {
                                        Some((diff, j7)) => match parse_i32(s, j7) {
                                            Some((icon, j8)) => Some(
                                                (
                                                    PlayerLoadInfo {
                                                        player_id: pid,
                                                        summoner_level: lvl,
                                                        summoner_spell1: sp1,
                                                        summoner_spell2: sp2,
                                                        is_bot: bot,
                                                        team_id: team,
                                                        bot_difficulty: diff,
                                                        profile_icon_id: icon,
                                                    },
                                                    j8,
                                                ),
                                            ),
                                            None => None,
                                        },
                                        None => None,
                                    },
                                    None => None,
                                },
                                None => None,
                            },
                            None => None,
                        },
                        None => None,
                    },
                    None => None,
                },
                None => None,
            },
            None => None,
        }
    }

    /// Parsing an encoded record restores it.
    #[verifier::rlimit(100)]
    #[verifier::spinoff_prover]
    pub proof fn lemma_parse_wire(self, s: Seq<u8>, pre: Seq<u8>, post: Seq<u8>)
        requires
            s == pre + self.wire() + post,
        ensures
            Self::parse(s, pre.len() as int) == Some((self, (pre.len() + self.wire().len()) as int)),
    {
        vstd::bytes::lemma_auto_spec_u16_to_from_le_bytes();
        vstd::bytes::lemma_auto_spec_u32_to_from_le_bytes();
        vstd::bytes::lemma_auto_spec_u64_to_from_le_bytes();
        let w0 = wire_u64(self.player_id);
        let w1 = wire_u16(self.summoner_level);
        let w2 = wire_u32(self.summoner_spell1);
        let w3 = wire_u32(self.summoner_spell2);
        let w4 = wire_bool(self.is_bot);
        let w5 = wire_u32(self.team_id);
        let w6 = zero_bytes(56);
        let w7 = wire_i32(self.bot_difficulty);
        let w8 = wire_i32(self.profile_icon_id);
        let rest7 = w8 + post;
        let rest6 = w7 + rest7;
        let rest5 = w6 + rest6;
        let rest4 = w5 + rest5;
        let rest3 = w4 + rest4;
        let rest2 = w3 + rest3;
        let rest1 = w2 + rest2;
        let rest0 = w1 + rest1;
        assert(s =~= pre + w0 + rest0);
        lemma_parse_wire_u64(s, pre, self.player_id, rest0);
        let pre1 = pre + w0;
        assert(s =~= pre1 + w1 + rest1);
        lemma_parse_wire_u16(s, pre1, self.summoner_level, rest1);
        let pre2 = pre1 + w1;
        assert(s =~= pre2 + w2 + rest2);
        lemma_parse_wire_u32(s, pre2, self.summoner_spell1, rest2);
        let pre3 = pre2 + w2;
        assert(s =~= pre3 + w3 + rest3);
        lemma_parse_wire_u32(s, pre3, self.summoner_spell2, rest3);
        let pre4 = pre3 + w3;
        assert(s =~= pre4 + w4 + rest4);
        lemma_parse_wire_bool(s, pre4, self.is_bot, rest4);
        let pre5 = pre4 + w4;
        assert(s =~= pre5 + w5 + rest5);
        lemma_parse_wire_u32(s, pre5, self.team_id, rest5);
        let pre6 = pre5 + w5;
        assert(s =~= pre6 + w6 + rest6);
        crate::wire::lemma_mid_subrange(s, pre6, w6, rest6);
        assert(parse_raw(s, pre6.len() as int, 56) == Some((w6, pre6.len() + 56 as int)));
        let pre7 = pre6 + w6;
        assert(s =~= pre7 + w7 + rest7);
        lemma_parse_wire_i32(s, pre7, self.bot_difficulty, rest7);
        let pre8 = pre7 + w7;
        assert(s =~= pre8 + w8 + post);
        lemma_parse_wire_i32(s, pre8, self.profile_icon_id, post);
    }

    pub fn encode(&self, out: &mut Vec<u8>)
        ensures
            final(out)@ == old(out)@ + self.wire(),
    {
        let ghost base = out@;
        put_u64(out, self.player_id);
        put_u16(out, self.summoner_level);
        put_u32(out, self.summoner_spell1);
        put_u32(out, self.summoner_spell2);
        put_bool(out, self.is_bot);
        put_u32(out, self.team_id);
        put_zeros(out, 56);
        put_i32(out, self.bot_difficulty);
        put_i32(out, self.profile_icon_id);
        assert(out@ =~= base + self.wire());
    }

    pub fn decode(s: &[u8], i: usize) -> (r: Option<(Self, usize)>)
        ensures
            parsed(Self::parse(s@, i as int), r),
    {
        let slen = s.len();
        assert(s@.len() == slen);
        let (pid, j0) = match take_u64(s, i) { Some(v) => v, None => { return None; } };
        let (lvl, j1) = match take_u16(s, j0) { Some(v) => v, None => { return None; } };
        let (sp1, j2) = match take_u32(s, j1) { Some(v) => v, None => { return None; } };
        let (sp2, j3) = match take_u32(s, j2) { Some(v) => v, None => { return None; } };
        let (bot, j4) = match take_bool(s, j3) { Some(v) => v, None => { return None; } };
        let (team, j5) = match take_u32(s, j4) { Some(v) => v, None => { return None; } };
        let (_pad, j6) = match take_raw(s, j5, 56) { Some(v) => v, None => { return None; } };
        let (diff, j7) = match take_i32(s, j6) { Some(v) => v, None => { return None; } };
        let (icon, j8) = match take_i32(s, j7) { Some(v) => v, None => { return None; } };
        Some(
            (
                PlayerLoadInfo {
                    player_id: pid,
                    summoner_level: lvl,
                    summoner_spell1: sp1,
                    summoner_spell2: sp2,
                    is_bot: bot,
                    team_id: team,
                    bot_difficulty: diff,
                    profile_icon_id: icon,
                },
                j8,
            ),
        )
    }
}

// ---------------------------------------------------------------------------
// runs of talent records
// ---------------------------------------------------------------------------

/// The wire image of a run of talent records, front first.
pub open spec fn wire_talents(l: Seq<Talent>) -> Seq<u8>
    decreases l.len(),
{
    if l.len() == 0 {
        Seq::empty()
    } else {
        l[0].wire() + wire_talents(l.drop_first())
    }
}

/// Parse a run of `count` talent records.
pub open spec fn parse_talents(s: Seq<u8>, i: int, count: int) -> Option<(Seq<Talent>, int)>
    decreases count,
{
    if count <= 0 {
        Some((Seq::empty(), i))
    } else {
        match Talent::parse(s, i) {
            Some((e, j)) => match parse_talents(s, j, count - 1) {
                Some((rest, k)) => Some((seq![e] + rest, k)),
                None => None,
            },
            None => None,
        }
    }
}

/// Appending one record extends the wire image at the back.
pub proof fn lemma_wire_talents_snoc(l: Seq<Talent>, e: Talent)
    ensures
        wire_talents(l.push(e)) == wire_talents(l) + e.wire(),
    decreases l.len(),
{
    let lp = l.push(e);
    assert(lp[0] == if l.len() == 0 { e } else { l[0] });
    assert(wire_talents(Seq::<Talent>::empty()) == Seq::<u8>::empty());
    if l.len() == 0 {
        assert(lp.drop_first() =~= Seq::<Talent>::empty());
        assert(wire_talents(lp.drop_first()) == Seq::<u8>::empty());
        assert(wire_talents(lp) == lp[0].wire() + wire_talents(lp.drop_first()));
        assert(wire_talents(lp) =~= wire_talents(l) + e.wire());
    } else {
        assert(lp.drop_first() =~= l.drop_first().push(e));
        lemma_wire_talents_snoc(l.drop_first(), e);
        assert(wire_talents(lp) == l[0].wire() + wire_talents(lp.drop_first()));
        assert(wire_talents(lp) =~= wire_talents(l) + e.wire());
    }
}

/// Parsing an encoded run of its own length restores it.
pub proof fn lemma_parse_wire_talents(l: Seq<Talent>, s: Seq<u8>, pre: Seq<u8>, post: Seq<u8>)
    requires
        s == pre + wire_talents(l) + post,
    ensures
        parse_talents(s, pre.len() as int, l.len() as int) == Some(
            (l, (pre.len() + wire_talents(l).len()) as int),
        ),
    decreases l.len(),
{
    if l.len() == 0 {
        assert(l =~= Seq::<Talent>::empty());
    } else {
        let e = l[0];
        let rest = l.drop_first();
        let tail = wire_talents(rest);
        assert(s =~= pre + e.wire() + (tail + post));
        e.lemma_parse_wire(s, pre, tail + post);
        let pre2 = pre + e.wire();
        assert(s =~= pre2 + tail + post);
        lemma_parse_wire_talents(rest, s, pre2, post);
        assert(seq![e] + rest =~= l);
    }
}

/// One unfolding of [`parse_talents`] at a step whose record parsed.
pub proof fn lemma_parse_talents_step(s: Seq<u8>, i: int, count: int, e: Talent, j: int)
    requires
        count > 0,
        Talent::parse(s, i) == Some((e, j)),
    ensures
        parse_talents(s, i, count) == (match parse_talents(s, j, count - 1) {
            Some((rest, k)) => Some((seq![e] + rest, k)),
            None => None::<(Seq<Talent>, int)>,
        }),
{
}

/// One unfolding of [`parse_talents`] at a step whose record failed.
pub proof fn lemma_parse_talents_fail(s: Seq<u8>, i: int, count: int)
    requires
        count > 0,
        Talent::parse(s, i) is None,
    ensures
        parse_talents(s, i, count) is None,
{
}

/// Append the wire image of a run of talent records.
pub fn put_talents(out: &mut Vec<u8>, l: &Vec<Talent>)
    ensures
        final(out)@ == old(out)@ + wire_talents(l@),
{
    let ghost base = out@;
    let mut t: usize = 0;
    while t < l.len()
        invariant
            t <= l@.len(),
            out@ == base + wire_talents(l@.subrange(0, t as int)),
        decreases l@.len() - t,
    {
        l[t].encode(out);
        proof {
            lemma_wire_talents_snoc(l@.subrange(0, t as int), l@[t as int]);
            assert(l@.subrange(0, t as int).push(l@[t as int]) =~= l@.subrange(0, t as int + 1));
            assert(out@ =~= base + wire_talents(l@.subrange(0, t as int + 1)));
        }
        t += 1;
    }
    assert(l@.subrange(0, l@.len() as int) =~= l@);
}

/// Decode a run of `count` talent records.
pub fn take_talents(s: &[u8], i: usize, count: usize) -> (r: Option<(Vec<Talent>, usize)>)
    ensures
        match parse_talents(s@, i as int, count as int) {
            Some((l, j)) => r is Some && r->Some_0.0@ == l && r->Some_0.1 == j,
            None => r is None,
        },
{
    let slen = s.len();
    assert(s@.len() == slen);
    let mut acc: Vec<Talent> = Vec::new();
    let mut cur = i;
    let mut t: usize = 0;
    while t < count
        invariant
            t <= count,
            s@.len() <= usize::MAX,
            acc@.len() == t,
            match parse_talents(s@, cur as int, count - t) {
                Some((rest, j)) => parse_talents(s@, i as int, count as int) == Some(
                    (acc@ + rest, j),
                ),
                None => parse_talents(s@, i as int, count as int) is None,
            },
        decreases count - t,
    {
        let ghost old_cur = cur as int;
        match Talent::decode(s, cur) {
            Some((v, j)) => {
                proof {
                    lemma_parse_talents_step(s@, old_cur, count - t, v, j as int);
                }
                acc.push(v);
                cur = j;
            },
            None => {
                proof {
                    lemma_parse_talents_fail(s@, old_cur, count - t);
                }
                return None;
            },
        }
        t += 1;
        proof {
            if parse_talents(s@, cur as int, count - t) is Some {
                let (rest, j) = parse_talents(s@, cur as int, count - t)->Some_0;
                assert(acc@.subrange(0, t - 1 as int) + (seq![acc@[t - 1 as int]] + rest) =~= acc@
                    + rest);
            }
        }
    }
    proof {
        assert(parse_talents(s@, cur as int, 0) == Some((Seq::<Talent>::empty(), cur as int)));
        assert(acc@ + Seq::<Talent>::empty() =~= acc@);
    }
    Some((acc, cur))
}

// ---------------------------------------------------------------------------
// runs of player-load-info records
// ---------------------------------------------------------------------------

/// The wire image of a run of player-load-info records, front first.
pub open spec fn wire_player_load_infos(l: Seq<PlayerLoadInfo>) -> Seq<u8>
    decreases l.len(),
{
    if l.len() == 0 {
        Seq::empty()
    } else {
        l[0].wire() + wire_player_load_infos(l.drop_first())
    }
}

/// Parse a run of `count` player-load-info records.
pub open spec fn parse_player_load_infos(s: Seq<u8>, i: int, count: int) -> Option<(Seq<PlayerLoadInfo>, int)>
    decreases count,
{
    if count <= 0 {
        Some((Seq::empty(), i))
    } else {
        match PlayerLoadInfo::parse(s, i) {
            Some((e, j)) => match parse_player_load_infos(s, j, count - 1) {
                Some((rest, k)) => Some((seq![e] + rest, k)),
                None => None,
            },
            None => None,
        }
    }
}

/// Appending one record extends the wire image at the back.
pub proof fn lemma_wire_player_load_infos_snoc(l: Seq<PlayerLoadInfo>, e: PlayerLoadInfo)
    ensures
        wire_player_load_infos(l.push(e)) == wire_player_load_infos(l) + e.wire(),
    decreases l.len(),
{
    let lp = l.push(e);
    assert(lp[0] == if l.len() == 0 { e } else { l[0] });
    assert(wire_player_load_infos(Seq::<PlayerLoadInfo>::empty()) == Seq::<u8>::empty());
    if l.len() == 0 {
        assert(lp.drop_first() =~= Seq::<PlayerLoadInfo>::empty());
        assert(wire_player_load_infos(lp.drop_first()) == Seq::<u8>::empty());
        assert(wire_player_load_infos(lp) == lp[0].wire() + wire_player_load_infos(lp.drop_first()));
        assert(wire_player_load_infos(lp) =~= wire_player_load_infos(l) + e.wire());
    } else {
        assert(lp.drop_first() =~= l.drop_first().push(e));
        lemma_wire_player_load_infos_snoc(l.drop_first(), e);
        assert(wire_player_load_infos(lp) == l[0].wire() + wire_player_load_infos(lp.drop_first()));
        assert(wire_player_load_infos(lp) =~= wire_player_load_infos(l) + e.wire());
    }
}

/// Parsing an encoded run of its own length restores it.
pub proof fn lemma_parse_wire_player_load_infos(l: Seq<PlayerLoadInfo>, s: Seq<u8>, pre: Seq<u8>, post: Seq<u8>)
    requires
        s == pre + wire_player_load_infos(l) + post,
    ensures
        parse_player_load_infos(s, pre.len() as int, l.len() as int) == Some(
            (l, (pre.len() + wire_player_load_infos(l).len()) as int),
        ),
    decreases l.len(),
{
    if l.len() == 0 {
        assert(l =~= Seq::<PlayerLoadInfo>::empty());
    } else {
        let e = l[0];
        let rest = l.drop_first();
        let tail = wire_player_load_infos(rest);
        assert(s =~= pre + e.wire() + (tail + post));
        e.lemma_parse_wire(s, pre, tail + post);
        let pre2 = pre + e.wire();
        assert(s =~= pre2 + tail + post);
        lemma_parse_wire_player_load_infos(rest, s, pre2, post);
        assert(seq![e] + rest =~= l);
    }
}

/// One unfolding of [`parse_player_load_infos`] at a step whose record parsed.
pub proof fn lemma_parse_player_load_infos_step(s: Seq<u8>, i: int, count: int, e: PlayerLoadInfo, j: int)
    requires
        count > 0,
        PlayerLoadInfo::parse(s, i) == Some((e, j)),
    ensures
        parse_player_load_infos(s, i, count) == (match parse_player_load_infos(s, j, count - 1) {
            Some((rest, k)) => Some((seq![e] + rest, k)),
            None => None::<(Seq<PlayerLoadInfo>, int)>,
        }),
{
}

/// One unfolding of [`parse_player_load_infos`] at a step whose record failed.
pub proof fn lemma_parse_player_load_infos_fail(s: Seq<u8>, i: int, count: int)
    requires
        count > 0,
        PlayerLoadInfo::parse(s, i) is None,
    ensures
        parse_player_load_infos(s, i, count) is None,
{
}

/// Append the wire image of a run of player-load-info records.
pub fn put_player_load_infos(out: &mut Vec<u8>, l: &Vec<PlayerLoadInfo>)
    ensures
        final(out)@ == old(out)@ + wire_player_load_infos(l@),
{
    let ghost base = out@;
    let mut t: usize = 0;
    while t < l.len()
        invariant
            t <= l@.len(),
            out@ == base + wire_player_load_infos(l@.subrange(0, t as int)),
        decreases l@.len() - t,
    {
        l[t].encode(out);
        proof {
            lemma_wire_player_load_infos_snoc(l@.subrange(0, t as int), l@[t as int]);
            assert(l@.subrange(0, t as int).push(l@[t as int]) =~= l@.subrange(0, t as int + 1));
            assert(out@ =~= base + wire_player_load_infos(l@.subrange(0, t as int + 1)));
        }
        t += 1;
    }
    assert(l@.subrange(0, l@.len() as int) =~= l@);
}

/// Decode a run of `count` player-load-info records.
pub fn take_player_load_infos(s: &[u8], i: usize, count: usize) -> (r: Option<(Vec<PlayerLoadInfo>, usize)>)
    ensures
        match parse_player_load_infos(s@, i as int, count as int) {
            Some((l, j)) => r is Some && r->Some_0.0@ == l && r->Some_0.1 == j,
            None => r is None,
        },
{
    let slen = s.len();
    assert(s@.len() == slen);
    let mut acc: Vec<PlayerLoadInfo> = Vec::new();
    let mut cur = i;
    let mut t: usize = 0;
    while t < count
        invariant
            t <= count,
            s@.len() <= usize::MAX,
            acc@.len() == t,
            match parse_player_load_infos(s@, cur as int, count - t) {
                Some((rest, j)) => parse_player_load_infos(s@, i as int, count as int) == Some(
                    (acc@ + rest, j),
                ),
                None => parse_player_load_infos(s@, i as int, count as int) is None,
            },
        decreases count - t,
    {
        let ghost old_cur = cur as int;
        match PlayerLoadInfo::decode(s, cur) {
            Some((v, j)) => {
                proof {
                    lemma_parse_player_load_infos_step(s@, old_cur, count - t, v, j as int);
                }
                acc.push(v);
                cur = j;
            },
            None => {
                proof {
                    lemma_parse_player_load_infos_fail(s@, old_cur, count - t);
                }
                return None;
            },
        }
        t += 1;
        proof {
            if parse_player_load_infos(s@, cur as int, count - t) is Some {
                let (rest, j) = parse_player_load_infos(s@, cur as int, count - t)->Some_0;
                assert(acc@.subrange(0, t - 1 as int) + (seq![acc@[t - 1 as int]] + rest) =~= acc@
                    + rest);
            }
        }
    }
    proof {
        assert(parse_player_load_infos(s@, cur as int, 0) == Some((Seq::<PlayerLoadInfo>::empty(), cur as int)));
        assert(acc@ + Seq::<PlayerLoadInfo>::empty() =~= acc@);
    }
    Some((acc, cur))
}

// ---------------------------------------------------------------------------
// runs of item-data records
// ---------------------------------------------------------------------------

/// The wire image of a run of item-data records, front first.
pub open spec fn wire_item_datas(l: Seq<ItemData>) -> Seq<u8>
    decreases l.len(),
{
    if l.len() == 0 {
        Seq::empty()
    } else {
        l[0].wire() + wire_item_datas(l.drop_first())
    }
}

/// Parse a run of `count` item-data records.
pub open spec fn parse_item_datas(s: Seq<u8>, i: int, count: int) -> Option<(Seq<ItemData>, int)>
    decreases count,
{
    if count <= 0 {
        Some((Seq::empty(), i))
    } else {
        match ItemData::parse(s, i) {
            Some((e, j)) => match parse_item_datas(s, j, count - 1) {
                Some((rest, k)) => Some((seq![e] + rest, k)),
                None => None,
            },
            None => None,
        }
    }
}

/// Appending one record extends the wire image at the back.
pub proof fn lemma_wire_item_datas_snoc(l: Seq<ItemData>, e: ItemData)
    ensures
        wire_item_datas(l.push(e)) == wire_item_datas(l) + e.wire(),
    decreases l.len(),
{
    let lp = l.push(e);
    assert(lp[0] == if l.len() == 0 { e } else { l[0] });
    assert(wire_item_datas(Seq::<ItemData>::empty()) == Seq::<u8>::empty());
    if l.len() == 0 {
        assert(lp.drop_first() =~= Seq::<ItemData>::empty());
        assert(wire_item_datas(lp.drop_first()) == Seq::<u8>::empty());
        assert(wire_item_datas(lp) == lp[0].wire() + wire_item_datas(lp.drop_first()));
        assert(wire_item_datas(lp) =~= wire_item_datas(l) + e.wire());
    } else {
        assert(lp.drop_first() =~= l.drop_first().push(e));
        lemma_wire_item_datas_snoc(l.drop_first(), e);
        assert(wire_item_datas(lp) == l[0].wire() + wire_item_datas(lp.drop_first()));
        assert(wire_item_datas(lp) =~= wire_item_datas(l) + e.wire());
    }
}

/// Parsing an encoded run of its own length restores it.
pub proof fn lemma_parse_wire_item_datas(l: Seq<ItemData>, s: Seq<u8>, pre: Seq<u8>, post: Seq<u8>)
    requires
        s == pre + wire_item_datas(l) + post,
    ensures
        parse_item_datas(s, pre.len() as int, l.len() as int) == Some(
            (l, (pre.len() + wire_item_datas(l).len()) as int),
        ),
    decreases l.len(),
{
    if l.len() == 0 {
        assert(l =~= Seq::<ItemData>::empty());
    } else {
        let e = l[0];
        let rest = l.drop_first();
        let tail = wire_item_datas(rest);
        assert(s =~= pre + e.wire() + (tail + post));
        e.lemma_parse_wire(s, pre, tail + post);
        let pre2 = pre + e.wire();
        assert(s =~= pre2 + tail + post);
        lemma_parse_wire_item_datas(rest, s, pre2, post);
        assert(seq![e] + rest =~= l);
    }
}

/// One unfolding of [`parse_item_datas`] at a step whose record parsed.
pub proof fn lemma_parse_item_datas_step(s: Seq<u8>, i: int, count: int, e: ItemData, j: int)
    requires
        count > 0,
        ItemData::parse(s, i) == Some((e, j)),
    ensures
        parse_item_datas(s, i, count) == (match parse_item_datas(s, j, count - 1) {
            Some((rest, k)) => Some((seq![e] + rest, k)),
            None => None::<(Seq<ItemData>, int)>,
        }),
{
}

/// One unfolding of [`parse_item_datas`] at a step whose record failed.
pub proof fn lemma_parse_item_datas_fail(s: Seq<u8>, i: int, count: int)
    requires
        count > 0,
        ItemData::parse(s, i) is None,
    ensures
        parse_item_datas(s, i, count) is None,
{
}

/// Append the wire image of a run of item-data records.
pub fn put_item_datas(out: &mut Vec<u8>, l: &Vec<ItemData>)
    ensures
        final(out)@ == old(out)@ + wire_item_datas(l@),
{
    let ghost base = out@;
    let mut t: usize = 0;
    while t < l.len()
        invariant
            t <= l@.len(),
            out@ == base + wire_item_datas(l@.subrange(0, t as int)),
        decreases l@.len() - t,
    {
        l[t].encode(out);
        proof {
            lemma_wire_item_datas_snoc(l@.subrange(0, t as int), l@[t as int]);
            assert(l@.subrange(0, t as int).push(l@[t as int]) =~= l@.subrange(0, t as int + 1));
            assert(out@ =~= base + wire_item_datas(l@.subrange(0, t as int + 1)));
        }
        t += 1;
    }
    assert(l@.subrange(0, l@.len() as int) =~= l@);
}

/// Decode a run of `count` item-data records.
pub fn take_item_datas(s: &[u8], i: usize, count: usize) -> (r: Option<(Vec<ItemData>, usize)>)
    ensures
        match parse_item_datas(s@, i as int, count as int) {
            Some((l, j)) => r is Some && r->Some_0.0@ == l && r->Some_0.1 == j,
            None => r is None,
        },
{
    let slen = s.len();
    assert(s@.len() == slen);
    let mut acc: Vec<ItemData> = Vec::new();
    let mut cur = i;
    let mut t: usize = 0;
    while t < count
        invariant
            t <= count,
            s@.len() <= usize::MAX,
            acc@.len() == t,
            match parse_item_datas(s@, cur as int, count - t) {
                Some((rest, j)) => parse_item_datas(s@, i as int, count as int) == Some(
                    (acc@ + rest, j),
                ),
                None => parse_item_datas(s@, i as int, count as int) is None,
            },
        decreases count - t,
    {
        let ghost old_cur = cur as int;
        match ItemData::decode(s, cur) {
            Some((v, j)) => {
                proof {
                    lemma_parse_item_datas_step(s@, old_cur, count - t, v, j as int);
                }
                acc.push(v);
                cur = j;
            },
            None => {
                proof {
                    lemma_parse_item_datas_fail(s@, old_cur, count - t);
                }
                return None;
            },
        }
        t += 1;
        proof {
            if parse_item_datas(s@, cur as int, count - t) is Some {
                let (rest, j) = parse_item_datas(s@, cur as int, count - t)->Some_0;
                assert(acc@.subrange(0, t - 1 as int) + (seq![acc@[t - 1 as int]] + rest) =~= acc@
                    + rest);
            }
        }
    }
    proof {
        assert(parse_item_datas(s@, cur as int, 0) == Some((Seq::<ItemData>::empty(), cur as int)));
        assert(acc@ + Seq::<ItemData>::empty() =~= acc@);
    }
    Some((acc, cur))
}


/// Version handshake from a client; the version string sits in a fixed 128-byte buffer.
#[derive(Clone, Debug, PartialEq, Eq)]
pub struct CSyncVersion {
    pub time_last_client_bits: u32,
    pub client_id: u32,
    pub version: Vec<u8>,
}

pub struct CSyncVersionView {
    pub time_last_client_bits: u32,
    pub client_id: u32,
    pub version: Seq<u8>,
}

impl View for CSyncVersion {
    type V = CSyncVersionView;

    open spec fn view(&self) -> CSyncVersionView {
        CSyncVersionView {
            time_last_client_bits: self.time_last_client_bits,
            client_id: self.client_id,
            version: self.version@,
        }
    }
}

impl CSyncVersionView {
    pub open spec fn valid(self) -> bool {
        &&& fixed_fits(self.version, 128)
    }

    pub open spec fn wire(self) -> Seq<u8> {
        wire_u32(self.time_last_client_bits) + wire_u32(self.client_id) + wire_fixed(self.version, 128)
    }

    pub open spec fn parse(s: Seq<u8>, i: int) -> Option<(Self, int)> {
        match parse_u32(s, i) {
            Some((v0, j0)) =>
            match parse_u32(s, j0) {
                Some((v1, j1)) =>
                match parse_fixed(s, j1, 128) {
                    Some((v2, j2)) =>
                    Some((CSyncVersionView { time_last_client_bits: v0, client_id: v1, version: v2 }, j2)),
                    None => None,
                },
                None => None,
            },
            None => None,
        }
    }

    /// Parsing an encoded record restores it.
    #[verifier::rlimit(100)]
    #[verifier::spinoff_prover]
    pub proof fn lemma_parse_wire(self, s: Seq<u8>, pre: Seq<u8>, post: Seq<u8>)
        requires
            self.valid(),
            s == pre + self.wire() + post,
        ensures
            Self::parse(s, pre.len() as int) == Some((self, (pre.len() + self.wire().len()) as int)),
    {
        vstd::bytes::lemma_auto_spec_u16_to_from_le_bytes();
        vstd::bytes::lemma_auto_spec_u32_to_from_le_bytes();
        vstd::bytes::lemma_auto_spec_u64_to_from_le_bytes();
        let w0 = wire_u32(self.time_last_client_bits);
        let w1 = wire_u32(self.client_id);
        let w2 = wire_fixed(self.version, 128);
        let rest2 = post;
        let rest1 = w2 + rest2;
        let rest0 = w1 + rest1;
        assert(s =~= pre + w0 + rest0);
        lemma_parse_wire_u32(s, pre, self.time_last_client_bits, rest0);
        let pre1 = pre + w0;
        assert(s =~= pre1 + w1 + rest1);
        lemma_parse_wire_u32(s, pre1, self.client_id, rest1);
        let pre2 = pre1 + w1;
        assert(s =~= pre2 + w2 + rest2);
        lemma_parse_wire_fixed(s, pre2, self.version, 128, rest2);
    }
}

impl CSyncVersion {
    pub fn encode(&self, out: &mut Vec<u8>)
        requires
            self@.valid(),
        ensures
            final(out)@ == old(out)@ + self@.wire(),
    {
        let ghost base = out@;
        put_u32(out, self.time_last_client_bits);
        put_u32(out, self.client_id);
        put_fixed(out, &self.version, 128);
        assert(out@ =~= base + self@.wire());
    }

    pub fn decode(s: &[u8], i: usize) -> (r: Option<(Self, usize)>)
        ensures
            match CSyncVersionView::parse(s@, i as int) {
                Some((v, j)) => r is Some && r->Some_0.0@ == v && r->Some_0.1 == j,
                None => r is None,
            },
    {
        let slen = s.len();
        assert(s@.len() == slen);
        let (v0, j0) = match take_u32(s, i) { Some(v) => v, None => { return None; } };
        let (v1, j1) = match take_u32(s, j0) { Some(v) => v, None => { return None; } };
        let (v2, j2) = match take_fixed(s, j1, 128) { Some(v) => v, None => { return None; } };
        Some((CSyncVersion { time_last_client_bits: v0, client_id: v1, version: v2 }, j2))
    }

    /// The full game frame carrying this packet.
    pub fn to_bytes(&self, sender_net_id: u32) -> (r: Vec<u8>)
        requires
            self@.valid(),
        ensures
            r@ == game_frame(0xC5, sender_net_id, self@.wire()),
    {
        let mut payload: Vec<u8> = Vec::new();
        self.encode(&mut payload);
        game_frame_bytes(0xC5, sender_net_id, &payload)
    }
}

/// Version answer with the full twelve-slot roster.
#[derive(Clone, Debug, PartialEq, Eq)]
pub struct SSyncVersion {
    pub is_version_ok: bool,
    pub map: i32,
    pub player_info: Vec<PlayerLoadInfo>,
    pub version_string: Vec<u8>,
    pub map_mode: Vec<u8>,
}

pub struct SSyncVersionView {
    pub is_version_ok: bool,
    pub map: i32,
    pub player_info: Seq<PlayerLoadInfo>,
    pub version_string: Seq<u8>,
    pub map_mode: Seq<u8>,
}

impl View for SSyncVersion {
    type V = SSyncVersionView;

    open spec fn view(&self) -> SSyncVersionView {
        SSyncVersionView {
            is_version_ok: self.is_version_ok,
            map: self.map,
            player_info: self.player_info@,
            version_string: self.version_string@,
            map_mode: self.map_mode@,
        }
    }
}

impl SSyncVersionView {
    pub open spec fn valid(self) -> bool {
        &&& self.player_info.len() == 12
        &&& fixed_fits(self.version_string, 256)
        &&& fixed_fits(self.map_mode, 128)
    }

    pub open spec fn wire(self) -> Seq<u8> {
        wire_bool(self.is_version_ok) + wire_i32(self.map) + wire_player_load_infos(self.player_info) + wire_fixed(self.version_string, 256) + wire_fixed(self.map_mode, 128)
    }

    pub open spec fn parse(s: Seq<u8>, i: int) -> Option<(Self, int)> {
        match parse_bool(s, i) {
            Some((v0, j0)) =>
            match parse_i32(s, j0) {
                Some((v1, j1)) =>
                match parse_player_load_infos(s, j1, 12) {
                    Some((v2, j2)) =>
                    match parse_fixed(s, j2, 256) {
                        Some((v3, j3)) =>
                        match parse_fixed(s, j3, 128) {
                            Some((v4, j4)) =>
                            Some((SSyncVersionView { is_version_ok: v0, map: v1, player_info: v2, version_string: v3, map_mode: v4 }, j4)),
                            None => None,
                        },
                        None => None,
                    },
                    None => None,
                },
                None => None,
            },
            None => None,
        }
    }

    /// Parsing an encoded record restores it.
    #[verifier::rlimit(100)]
    #[verifier::spinoff_prover]
    pub proof fn lemma_parse_wire(self, s: Seq<u8>, pre: Seq<u8>, post: Seq<u8>)
        requires
            self.valid(),
            s == pre + self.wire() + post,
        ensures
            Self::parse(s, pre.len() as int) == Some((self, (pre.len() + self.wire().len()) as int)),
    {
        vstd::bytes::lemma_auto_spec_u16_to_from_le_bytes();
        vstd::bytes::lemma_auto_spec_u32_to_from_le_bytes();
        vstd::bytes::lemma_auto_spec_u64_to_from_le_bytes();
        let w0 = wire_bool(self.is_version_ok);
        let w1 = wire_i32(self.map);
        let w2 = wire_player_load_infos(self.player_info);
        let w3 = wire_fixed(self.version_string, 256);
        let w4 = wire_fixed(self.map_mode, 128);
        let rest4 = post;
        let rest3 = w4 + rest4;
        let rest2 = w3 + rest3;
        let rest1 = w2 + rest2;
        let rest0 = w1 + rest1;
        assert(s =~= pre + w0 + rest0);
        lemma_parse_wire_bool(s, pre, self.is_version_ok, rest0);
        let pre1 = pre + w0;
        assert(s =~= pre1 + w1 + rest1);
        lemma_parse_wire_i32(s, pre1, self.map, rest1);
        let pre2 = pre1 + w1;
        assert(s =~= pre2 + w2 + rest2);
        lemma_parse_wire_player_load_infos(self.player_info, s, pre2, rest2);
        let pre3 = pre2 + w2;
        assert(s =~= pre3 + w3 + rest3);
        lemma_parse_wire_fixed(s, pre3, self.version_string, 256, rest3);
        let pre4 = pre3 + w3;
        assert(s =~= pre4 + w4 + rest4);
        lemma_parse_wire_fixed(s, pre4, self.map_mode, 128, rest4);
    }
}

impl SSyncVersion {
    pub fn encode(&self, out: &mut Vec<u8>)
        requires
            self@.valid(),
        ensures
            final(out)@ == old(out)@ + self@.wire(),
    {
        let ghost base = out@;
        put_bool(out, self.is_version_ok);
        put_i32(out, self.map);
        put_player_load_infos(out, &self.player_info);
        put_fixed(out, &self.version_string, 256);
        put_fixed(out, &self.map_mode, 128);
        assert(out@ =~= base + self@.wire());
    }

    pub fn decode(s: &[u8], i: usize) -> (r: Option<(Self, usize)>)
        ensures
            match SSyncVersionView::parse(s@, i as int) {
                Some((v, j)) => r is Some && r->Some_0.0@ == v && r->Some_0.1 == j,
                None => r is None,
            },
    {
        let slen = s.len();
        assert(s@.len() == slen);
        let (v0, j0) = match take_bool(s, i) { Some(v) => v, None => { return None; } };
        let (v1, j1) = match take_i32(s, j0) { Some(v) => v, None => { return None; } };
        let (v2, j2) = match take_player_load_infos(s, j1, 12) { Some(v) => v, None => { return None; } };
        let (v3, j3) = match take_fixed(s, j2, 256) { Some(v) => v, None => { return None; } };
        let (v4, j4) = match take_fixed(s, j3, 128) { Some(v) => v, None => { return None; } };
        Some((SSyncVersion { is_version_ok: v0, map: v1, player_info: v2, version_string: v3, map_mode: v4 }, j4))
    }

    /// The full game frame carrying this packet.
    pub fn to_bytes(&self, sender_net_id: u32) -> (r: Vec<u8>)
        requires
            self@.valid(),
        ensures
            r@ == game_frame(0x57, sender_net_id, self@.wire()),
    {
        let mut payload: Vec<u8> = Vec::new();
        self.encode(&mut payload);
        game_frame_bytes(0x57, sender_net_id, &payload)
    }
}

/// Hero creation record of the spawn sequence.
#[derive(Clone, Debug, PartialEq, Eq)]
pub struct SCreateHero {
    pub unit_net_id: u32,
    pub client_id: u32,
    pub net_node_id: u8,
    pub skill_level: u8,
    pub team_is_order: bool,
    pub is_bot: bool,
    pub bot_rank: u8,
    pub spawn_position_index: u8,
    pub skin_id: u32,
    pub name: Vec<u8>,
    pub skin: Vec<u8>,
}

pub struct SCreateHeroView {
    pub unit_net_id: u32,
    pub client_id: u32,
    pub net_node_id: u8,
    pub skill_level: u8,
    pub team_is_order: bool,
    pub is_bot: bool,
    pub bot_rank: u8,
    pub spawn_position_index: u8,
    pub skin_id: u32,
    pub name: Seq<u8>,
    pub skin: Seq<u8>,
}

impl View for SCreateHero {
    type V = SCreateHeroView;

    open spec fn view(&self) -> SCreateHeroView {
        SCreateHeroView {
            unit_net_id: self.unit_net_id,
            client_id: self.client_id,
            net_node_id: self.net_node_id,
            skill_level: self.skill_level,
            team_is_order: self.team_is_order,
            is_bot: self.is_bot,
            bot_rank: self.bot_rank,
            spawn_position_index: self.spawn_position_index,
            skin_id: self.skin_id,
            name: self.name@,
            skin: self.skin@,
        }
    }
}

impl SCreateHeroView {
    pub open spec fn valid(self) -> bool {
        &&& fixed_fits(self.name, 40)
        &&& fixed_fits(self.skin, 40)
    }

    pub open spec fn wire(self) -> Seq<u8> {
        wire_u32(self.unit_net_id) + wire_u32(self.client_id) + wire_u8(self.net_node_id) + wire_u8(self.skill_level) + wire_bool(self.team_is_order) + wire_bool(self.is_bot) + wire_u8(self.bot_rank) + wire_u8(self.spawn_position_index) + wire_u32(self.skin_id) + wire_fixed(self.name, 40) + wire_fixed(self.skin, 40)
    }

    pub open spec fn parse(s: Seq<u8>, i: int) -> Option<(Self, int)> {
        match parse_u32(s, i) {
            Some((v0, j0)) =>
            match parse_u32(s, j0) {
                Some((v1, j1)) =>
                match parse_u8(s, j1) {
                    Some((v2, j2)) =>
                    match parse_u8(s, j2) {
                        Some((v3, j3)) =>
                        match parse_bool(s, j3) {
                            Some((v4, j4)) =>
                            match parse_bool(s, j4) {
                                Some((v5, j5)) =>
                                match parse_u8(s, j5) {
                                    Some((v6, j6)) =>
                                    match parse_u8(s, j6) {
                                        Some((v7, j7)) =>
                                        match parse_u32(s, j7) {
                                            Some((v8, j8)) =>
                                            match parse_fixed(s, j8, 40) {
                                                Some((v9, j9)) =>
                                                match parse_fixed(s, j9, 40) {
                                                    Some((v10, j10)) =>
                                                    Some((SCreateHeroView { unit_net_id: v0, client_id: v1, net_node_id: v2, skill_level: v3, team_is_order: v4, is_bot: v5, bot_rank: v6, spawn_position_index: v7, skin_id: v8, name: v9, skin: v10 }, j10)),
                                                    None => None,
                                                },
                                                None => None,
                                            },
                                            None => None,
                                        },
                                        None => None,
                                    },
                                    None => None,
                                },
                                None => None,
                            },
                            None => None,
                        },
                        None => None,
                    },
                    None => None,
                },
                None => None,
            },
            None => None,
        }
    }

    /// Parsing an encoded record restores it.
    #[verifier::rlimit(100)]
    #[verifier::spinoff_prover]
    pub proof fn lemma_parse_wire(self, s: Seq<u8>, pre: Seq<u8>, post: Seq<u8>)
        requires
            self.valid(),
            s == pre + self.wire() + post,
        ensures
            Self::parse(s, pre.len() as int) == Some((self, (pre.len() + self.wire().len()) as int)),
    {
        vstd::bytes::lemma_auto_spec_u16_to_from_le_bytes();
        vstd::bytes::lemma_auto_spec_u32_to_from_le_bytes();
        vstd::bytes::lemma_auto_spec_u64_to_from_le_bytes();
        let w0 = wire_u32(self.unit_net_id);
        let w1 = wire_u32(self.client_id);
        let w2 = wire_u8(self.net_node_id);
        let w3 = wire_u8(self.skill_level);
        let w4 = wire_bool(self.team_is_order);
        let w5 = wire_bool(self.is_bot);
        let w6 = wire_u8(self.bot_rank);
        let w7 = wire_u8(self.spawn_position_index);
        let w8 = wire_u32(self.skin_id);
        let w9 = wire_fixed(self.name, 40);
        let w10 = wire_fixed(self.skin, 40);
        let rest10 = post;
        let rest9 = w10 + rest10;
        let rest8 = w9 + rest9;
        let rest7 = w8 + rest8;
        let rest6 = w7 + rest7;
        let rest5 = w6 + rest6;
        let rest4 = w5 + rest5;
        let rest3 = w4 + rest4;
        let rest2 = w3 + rest3;
        let rest1 = w2 + rest2;
        let rest0 = w1 + rest1;
        assert(s =~= pre + w0 + rest0);
        lemma_parse_wire_u32(s, pre, self.unit_net_id, rest0);
        let pre1 = pre + w0;
        assert(s =~= pre1 + w1 + rest1);
        lemma_parse_wire_u32(s, pre1, self.client_id, rest1);
        let pre2 = pre1 + w1;
        assert(s =~= pre2 + w2 + rest2);
        lemma_parse_wire_u8(s, pre2, self.net_node_id, rest2);
        let pre3 = pre2 + w2;
        assert(s =~= pre3 + w3 + rest3);
        lemma_parse_wire_u8(s, pre3, self.skill_level, rest3);
        let pre4 = pre3 + w3;
        assert(s =~= pre4 + w4 + rest4);
        lemma_parse_wire_bool(s, pre4, self.team_is_order, rest4);
        let pre5 = pre4 + w4;
        assert(s =~= pre5 + w5 + rest5);
        lemma_parse_wire_bool(s, pre5, self.is_bot, rest5);
        let pre6 = pre5 + w5;
        assert(s =~= pre6 + w6 + rest6);
        lemma_parse_wire_u8(s, pre6, self.bot_rank, rest6);
        let pre7 = pre6 + w6;
        assert(s =~= pre7 + w7 + rest7);
        lemma_parse_wire_u8(s, pre7, self.spawn_position_index, rest7);
        let pre8 = pre7 + w7;
        assert(s =~= pre8 + w8 + rest8);
        lemma_parse_wire_u32(s, pre8, self.skin_id, rest8);
        let pre9 = pre8 + w8;
        assert(s =~= pre9 + w9 + rest9);
        lemma_parse_wire_fixed(s, pre9, self.name, 40, rest9);
        let pre10 = pre9 + w9;
        assert(s =~= pre10 + w10 + rest10);
        lemma_parse_wire_fixed(s, pre10, self.skin, 40, rest10);
    }
}

impl SCreateHero {
    pub fn encode(&self, out: &mut Vec<u8>)
        requires
            self@.valid(),
        ensures
            final(out)@ == old(out)@ + self@.wire(),
    {
        let ghost base = out@;
        put_u32(out, self.unit_net_id);
        put_u32(out, self.client_id);
        put_u8(out, self.net_node_id);
        put_u8(out, self.skill_level);
        put_bool(out, self.team_is_order);
        put_bool(out, self.is_bot);
        put_u8(out, self.bot_rank);
        put_u8(out, self.spawn_position_index);
        put_u32(out, self.skin_id);
        put_fixed(out, &self.name, 40);
        put_fixed(out, &self.skin, 40);
        assert(out@ =~= base + self@.wire());
    }

    pub fn decode(s: &[u8], i: usize) -> (r: Option<(Self, usize)>)
        ensures
            match SCreateHeroView::parse(s@, i as int) {
                Some((v, j)) => r is Some && r->Some_0.0@ == v && r->Some_0.1 == j,
                None => r is None,
            },
    {
        let slen = s.len();
        assert(s@.len() == slen);
        let (v0, j0) = match take_u32(s, i) { Some(v) => v, None => { return None; } };
        let (v1, j1) = match take_u32(s, j0) { Some(v) => v, None => { return None; } };
        let (v2, j2) = match take_u8(s, j1) { Some(v) => v, None => { return None; } };
        let (v3, j3) = match take_u8(s, j2) { Some(v) => v, None => { return None; } };
        let (v4, j4) = match take_bool(s, j3) { Some(v) => v, None => { return None; } };
        let (v5, j5) = match take_bool(s, j4) { Some(v) => v, None => { return None; } };
        let (v6, j6) = match take_u8(s, j5) { Some(v) => v, None => { return None; } };
        let (v7, j7) = match take_u8(s, j6) { Some(v) => v, None => { return None; } };
        let (v8, j8) = match take_u32(s, j7) { Some(v) => v, None => { return None; } };
        let (v9, j9) = match take_fixed(s, j8, 40) { Some(v) => v, None => { return None; } };
        let (v10, j10) = match take_fixed(s, j9, 40) { Some(v) => v, None => { return None; } };
        Some((SCreateHero { unit_net_id: v0, client_id: v1, net_node_id: v2, skill_level: v3, team_is_order: v4, is_bot: v5, bot_rank: v6, spawn_position_index: v7, skin_id: v8, name: v9, skin: v10 }, j10))
    }

    /// The full game frame carrying this packet.
    pub fn to_bytes(&self, sender_net_id: u32) -> (r: Vec<u8>)
        requires
            self@.valid(),
        ensures
            r@ == game_frame(0x4F, sender_net_id, self@.wire()),
    {
        let mut payload: Vec<u8> = Vec::new();
        self.encode(&mut payload);
        game_frame_bytes(0x4F, sender_net_id, &payload)
    }
}

/// Avatar record of the spawn sequence: items, summoner spells and talents.
#[derive(Clone, Debug, PartialEq, Eq)]
pub struct SAvatarInfo {
    pub item_ids: Vec<u32>,
    pub summoner_spell_ids: Vec<u32>,
    pub talents: Vec<Talent>,
    pub level: u8,
}

pub struct SAvatarInfoView {
    pub item_ids: Seq<u32>,
    pub summoner_spell_ids: Seq<u32>,
    pub talents: Seq<Talent>,
    pub level: u8,
}

impl View for SAvatarInfo {
    type V = SAvatarInfoView;

    open spec fn view(&self) -> SAvatarInfoView {
        SAvatarInfoView {
            item_ids: self.item_ids@,
            summoner_spell_ids: self.summoner_spell_ids@,
            talents: self.talents@,
            level: self.level,
        }
    }
}

impl SAvatarInfoView {
    pub open spec fn valid(self) -> bool {
        &&& self.item_ids.len() == 30
        &&& self.summoner_spell_ids.len() == 2
        &&& self.talents.len() == 30
    }

    pub open spec fn wire(self) -> Seq<u8> {
        wire_u32s(self.item_ids) + wire_u32s(self.summoner_spell_ids) + wire_talents(self.talents) + wire_u8(self.level)
    }

    pub open spec fn parse(s: Seq<u8>, i: int) -> Option<(Self, int)> {
        match parse_u32s(s, i, 30) {
            Some((v0, j0)) =>
            match parse_u32s(s, j0, 2) {
                Some((v1, j1)) =>
                match parse_talents(s, j1, 30) {
                    Some((v2, j2)) =>
                    match parse_u8(s, j2) {
                        Some((v3, j3)) =>
                        Some((SAvatarInfoView { item_ids: v0, summoner_spell_ids: v1, talents: v2, level: v3 }, j3)),
                        None => None,
                    },
                    None => None,
                },
                None => None,
            },
            None => None,
        }
    }

    /// Parsing an encoded record restores it.
    #[verifier::rlimit(100)]
    #[verifier::spinoff_prover]
    pub proof fn lemma_parse_wire(self, s: Seq<u8>, pre: Seq<u8>, post: Seq<u8>)
        requires
            self.valid(),
            s == pre + self.wire() + post,
        ensures
            Self::parse(s, pre.len() as int) == Some((self, (pre.len() + self.wire().len()) as int)),
    {
        vstd::bytes::lemma_auto_spec_u16_to_from_le_bytes();
        vstd::bytes::lemma_auto_spec_u32_to_from_le_bytes();
        vstd::bytes::lemma_auto_spec_u64_to_from_le_bytes();
        let w0 = wire_u32s(self.item_ids);
        let w1 = wire_u32s(self.summoner_spell_ids);
        let w2 = wire_talents(self.talents);
        let w3 = wire_u8(self.level);
        let rest3 = post;
        let rest2 = w3 + rest3;
        let rest1 = w2 + rest2;
        let rest0 = w1 + rest1;
        assert(s =~= pre + w0 + rest0);
        lemma_parse_wire_u32s(self.item_ids, s, pre, rest0);
        let pre1 = pre + w0;
        assert(s =~= pre1 + w1 + rest1);
        lemma_parse_wire_u32s(self.summoner_spell_ids, s, pre1, rest1);
        let pre2 = pre1 + w1;
        assert(s =~= pre2 + w2 + rest2);
        lemma_parse_wire_talents(self.talents, s, pre2, rest2);
        let pre3 = pre2 + w2;
        assert(s =~= pre3 + w3 + rest3);
        lemma_parse_wire_u8(s, pre3, self.level, rest3);
    }
}

impl SAvatarInfo {
    pub fn encode(&self, out: &mut Vec<u8>)
        requires
            self@.valid(),
        ensures
            final(out)@ == old(out)@ + self@.wire(),
    {
        let ghost base = out@;
        put_u32s(out, &self.item_ids);
        put_u32s(out, &self.summoner_spell_ids);
        put_talents(out, &self.talents);
        put_u8(out, self.level);
        assert(out@ =~= base + self@.wire());
    }

    pub fn decode(s: &[u8], i: usize) -> (r: Option<(Self, usize)>)
        ensures
            match SAvatarInfoView::parse(s@, i as int) {
                Some((v, j)) => r is Some && r->Some_0.0@ == v && r->Some_0.1 == j,
                None => r is None,
            },
    {
        let slen = s.len();
        assert(s@.len() == slen);
        let (v0, j0) = match take_u32s(s, i, 30) { Some(v) => v, None => { return None; } };
        let (v1, j1) = match take_u32s(s, j0, 2) { Some(v) => v, None => { return None; } };
        let (v2, j2) = match take_talents(s, j1, 30) { Some(v) => v, None => { return None; } };
        let (v3, j3) = match take_u8(s, j2) { Some(v) => v, None => { return None; } };
        Some((SAvatarInfo { item_ids: v0, summoner_spell_ids: v1, talents: v2, level: v3 }, j3))
    }

    /// The full game frame carrying this packet.
    pub fn to_bytes(&self, sender_net_id: u32) -> (r: Vec<u8>)
        requires
            self@.valid(),
        ensures
            r@ == game_frame(0x2C, sender_net_id, self@.wire()),
    {
        let mut payload: Vec<u8> = Vec::new();
        self.encode(&mut payload);
        game_frame_bytes(0x2C, sender_net_id, &payload)
    }
}

// ---------------------------------------------------------------------------
// bit-packed packets
// ---------------------------------------------------------------------------

/// Animation stop: fade at bit 1, ignore-lock at bit 2, stop-all at bit 4.
#[derive(Clone, Copy, Debug, PartialEq, Eq, Structural)]
pub struct SStopAnimation {
    pub fade: bool,
    pub ignore_lock: bool,
    pub stop_all: bool,
}

impl SStopAnimation {
    pub open spec fn pack_bits(self) -> u8 {
        (bit8(self.fade) << 1) | (bit8(self.ignore_lock) << 2) | (bit8(self.stop_all) << 4)
    }

    pub open spec fn unpack_bits(b: u8) -> Self {
        SStopAnimation { fade: b & 0x02 != 0, ignore_lock: b & 0x04 != 0, stop_all: b & 0x10 != 0 }
    }

    pub open spec fn wire(self) -> Seq<u8> {
        wire_u8(self.pack_bits())
    }

    pub open spec fn parse(s: Seq<u8>, i: int) -> Option<(Self, int)> {
        match parse_u8(s, i) {
            Some((b, j)) => Some((Self::unpack_bits(b), j)),
            None => None,
        }
    }

    pub fn encode(&self, out: &mut Vec<u8>)
        ensures
            final(out)@ == old(out)@ + self.wire(),
            self.wire().len() == 1,
    {
        put_u8(
            out,
            (bool_u8(self.fade) << 1) | (bool_u8(self.ignore_lock) << 2) | (bool_u8(self.stop_all)
                << 4),
        );
    }

    pub fn decode(s: &[u8], i: usize) -> (r: Option<(Self, usize)>)
        ensures
            parsed(Self::parse(s@, i as int), r),
    {
        match take_u8(s, i) {
            Some((b, j)) => Some(
                (
                    SStopAnimation {
                        fade: b & 0x02 != 0,
                        ignore_lock: b & 0x04 != 0,
                        stop_all: b & 0x10 != 0,
                    },
                    j,
                ),
            ),
            None => None,
        }
    }

    /// Unpacking a packed record restores every flag.
    pub proof fn lemma_bits_round_trip(self)
        ensures
            Self::unpack_bits(self.pack_bits()) == self,
    {
        let fa: u8 = bit8(self.fade);
        let il: u8 = bit8(self.ignore_lock);
        let sa: u8 = bit8(self.stop_all);
        let b = self.pack_bits();
        assert(((b & 0x02 != 0) <==> fa == 1) && ((b & 0x04 != 0) <==> il == 1) && ((b & 0x10 != 0)
            <==> sa == 1)) by (bit_vector)
            requires
                fa <= 1,
                il <= 1,
                sa <= 1,
                b == (fa << 1) | (il << 2) | (sa << 4),
        ;
    }
}

/// Dampener switch: duration in bits 0..14, state at bit 15.
#[derive(Clone, Copy, Debug, PartialEq, Eq, Structural)]
pub struct SDampenerSwitch {
    pub duration: u16,
    pub state: bool,
}

impl SDampenerSwitch {
    /// The duration must fit in its fifteen bits.
    pub open spec fn valid(self) -> bool {
        self.duration < 0x8000
    }

    pub open spec fn pack_bits(self) -> u16 {
        (self.duration & 0x7FFF) | (crate::bitfield::bit16(self.state) << 15)
    }

    pub open spec fn unpack_bits(w: u16) -> Self {
        SDampenerSwitch { duration: w & 0x7FFF, state: w & 0x8000 != 0 }
    }

    pub open spec fn wire(self) -> Seq<u8> {
        wire_u16(self.pack_bits())
    }

    pub open spec fn parse(s: Seq<u8>, i: int) -> Option<(Self, int)> {
        match parse_u16(s, i) {
            Some((w, j)) => Some((Self::unpack_bits(w), j)),
            None => None,
        }
    }

    pub fn encode(&self, out: &mut Vec<u8>)
        ensures
            final(out)@ == old(out)@ + self.wire(),
            self.wire().len() == 2,
    {
        proof {
            vstd::bytes::lemma_auto_spec_u16_to_from_le_bytes();
        }
        put_u16(out, (self.duration & 0x7FFF) | (crate::bitfield::bool_u16(self.state) << 15));
    }

    pub fn decode(s: &[u8], i: usize) -> (r: Option<(Self, usize)>)
        ensures
            parsed(Self::parse(s@, i as int), r),
    {
        match take_u16(s, i) {
            Some((w, j)) => Some((SDampenerSwitch { duration: w & 0x7FFF, state: w & 0x8000 != 0 }, j)),
            None => None,
        }
    }

    /// Unpacking a packed record restores both fields.
    pub proof fn lemma_bits_round_trip(self)
        requires
            self.valid(),
        ensures
            Self::unpack_bits(self.pack_bits()) == self,
    {
        let d = self.duration;
        let st: u16 = crate::bitfield::bit16(self.state);
        let w = self.pack_bits();
        assert((w & 0x7FFF == d) && ((w & 0x8000 != 0) <==> st == 1)) by (bit_vector)
            requires
                d < 0x8000,
                st <= 1,
                w == (d & 0x7FFF) | (st << 15),
        ;
    }
}

/// End of game: order win at bit 1, surrender at bit 2.
#[derive(Clone, Copy, Debug, PartialEq, Eq, Structural)]
pub struct SEndGame {
    pub is_team_order_win: bool,
    pub is_surrender: bool,
}

impl SEndGame {
    pub open spec fn pack_bits(self) -> u8 {
        (bit8(self.is_team_order_win) << 1) | (bit8(self.is_surrender) << 2)
    }

    pub open spec fn unpack_bits(b: u8) -> Self {
        SEndGame { is_team_order_win: b & 0x02 != 0, is_surrender: b & 0x04 != 0 }
    }

    pub open spec fn wire(self) -> Seq<u8> {
        wire_u8(self.pack_bits())
    }

    pub open spec fn parse(s: Seq<u8>, i: int) -> Option<(Self, int)> {
        match parse_u8(s, i) {
            Some((b, j)) => Some((Self::unpack_bits(b), j)),
            None => None,
        }
    }

    pub fn encode(&self, out: &mut Vec<u8>)
        ensures
            final(out)@ == old(out)@ + self.wire(),
            self.wire().len() == 1,
    {
        put_u8(out, (bool_u8(self.is_team_order_win) << 1) | (bool_u8(self.is_surrender) << 2));
    }

    pub fn decode(s: &[u8], i: usize) -> (r: Option<(Self, usize)>)
        ensures
            parsed(Self::parse(s@, i as int), r),
    {
        match take_u8(s, i) {
            Some((b, j)) => Some(
                (SEndGame { is_team_order_win: b & 0x02 != 0, is_surrender: b & 0x04 != 0 }, j),
            ),
            None => None,
        }
    }

    /// Unpacking a packed record restores both flags.
    pub proof fn lemma_bits_round_trip(self)
        ensures
            Self::unpack_bits(self.pack_bits()) == self,
    {
        let ow: u8 = bit8(self.is_team_order_win);
        let su: u8 = bit8(self.is_surrender);
        let b = self.pack_bits();
        assert(((b & 0x02 != 0) <==> ow == 1) && ((b & 0x04 != 0) <==> su == 1)) by (bit_vector)
            requires
                ow <= 1,
                su <= 1,
                b == (ow << 1) | (su << 2),
        ;
    }
}

/// Instant attack stop: five flags in bits 1 to 5.
#[derive(Clone, Copy, Debug, PartialEq, Eq, Structural)]
pub struct SNpcInstantStopAttack {
    pub keep_animating: bool,
    pub force_spell_cast: bool,
    pub force_stop: bool,
    pub avatar_spell: bool,
    pub destroy_missile: bool,
}

impl SNpcInstantStopAttack {
    pub open spec fn pack_bits(self) -> u8 {
        (bit8(self.keep_animating) << 1) | (bit8(self.force_spell_cast) << 2) | (bit8(
            self.force_stop,
        ) << 3) | (bit8(self.avatar_spell) << 4) | (bit8(self.destroy_missile) << 5)
    }

    pub open spec fn unpack_bits(b: u8) -> Self {
        SNpcInstantStopAttack {
            keep_animating: b & 0x02 != 0,
            force_spell_cast: b & 0x04 != 0,
            force_stop: b & 0x08 != 0,
            avatar_spell: b & 0x10 != 0,
            destroy_missile: b & 0x20 != 0,
        }
    }

    pub open spec fn wire(self) -> Seq<u8> {
        wire_u8(self.pack_bits())
    }

    pub open spec fn parse(s: Seq<u8>, i: int) -> Option<(Self, int)> {
        match parse_u8(s, i) {
            Some((b, j)) => Some((Self::unpack_bits(b), j)),
            None => None,
        }
    }

    pub fn encode(&self, out: &mut Vec<u8>)
        ensures
            final(out)@ == old(out)@ + self.wire(),
            self.wire().len() == 1,
    {
        put_u8(
            out,
            (bool_u8(self.keep_animating) << 1) | (bool_u8(self.force_spell_cast) << 2) | (bool_u8(
                self.force_stop,
            ) << 3) | (bool_u8(self.avatar_spell) << 4) | (bool_u8(self.destroy_missile) << 5),
        );
    }

    pub fn decode(s: &[u8], i: usize) -> (r: Option<(Self, usize)>)
        ensures
            parsed(Self::parse(s@, i as int), r),
    {
        match take_u8(s, i) {
            Some((b, j)) => Some(
                (
                    SNpcInstantStopAttack {
                        keep_animating: b & 0x02 != 0,
                        force_spell_cast: b & 0x04 != 0,
                        force_stop: b & 0x08 != 0,
                        avatar_spell: b & 0x10 != 0,
                        destroy_missile: b & 0x20 != 0,
                    },
                    j,
                ),
            ),
            None => None,
        }
    }

    /// Unpacking a packed record restores every flag.
    pub proof fn lemma_bits_round_trip(self)
        ensures
            Self::unpack_bits(self.pack_bits()) == self,
    {
        let ka: u8 = bit8(self.keep_animating);
        let fc: u8 = bit8(self.force_spell_cast);
        let fs: u8 = bit8(self.force_stop);
        let av: u8 = bit8(self.avatar_spell);
        let dm: u8 = bit8(self.destroy_missile);
        let b = self.pack_bits();
        assert(((b & 0x02 != 0) <==> ka == 1) && ((b & 0x04 != 0) <==> fc == 1) && ((b & 0x08 != 0)
            <==> fs == 1) && ((b & 0x10 != 0) <==> av == 1) && ((b & 0x20 != 0) <==> dm == 1))
            by (bit_vector)
            requires
                ka <= 1,
                fc <= 1,
                fs <= 1,
                av <= 1,
                dm <= 1,
                b == (ka << 1) | (fc << 2) | (fs << 3) | (av << 4) | (dm << 5),
        ;
    }
}

/// Item removal request: slot in bits 0..6, sell at bit 7.
#[derive(Clone, Copy, Debug, PartialEq, Eq, Structural)]
pub struct RemoveItemReq {
    pub slot: u8,
    pub sell: bool,
}

impl RemoveItemReq {
    /// The slot must fit in its seven bits.
    pub open spec fn valid(self) -> bool {
        self.slot < 128
    }

    pub open spec fn pack_bits(self) -> u8 {
        (self.slot & 0x7F) | (bit8(self.sell) << 7)
    }

    pub open spec fn unpack_bits(b: u8) -> Self {
        RemoveItemReq { slot: b & 0x7F, sell: b & 0x80 != 0 }
    }

    pub open spec fn wire(self) -> Seq<u8> {
        wire_u8(self.pack_bits())
    }

    pub open spec fn parse(s: Seq<u8>, i: int) -> Option<(Self, int)> {
        match parse_u8(s, i) {
            Some((b, j)) => Some((Self::unpack_bits(b), j)),
            None => None,
        }
    }

    pub fn encode(&self, out: &mut Vec<u8>)
        ensures
            final(out)@ == old(out)@ + self.wire(),
            self.wire().len() == 1,
    {
        put_u8(out, (self.slot & 0x7F) | (bool_u8(self.sell) << 7));
    }

    pub fn decode(s: &[u8], i: usize) -> (r: Option<(Self, usize)>)
        ensures
            parsed(Self::parse(s@, i as int), r),
    {
        match take_u8(s, i) {
            Some((b, j)) => Some((RemoveItemReq { slot: b & 0x7F, sell: b & 0x80 != 0 }, j)),
            None => None,
        }
    }

    /// Unpacking a packed record restores both fields.
    pub proof fn lemma_bits_round_trip(self)
        requires
            self.valid(),
        ensures
            Self::unpack_bits(self.pack_bits()) == self,
    {
        let sl = self.slot;
        let se: u8 = bit8(self.sell);
        let b = self.pack_bits();
        assert((b & 0x7F == sl) && ((b & 0x80 != 0) <==> se == 1)) by (bit_vector)
            requires
                sl < 128,
                se <= 1,
                b == (sl & 0x7F) | (se << 7),
        ;
    }
}

// ---------------------------------------------------------------------------
// movement orders
// ---------------------------------------------------------------------------

/// The order kinds a client can issue.
#[derive(Clone, Copy, Debug, PartialEq, Eq, Structural)]
pub enum OrderType {
    Hold,
    Move,
    AttackMove,
    Stop,
}

impl OrderType {
    pub open spec fn as_byte(self) -> u8 {
        match self {
            OrderType::Hold => 1,
            OrderType::Move => 2,
            OrderType::AttackMove => 7,
            OrderType::Stop => 10,
        }
    }

    pub open spec fn from_byte(b: u8) -> Option<OrderType> {
        if b == 1 {
            Some(OrderType::Hold)
        } else if b == 2 {
            Some(OrderType::Move)
        } else if b == 7 {
            Some(OrderType::AttackMove)
        } else if b == 10 {
            Some(OrderType::Stop)
        } else {
            None
        }
    }

    pub fn to_u8(self) -> (r: u8)
        ensures
            r == self.as_byte(),
    {
        match self {
            OrderType::Hold => 1,
            OrderType::Move => 2,
            OrderType::AttackMove => 7,
            OrderType::Stop => 10,
        }
    }

    pub fn of_u8(b: u8) -> (r: Option<OrderType>)
        ensures
            r == Self::from_byte(b),
    {
        if b == 1 {
            Some(OrderType::Hold)
        } else if b == 2 {
            Some(OrderType::Move)
        } else if b == 7 {
            Some(OrderType::AttackMove)
        } else if b == 10 {
            Some(OrderType::Stop)
        } else {
            None
        }
    }
}

/// A movement or attack order from a client; carries delta-coded waypoints.
#[derive(Clone, Debug, PartialEq, Eq)]
pub struct CNpcIssueOrderReq {
    pub order_type: OrderType,
    pub position: Vector3,
    pub target_net_id: u32,
    pub movement_data: MovementDataNormal,
}

pub struct CNpcIssueOrderReqView {
    pub order_type: OrderType,
    pub position: Vector3,
    pub target_net_id: u32,
    pub movement_data: MovementDataNormalView,
}

impl View for CNpcIssueOrderReq {
    type V = CNpcIssueOrderReqView;

    open spec fn view(&self) -> CNpcIssueOrderReqView {
        CNpcIssueOrderReqView {
            order_type: self.order_type,
            position: self.position,
            target_net_id: self.target_net_id,
            movement_data: self.movement_data@,
        }
    }
}

impl CNpcIssueOrderReqView {
    pub open spec fn valid(self) -> bool {
        self.movement_data.valid()
    }

    pub open spec fn wire(self) -> Seq<u8> {
        wire_u8(self.order_type.as_byte()) + self.position.wire() + wire_u32(self.target_net_id)
            + self.movement_data.wire()
    }

    pub open spec fn parse(s: Seq<u8>, i: int) -> Option<(Self, int)> {
        match parse_u8(s, i) {
            Some((b, j0)) => match OrderType::from_byte(b) {
                Some(ot) => match Vector3::parse(s, j0) {
                    Some((pos, j1)) => match parse_u32(s, j1) {
                        Some((tid, j2)) => match MovementDataNormalView::parse(s, j2) {
                            Some((md, j3)) => Some(
                                (
                                    CNpcIssueOrderReqView {
                                        order_type: ot,
                                        position: pos,
                                        target_net_id: tid,
                                        movement_data: md,
                                    },
                                    j3,
                                ),
                            ),
                            None => None,
                        },
                        None => None,
                    },
                    None => None,
                },
                None => None,
            },
            None => None,
        }
    }

    /// Parsing an encoded order restores it.
    #[verifier::rlimit(100)]
    #[verifier::spinoff_prover]
    pub proof fn lemma_parse_wire(self, s: Seq<u8>, pre: Seq<u8>, post: Seq<u8>)
        requires
            self.valid(),
            s == pre + self.wire() + post,
        ensures
            Self::parse(s, pre.len() as int) == Some((self, (pre.len() + self.wire().len()) as int)),
    {
        vstd::bytes::lemma_auto_spec_u16_to_from_le_bytes();
        vstd::bytes::lemma_auto_spec_u32_to_from_le_bytes();
        let w0 = wire_u8(self.order_type.as_byte());
        let w1 = self.position.wire();
        let w2 = wire_u32(self.target_net_id);
        let w3 = self.movement_data.wire();
        let rest2 = w3 + post;
        let rest1 = w2 + rest2;
        let rest0 = w1 + rest1;
        assert(s =~= pre + w0 + rest0);
        lemma_parse_wire_u8(s, pre, self.order_type.as_byte(), rest0);
        assert(OrderType::from_byte(self.order_type.as_byte()) == Some(self.order_type));
        let pre1 = pre + w0;
        assert(s =~= pre1 + w1 + rest1);
        self.position.lemma_parse_wire(s, pre1, rest1);
        let pre2 = pre1 + w1;
        assert(s =~= pre2 + w2 + rest2);
        lemma_parse_wire_u32(s, pre2, self.target_net_id, rest2);
        let pre3 = pre2 + w2;
        assert(s =~= pre3 + w3 + post);
        self.movement_data.lemma_parse_wire(s, pre3, post);
    }
}

impl CNpcIssueOrderReq {
    pub fn encode(&self, out: &mut Vec<u8>)
        requires
            self@.valid(),
        ensures
            final(out)@ == old(out)@ + self@.wire(),
    {
        let ghost base = out@;
        put_u8(out, self.order_type.to_u8());
        self.position.encode(out);
        put_u32(out, self.target_net_id);
        self.movement_data.encode(out);
        assert(out@ =~= base + self@.wire());
    }

    pub fn decode(s: &[u8], i: usize) -> (r: Option<(Self, usize)>)
        ensures
            match CNpcIssueOrderReqView::parse(s@, i as int) {
                Some((v, j)) => r is Some && r->Some_0.0@ == v && r->Some_0.1 == j,
                None => r is None,
            },
    {
        let slen = s.len();
        assert(s@.len() == slen);
        let (b, j0) = match take_u8(s, i) { Some(v) => v, None => { return None; } };
        let ot = match OrderType::of_u8(b) { Some(v) => v, None => { return None; } };
        let (pos, j1) = match Vector3::decode(s, j0) { Some(v) => v, None => { return None; } };
        let (tid, j2) = match take_u32(s, j1) { Some(v) => v, None => { return None; } };
        let (md, j3) = match MovementDataNormal::decode(s, j2) { Some(v) => v, None => { return None; } };
        Some(
            (
                CNpcIssueOrderReq {
                    order_type: ot,
                    position: pos,
                    target_net_id: tid,
                    movement_data: md,
                },
                j3,
            ),
        )
    }

    /// The full game frame carrying this packet.
    pub fn to_bytes(&self, sender_net_id: u32) -> (r: Vec<u8>)
        requires
            self@.valid(),
        ensures
            r@ == game_frame(0x75, sender_net_id, self@.wire()),
    {
        let mut payload: Vec<u8> = Vec::new();
        self.encode(&mut payload);
        game_frame_bytes(0x75, sender_net_id, &payload)
    }
}

// ---------------------------------------------------------------------------
// waypoint group: a u16-counted run of normal movement bodies
// ---------------------------------------------------------------------------

/// The wire image of a run of normal movement bodies, front first.
pub open spec fn wire_normal_movements(l: Seq<MovementDataNormalView>) -> Seq<u8>
    decreases l.len(),
{
    if l.len() == 0 {
        Seq::empty()
    } else {
        l[0].wire() + wire_normal_movements(l.drop_first())
    }
}

/// Parse a run of `count` normal movement bodies.
pub open spec fn parse_normal_movements(s: Seq<u8>, i: int, count: int) -> Option<
    (Seq<MovementDataNormalView>, int),
>
    decreases count,
{
    if count <= 0 {
        Some((Seq::empty(), i))
    } else {
        match MovementDataNormalView::parse(s, i) {
            Some((e, j)) => match parse_normal_movements(s, j, count - 1) {
                Some((rest, k)) => Some((seq![e] + rest, k)),
                None => None,
            },
            None => None,
        }
    }
}

/// Every body of the run fits the wire.
pub open spec fn normal_movements_valid(l: Seq<MovementDataNormalView>) -> bool {
    forall|k: int| 0 <= k < l.len() ==> (#[trigger] l[k]).valid()
}

/// Appending one body extends the wire image at the back.
pub proof fn lemma_wire_normal_movements_snoc(l: Seq<MovementDataNormalView>, e: MovementDataNormalView)
    ensures
        wire_normal_movements(l.push(e)) == wire_normal_movements(l) + e.wire(),
    decreases l.len(),
{
    let lp = l.push(e);
    assert(lp[0] == if l.len() == 0 { e } else { l[0] });
    assert(wire_normal_movements(Seq::<MovementDataNormalView>::empty()) == Seq::<u8>::empty());
    if l.len() == 0 {
        assert(lp.drop_first() =~= Seq::<MovementDataNormalView>::empty());
        assert(wire_normal_movements(lp.drop_first()) == Seq::<u8>::empty());
        assert(wire_normal_movements(lp) == lp[0].wire() + wire_normal_movements(lp.drop_first()));
        assert(wire_normal_movements(lp) =~= wire_normal_movements(l) + e.wire());
    } else {
        assert(lp.drop_first() =~= l.drop_first().push(e));
        lemma_wire_normal_movements_snoc(l.drop_first(), e);
        assert(wire_normal_movements(lp) == l[0].wire() + wire_normal_movements(lp.drop_first()));
        assert(wire_normal_movements(lp) =~= wire_normal_movements(l) + e.wire());
    }
}

/// Parsing an encoded run of its own length restores it.
pub proof fn lemma_parse_wire_normal_movements(
    l: Seq<MovementDataNormalView>,
    s: Seq<u8>,
    pre: Seq<u8>,
    post: Seq<u8>,
)
    requires
        normal_movements_valid(l),
        s == pre + wire_normal_movements(l) + post,
    ensures
        parse_normal_movements(s, pre.len() as int, l.len() as int) == Some(
            (l, (pre.len() + wire_normal_movements(l).len()) as int),
        ),
    decreases l.len(),
{
    if l.len() == 0 {
        assert(l =~= Seq::<MovementDataNormalView>::empty());
    } else {
        let e = l[0];
        let rest = l.drop_first();
        let tail = wire_normal_movements(rest);
        assert(s =~= pre + e.wire() + (tail + post));
        e.lemma_parse_wire(s, pre, tail + post);
        let pre2 = pre + e.wire();
        assert(s =~= pre2 + tail + post);
        assert(normal_movements_valid(rest)) by {
            assert(forall|k: int| 0 <= k < rest.len() ==> rest[k] == l[k + 1]);
        }
        lemma_parse_wire_normal_movements(rest, s, pre2, post);
        assert(seq![e] + rest =~= l);
    }
}

/// A broadcast group of movement updates.
#[derive(Clone, Debug, PartialEq, Eq)]
pub struct SWaypointGroup {
    pub sync_id: i32,
    pub movements: Vec<MovementDataNormal>,
}

pub struct SWaypointGroupView {
    pub sync_id: i32,
    pub movements: Seq<MovementDataNormalView>,
}

impl View for SWaypointGroup {
    type V = SWaypointGroupView;

    open spec fn view(&self) -> SWaypointGroupView {
        SWaypointGroupView {
            sync_id: self.sync_id,
            movements: self.movements@.map_values(|m: MovementDataNormal| m@),
        }
    }
}

impl SWaypointGroupView {
    pub open spec fn valid(self) -> bool {
        &&& self.movements.len() <= u16::MAX
        &&& normal_movements_valid(self.movements)
    }

    pub open spec fn wire(self) -> Seq<u8> {
        wire_i32(self.sync_id) + wire_u16(self.movements.len() as u16) + wire_normal_movements(
            self.movements,
        )
    }

    pub open spec fn parse(s: Seq<u8>, i: int) -> Option<(Self, int)> {
        match parse_i32(s, i) {
            Some((sid, j0)) => match parse_u16(s, j0) {
                Some((n, j1)) => match parse_normal_movements(s, j1, n as int) {
                    Some((l, j2)) => Some((SWaypointGroupView { sync_id: sid, movements: l }, j2)),
                    None => None,
                },
                None => None,
            },
            None => None,
        }
    }

    /// Parsing an encoded group restores it.
    pub proof fn lemma_parse_wire(self, s: Seq<u8>, pre: Seq<u8>, post: Seq<u8>)
        requires
            self.valid(),
            s == pre + self.wire() + post,
        ensures
            Self::parse(s, pre.len() as int) == Some((self, (pre.len() + self.wire().len()) as int)),
    {
        vstd::bytes::lemma_auto_spec_u16_to_from_le_bytes();
        vstd::bytes::lemma_auto_spec_u32_to_from_le_bytes();
        let w0 = wire_i32(self.sync_id);
        let w1 = wire_u16(self.movements.len() as u16);
        let w2 = wire_normal_movements(self.movements);
        let rest1 = w2 + post;
        let rest0 = w1 + rest1;
        assert(s =~= pre + w0 + rest0);
        lemma_parse_wire_i32(s, pre, self.sync_id, rest0);
        let pre1 = pre + w0;
        assert(s =~= pre1 + w1 + rest1);
        lemma_parse_wire_u16(s, pre1, self.movements.len() as u16, rest1);
        let pre2 = pre1 + w1;
        assert(s =~= pre2 + w2 + post);
        lemma_parse_wire_normal_movements(self.movements, s, pre2, post);
    }
}

impl SWaypointGroup {
    pub fn encode(&self, out: &mut Vec<u8>)
        requires
            self@.valid(),
        ensures
            final(out)@ == old(out)@ + self@.wire(),
    {
        let ghost base = out@;
        let ghost lv = self@.movements;
        put_i32(out, self.sync_id);
        put_u16(out, self.movements.len() as u16);
        let ghost base2 = out@;
        let mut t: usize = 0;
        while t < self.movements.len()
            invariant
                t <= self.movements@.len(),
                lv == self.movements@.map_values(|m: MovementDataNormal| m@),
                normal_movements_valid(lv),
                out@ == base2 + wire_normal_movements(lv.subrange(0, t as int)),
            decreases self.movements@.len() - t,
        {
            assert(lv[t as int] == self.movements@[t as int]@);
            assert(lv[t as int].valid());
            self.movements[t].encode(out);
            proof {
                lemma_wire_normal_movements_snoc(lv.subrange(0, t as int), lv[t as int]);
                assert(lv.subrange(0, t as int).push(lv[t as int]) =~= lv.subrange(0, t as int + 1));
                assert(out@ =~= base2 + wire_normal_movements(lv.subrange(0, t as int + 1)));
            }
            t += 1;
        }
        assert(lv.subrange(0, lv.len() as int) =~= lv);
        assert(out@ =~= base + self@.wire());
    }

    /// The full game frame carrying this packet.
    pub fn to_bytes(&self, sender_net_id: u32) -> (r: Vec<u8>)
        requires
            self@.valid(),
        ensures
            r@ == game_frame(0x64, sender_net_id, self@.wire()),
    {
        let mut payload: Vec<u8> = Vec::new();
        self.encode(&mut payload);
        game_frame_bytes(0x64, sender_net_id, &payload)
    }
}

// ---------------------------------------------------------------------------
// visibility
// ---------------------------------------------------------------------------

/// Entry of a unit into a client's visibility: inventory, an optional
/// look-at position behind a presence byte, and movement data.
#[derive(Clone, Debug, PartialEq, Eq)]
pub struct SOnEnterVisibilityClient {
    pub entries: Vec<ItemData>,
    pub look_at_pos: Option<Vector2>,
    pub movement_data: MovementData,
}

pub struct SOnEnterVisibilityClientView {
    pub entries: Seq<ItemData>,
    pub look_at_pos: Option<Vector2>,
    pub movement_data: MovementDataView,
}

impl View for SOnEnterVisibilityClient {
    type V = SOnEnterVisibilityClientView;

    open spec fn view(&self) -> SOnEnterVisibilityClientView {
        SOnEnterVisibilityClientView {
            entries: self.entries@,
            look_at_pos: self.look_at_pos,
            movement_data: self.movement_data@,
        }
    }
}

impl SOnEnterVisibilityClientView {
    pub open spec fn valid(self) -> bool {
        &&& self.entries.len() <= u8::MAX
        &&& self.movement_data.valid()
    }

    pub open spec fn wire(self) -> Seq<u8> {
        wire_u8(self.entries.len() as u8) + wire_item_datas(self.entries) + (match self.look_at_pos {
            Some(p) => wire_u8(1) + p.wire(),
            None => wire_u8(0),
        }) + self.movement_data.wire()
    }

    pub open spec fn parse(s: Seq<u8>, i: int) -> Option<(Self, int)> {
        match parse_u8(s, i) {
            Some((n, j0)) => match parse_item_datas(s, j0, n as int) {
                Some((entries, j1)) => match parse_u8(s, j1) {
                    Some((look, j2)) => if look != 0 {
                        match Vector2::parse(s, j2) {
                            Some((p, j3)) => match MovementDataView::parse(s, j3) {
                                Some((md, j4)) => Some(
                                    (
                                        SOnEnterVisibilityClientView {
                                            entries,
                                            look_at_pos: Some(p),
                                            movement_data: md,
                                        },
                                        j4,
                                    ),
                                ),
                                None => None,
                            },
                            None => None,
                        }
                    } else {
                        match MovementDataView::parse(s, j2) {
                            Some((md, j4)) => Some(
                                (
                                    SOnEnterVisibilityClientView {
                                        entries,
                                        look_at_pos: None,
                                        movement_data: md,
                                    },
                                    j4,
                                ),
                            ),
                            None => None,
                        }
                    },
                    None => None,
                },
                None => None,
            },
            None => None,
        }
    }

    /// Parsing an encoded record restores it.
    #[verifier::rlimit(100)]
    #[verifier::spinoff_prover]
    pub proof fn lemma_parse_wire(self, s: Seq<u8>, pre: Seq<u8>, post: Seq<u8>)
        requires
            self.valid(),
            s == pre + self.wire() + post,
        ensures
            Self::parse(s, pre.len() as int) == Some((self, (pre.len() + self.wire().len()) as int)),
    {
        vstd::bytes::lemma_auto_spec_u16_to_from_le_bytes();
        vstd::bytes::lemma_auto_spec_u32_to_from_le_bytes();
        let w0 = wire_u8(self.entries.len() as u8);
        let w1 = wire_item_datas(self.entries);
        let w2 = match self.look_at_pos {
            Some(p) => wire_u8(1) + p.wire(),
            None => wire_u8(0),
        };
        let w3 = self.movement_data.wire();
        let rest1 = w2 + w3 + post;
        let rest0 = w1 + rest1;
        assert(s =~= pre + w0 + rest0);
        lemma_parse_wire_u8(s, pre, self.entries.len() as u8, rest0);
        let pre1 = pre + w0;
        assert(s =~= pre1 + w1 + rest1);
        lemma_parse_wire_item_datas(self.entries, s, pre1, rest1);
        let pre2 = pre1 + w1;
        match self.look_at_pos {
            Some(p) => {
                assert(s =~= pre2 + wire_u8(1) + (p.wire() + (w3 + post)));
                lemma_parse_wire_u8(s, pre2, 1, p.wire() + (w3 + post));
                let pre3 = pre2 + wire_u8(1);
                assert(s =~= pre3 + p.wire() + (w3 + post));
                p.lemma_parse_wire(s, pre3, w3 + post);
                let pre4 = pre3 + p.wire();
                assert(s =~= pre4 + w3 + post);
                self.movement_data.lemma_parse_wire(s, pre4, post);
                assert(self.look_at_pos == Some(p));
            },
            None => {
                assert(s =~= pre2 + wire_u8(0) + (w3 + post));
                lemma_parse_wire_u8(s, pre2, 0, w3 + post);
                let pre3 = pre2 + wire_u8(0);
                assert(s =~= pre3 + w3 + post);
                self.movement_data.lemma_parse_wire(s, pre3, post);
            },
        }
    }
}

impl SOnEnterVisibilityClient {
    pub fn encode(&self, out: &mut Vec<u8>)
        requires
            self@.valid(),
        ensures
            final(out)@ == old(out)@ + self@.wire(),
    {
        let ghost base = out@;
        put_u8(out, self.entries.len() as u8);
        put_item_datas(out, &self.entries);
        match &self.look_at_pos {
            Some(p) => {
                put_u8(out, 1);
                p.encode(out);
            },
            None => {
                put_u8(out, 0);
            },
        }
        self.movement_data.encode(out);
        assert(out@ =~= base + self@.wire());
    }

    pub fn decode(s: &[u8], i: usize) -> (r: Option<(Self, usize)>)
        ensures
            match SOnEnterVisibilityClientView::parse(s@, i as int) {
                Some((v, j)) => r is Some && r->Some_0.0@ == v && r->Some_0.1 == j,
                None => r is None,
            },
    {
        let slen = s.len();
        assert(s@.len() == slen);
        let (n, j0) = match take_u8(s, i) { Some(v) => v, None => { return None; } };
        let (entries, j1) = match take_item_datas(s, j0, n as usize) { Some(v) => v, None => { return None; } };
        let (look, j2) = match take_u8(s, j1) { Some(v) => v, None => { return None; } };
        if look != 0 {
            let (p, j3) = match Vector2::decode(s, j2) { Some(v) => v, None => { return None; } };
            let (md, j4) = match MovementData::decode(s, j3) { Some(v) => v, None => { return None; } };
            Some(
                (
                    SOnEnterVisibilityClient {
                        entries,
                        look_at_pos: Some(p),
                        movement_data: md,
                    },
                    j4,
                ),
            )
        } else {
            let (md, j4) = match MovementData::decode(s, j2) { Some(v) => v, None => { return None; } };
            Some(
                (
                    SOnEnterVisibilityClient {
                        entries,
                        look_at_pos: None,
                        movement_data: md,
                    },
                    j4,
                ),
            )
        }
    }

    /// The full game frame carrying this packet.
    pub fn to_bytes(&self, sender_net_id: u32) -> (r: Vec<u8>)
        requires
            self@.valid(),
        ensures
            r@ == game_frame(0xC2, sender_net_id, self@.wire()),
    {
        let mut payload: Vec<u8> = Vec::new();
        self.encode(&mut payload);
        game_frame_bytes(0xC2, sender_net_id, &payload)
    }
}

} // verus!

