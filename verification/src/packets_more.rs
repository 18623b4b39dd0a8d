//! The remainder of the integer-field message family: records the session
//! core never builds itself but that belong to the protocol, each with its
//! exact wire image and round-trip lemma.
use vstd::prelude::*;

verus! {

use crate::frame::{game_frame, game_frame_bytes};
use crate::wire::{
    lemma_parse_wire_bool,
    lemma_parse_wire_i16,
    lemma_parse_wire_i32,
    lemma_parse_wire_i8,
    lemma_parse_wire_u16,
    lemma_parse_wire_u32,
    lemma_parse_wire_u64,
    lemma_parse_wire_u8,
    parse_bool,
    parse_i16,
    parse_i32,
    parse_i8,
    parse_u16,
    parse_u32,
    parse_u64,
    parse_u8,
    parsed,
    put_bool,
    put_i16,
    put_i32,
    put_i8,
    put_u16,
    put_u32,
    put_u64,
    put_u8,
    take_bool,
    take_i16,
    take_i32,
    take_i8,
    take_u16,
    take_u32,
    take_u64,
    take_u8,
    wire_bool,
    wire_i16,
    wire_i32,
    wire_i8,
    wire_u16,
    wire_u32,
    wire_u64,
    wire_u8,
};

/// A packed blue-green-red-alpha colour.
#[derive(Clone, Copy, Debug, PartialEq, Eq, Structural)]
pub struct Color {
    pub blue: u8,
    pub green: u8,
    pub red: u8,
    pub alpha: u8,
}

impl Color {
    pub open spec fn wire(self) -> Seq<u8> {
        wire_u8(self.blue) + wire_u8(self.green) + wire_u8(self.red) + wire_u8(self.alpha)
    }

    pub open spec fn parse(s: Seq<u8>, i: int) -> Option<(Self, int)> {
        match parse_u8(s, i) {
            Some((v0, j0)) =>
            match parse_u8(s, j0) {
                Some((v1, j1)) =>
                match parse_u8(s, j1) {
                    Some((v2, j2)) =>
                    match parse_u8(s, j2) {
                        Some((v3, j3)) =>
                        Some((Color { blue: v0, green: v1, red: v2, alpha: v3 }, j3)),
                        None => None,
                    },
                    None => None,
                },
                None => None,
            },
            None => None,
        }
    }

    /// Parsing an encoded record restores it.
    pub proof fn lemma_parse_wire(self, s: Seq<u8>, pre: Seq<u8>, post: Seq<u8>)
        requires
            s == pre + self.wire() + post,
        ensures
            Self::parse(s, pre.len() as int) == Some((self, (pre.len() + self.wire().len()) as int)),
    {
        vstd::bytes::lemma_auto_spec_u16_to_from_le_bytes();
        vstd::bytes::lemma_auto_spec_u32_to_from_le_bytes();
        vstd::bytes::lemma_auto_spec_u64_to_from_le_bytes();
        let w0 = wire_u8(self.blue);
        let w1 = wire_u8(self.green);
        let w2 = wire_u8(self.red);
        let w3 = wire_u8(self.alpha);
        let rest3 = post;
        let rest2 = w3 + rest3;
        let rest1 = w2 + rest2;
        let rest0 = w1 + rest1;
        assert(s =~= pre + w0 + rest0);
        lemma_parse_wire_u8(s, pre, self.blue, rest0);
        let pre1 = pre + w0;
        assert(s =~= pre1 + w1 + rest1);
        lemma_parse_wire_u8(s, pre1, self.green, rest1);
        let pre2 = pre1 + w1;
        assert(s =~= pre2 + w2 + rest2);
        lemma_parse_wire_u8(s, pre2, self.red, rest2);
        let pre3 = pre2 + w2;
        assert(s =~= pre3 + w3 + rest3);
        lemma_parse_wire_u8(s, pre3, self.alpha, rest3);
    }

    pub fn encode(&self, out: &mut Vec<u8>)
        ensures
            final(out)@ == old(out)@ + self.wire(),
    {
        let ghost base = out@;
        put_u8(out, self.blue);
        put_u8(out, self.green);
        put_u8(out, self.red);
        put_u8(out, self.alpha);
        assert(out@ =~= base + self.wire());
    }

    pub fn decode(s: &[u8], i: usize) -> (r: Option<(Self, usize)>)
        ensures
            parsed(Self::parse(s@, i as int), r),
    {
        let slen = s.len();
        assert(s@.len() == slen);
        match take_u8(s, i) {
            Some((v0, j0)) =>
            match take_u8(s, j0) {
                Some((v1, j1)) =>
                match take_u8(s, j1) {
                    Some((v2, j2)) =>
                    match take_u8(s, j2) {
                        Some((v3, j3)) =>
                        Some((Color { blue: v0, green: v1, red: v2, alpha: v3 }, j3)),
                        None => None,
                    },
                    None => None,
                },
                None => None,
            },
            None => None,
        }
    }
}

/// Wire record `SBarrackSpawnUnit`.
#[derive(Clone, Copy, Debug, PartialEq, Eq, Structural)]
pub struct SBarrackSpawnUnit {
    pub unit_net_id: u32,
    pub unit_net_node_id: u8,
    pub wave_count: u8,
    pub minion_type: u8,
    pub damage_bonus: u16,
    pub health_bonus: u16,
}

impl SBarrackSpawnUnit {
    pub open spec fn wire(self) -> Seq<u8> {
        wire_u32(self.unit_net_id) + wire_u8(self.unit_net_node_id) + wire_u8(self.wave_count) + wire_u8(self.minion_type) + wire_u16(self.damage_bonus) + wire_u16(self.health_bonus)
    }

    pub open spec fn parse(s: Seq<u8>, i: int) -> Option<(Self, int)> {
        match parse_u32(s, i) {
            Some((v0, j0)) =>
            match parse_u8(s, j0) {
                Some((v1, j1)) =>
                match parse_u8(s, j1) {
                    Some((v2, j2)) =>
                    match parse_u8(s, j2) {
                        Some((v3, j3)) =>
                        match parse_u16(s, j3) {
                            Some((v4, j4)) =>
                            match parse_u16(s, j4) {
                                Some((v5, j5)) =>
                                Some((SBarrackSpawnUnit { unit_net_id: v0, unit_net_node_id: v1, wave_count: v2, minion_type: v3, damage_bonus: v4, health_bonus: v5 }, j5)),
                                None => None,
                            },
                            None => None,
                        },
                        None => None,
                    },
                    None => None,
                },
                None => None,
            },
            None => None,
        }
    }

    /// Parsing an encoded record restores it.
    pub proof fn lemma_parse_wire(self, s: Seq<u8>, pre: Seq<u8>, post: Seq<u8>)
        requires
            s == pre + self.wire() + post,
        ensures
            Self::parse(s, pre.len() as int) == Some((self, (pre.len() + self.wire().len()) as int)),
    {
        vstd::bytes::lemma_auto_spec_u16_to_from_le_bytes();
        vstd::bytes::lemma_auto_spec_u32_to_from_le_bytes();
        vstd::bytes::lemma_auto_spec_u64_to_from_le_bytes();
        let w0 = wire_u32(self.unit_net_id);
        let w1 = wire_u8(self.unit_net_node_id);
        let w2 = wire_u8(self.wave_count);
        let w3 = wire_u8(self.minion_type);
        let w4 = wire_u16(self.damage_bonus);
        let w5 = wire_u16(self.health_bonus);
        let rest5 = post;
        let rest4 = w5 + rest5;
        let rest3 = w4 + rest4;
        let rest2 = w3 + rest3;
        let rest1 = w2 + rest2;
        let rest0 = w1 + rest1;
        assert(s =~= pre + w0 + rest0);
        lemma_parse_wire_u32(s, pre, self.unit_net_id, rest0);
        let pre1 = pre + w0;
        assert(s =~= pre1 + w1 + rest1);
        lemma_parse_wire_u8(s, pre1, self.unit_net_node_id, rest1);
        let pre2 = pre1 + w1;
        assert(s =~= pre2 + w2 + rest2);
        lemma_parse_wire_u8(s, pre2, self.wave_count, rest2);
        let pre3 = pre2 + w2;
        assert(s =~= pre3 + w3 + rest3);
        lemma_parse_wire_u8(s, pre3, self.minion_type, rest3);
        let pre4 = pre3 + w3;
        assert(s =~= pre4 + w4 + rest4);
        lemma_parse_wire_u16(s, pre4, self.damage_bonus, rest4);
        let pre5 = pre4 + w4;
        assert(s =~= pre5 + w5 + rest5);
        lemma_parse_wire_u16(s, pre5, self.health_bonus, rest5);
    }

    pub fn encode(&self, out: &mut Vec<u8>)
        ensures
            final(out)@ == old(out)@ + self.wire(),
    {
        let ghost base = out@;
        put_u32(out, self.unit_net_id);
        put_u8(out, self.unit_net_node_id);
        put_u8(out, self.wave_count);
        put_u8(out, self.minion_type);
        put_u16(out, self.damage_bonus);
        put_u16(out, self.health_bonus);
        assert(out@ =~= base + self.wire());
    }

    pub fn decode(s: &[u8], i: usize) -> (r: Option<(Self, usize)>)
        ensures
            parsed(Self::parse(s@, i as int), r),
    {
        let slen = s.len();
        assert(s@.len() == slen);
        match take_u32(s, i) {
            Some((v0, j0)) =>
            match take_u8(s, j0) {
                Some((v1, j1)) =>
                match take_u8(s, j1) {
                    Some((v2, j2)) =>
                    match take_u8(s, j2) {
                        Some((v3, j3)) =>
                        match take_u16(s, j3) {
                            Some((v4, j4)) =>
                            match take_u16(s, j4) {
                                Some((v5, j5)) =>
                                Some((SBarrackSpawnUnit { unit_net_id: v0, unit_net_node_id: v1, wave_count: v2, minion_type: v3, damage_bonus: v4, health_bonus: v5 }, j5)),
                                None => None,
                            },
                            None => None,
                        },
                        None => None,
                    },
                    None => None,
                },
                None => None,
            },
            None => None,
        }
    }

    /// The full game frame carrying this packet.
    pub fn to_bytes(&self, sender_net_id: u32) -> (r: Vec<u8>)
        ensures
            r@ == game_frame(0x03, sender_net_id, self.wire()),
    {
        let mut payload: Vec<u8> = Vec::new();
        self.encode(&mut payload);
        game_frame_bytes(0x03, sender_net_id, &payload)
    }
}

/// Wire record `SSwitchNexusesToOnIdleParticles`.
#[derive(Clone, Copy, Debug, PartialEq, Eq, Structural)]
pub struct SSwitchNexusesToOnIdleParticles {
}

impl SSwitchNexusesToOnIdleParticles {
    pub open spec fn wire(self) -> Seq<u8> {
        Seq::empty()
    }

    pub open spec fn parse(s: Seq<u8>, i: int) -> Option<(Self, int)> {
        if 0 <= i <= s.len() {
            Some((SSwitchNexusesToOnIdleParticles {  }, i))
        } else {
            None
        }
    }

    /// Parsing an encoded record restores it.
    pub proof fn lemma_parse_wire(self, s: Seq<u8>, pre: Seq<u8>, post: Seq<u8>)
        requires
            s == pre + self.wire() + post,
        ensures
            Self::parse(s, pre.len() as int) == Some((self, (pre.len() + self.wire().len()) as int)),
    {
        vstd::bytes::lemma_auto_spec_u16_to_from_le_bytes();
        vstd::bytes::lemma_auto_spec_u32_to_from_le_bytes();
        vstd::bytes::lemma_auto_spec_u64_to_from_le_bytes();
    }

    pub fn encode(&self, out: &mut Vec<u8>)
        ensures
            final(out)@ == old(out)@ + self.wire(),
    {
        let ghost base = out@;
        assert(out@ =~= base + self.wire());
    }

    pub fn decode(s: &[u8], i: usize) -> (r: Option<(Self, usize)>)
        ensures
            parsed(Self::parse(s@, i as int), r),
    {
        let slen = s.len();
        assert(s@.len() == slen);
        if i <= slen {
            Some((SSwitchNexusesToOnIdleParticles {  }, i))
        } else {
            None
        }
    }

    /// The full game frame carrying this packet.
    pub fn to_bytes(&self, sender_net_id: u32) -> (r: Vec<u8>)
        ensures
            r@ == game_frame(0x04, sender_net_id, self.wire()),
    {
        let mut payload: Vec<u8> = Vec::new();
        self.encode(&mut payload);
        game_frame_bytes(0x04, sender_net_id, &payload)
    }
}

/// Wire record `SUpdateGoldRedirectTarget`.
#[derive(Clone, Copy, Debug, PartialEq, Eq, Structural)]
pub struct SUpdateGoldRedirectTarget {
    pub target_net_id: u32,
}

impl SUpdateGoldRedirectTarget {
    pub open spec fn wire(self) -> Seq<u8> {
        wire_u32(self.target_net_id)
    }

    pub open spec fn parse(s: Seq<u8>, i: int) -> Option<(Self, int)> {
        match parse_u32(s, i) {
            Some((v0, j0)) =>
            Some((SUpdateGoldRedirectTarget { target_net_id: v0 }, j0)),
            None => None,
        }
    }

    /// Parsing an encoded record restores it.
    pub proof fn lemma_parse_wire(self, s: Seq<u8>, pre: Seq<u8>, post: Seq<u8>)
        requires
            s == pre + self.wire() + post,
        ensures
            Self::parse(s, pre.len() as int) == Some((self, (pre.len() + self.wire().len()) as int)),
    {
        vstd::bytes::lemma_auto_spec_u16_to_from_le_bytes();
        vstd::bytes::lemma_auto_spec_u32_to_from_le_bytes();
        vstd::bytes::lemma_auto_spec_u64_to_from_le_bytes();
        let w0 = wire_u32(self.target_net_id);
        let rest0 = post;
        assert(s =~= pre + w0 + rest0);
        lemma_parse_wire_u32(s, pre, self.target_net_id, rest0);
    }

    pub fn encode(&self, out: &mut Vec<u8>)
        ensures
            final(out)@ == old(out)@ + self.wire(),
    {
        let ghost base = out@;
        put_u32(out, self.target_net_id);
        assert(out@ =~= base + self.wire());
    }

    pub fn decode(s: &[u8], i: usize) -> (r: Option<(Self, usize)>)
        ensures
            parsed(Self::parse(s@, i as int), r),
    {
        let slen = s.len();
        assert(s@.len() == slen);
        match take_u32(s, i) {
            Some((v0, j0)) =>
            Some((SUpdateGoldRedirectTarget { target_net_id: v0 }, j0)),
            None => None,
        }
    }

    /// The full game frame carrying this packet.
    pub fn to_bytes(&self, sender_net_id: u32) -> (r: Vec<u8>)
        ensures
            r@ == game_frame(0x07, sender_net_id, self.wire()),
    {
        let mut payload: Vec<u8> = Vec::new();
        self.encode(&mut payload);
        game_frame_bytes(0x07, sender_net_id, &payload)
    }
}

/// Wire record `SResumePacket`.
#[derive(Clone, Copy, Debug, PartialEq, Eq, Structural)]
pub struct SResumePacket {
    pub client_id: u32,
    pub delayed: bool,
}

impl SResumePacket {
    pub open spec fn wire(self) -> Seq<u8> {
        wire_u32(self.client_id) + wire_bool(self.delayed)
    }

    pub open spec fn parse(s: Seq<u8>, i: int) -> Option<(Self, int)> {
        match parse_u32(s, i) {
            Some((v0, j0)) =>
            match parse_bool(s, j0) {
                Some((v1, j1)) =>
                Some((SResumePacket { client_id: v0, delayed: v1 }, j1)),
                None => None,
            },
            None => None,
        }
    }

    /// Parsing an encoded record restores it.
    pub proof fn lemma_parse_wire(self, s: Seq<u8>, pre: Seq<u8>, post: Seq<u8>)
        requires
            s == pre + self.wire() + post,
        ensures
            Self::parse(s, pre.len() as int) == Some((self, (pre.len() + self.wire().len()) as int)),
    {
        vstd::bytes::lemma_auto_spec_u16_to_from_le_bytes();
        vstd::bytes::lemma_auto_spec_u32_to_from_le_bytes();
        vstd::bytes::lemma_auto_spec_u64_to_from_le_bytes();
        let w0 = wire_u32(self.client_id);
        let w1 = wire_bool(self.delayed);
        let rest1 = post;
        let rest0 = w1 + rest1;
        assert(s =~= pre + w0 + rest0);
        lemma_parse_wire_u32(s, pre, self.client_id, rest0);
        let pre1 = pre + w0;
        assert(s =~= pre1 + w1 + rest1);
        lemma_parse_wire_bool(s, pre1, self.delayed, rest1);
    }

    pub fn encode(&self, out: &mut Vec<u8>)
        ensures
            final(out)@ == old(out)@ + self.wire(),
    {
        let ghost base = out@;
        put_u32(out, self.client_id);
        put_bool(out, self.delayed);
        assert(out@ =~= base + self.wire());
    }

    pub fn decode(s: &[u8], i: usize) -> (r: Option<(Self, usize)>)
        ensures
            parsed(Self::parse(s@, i as int), r),
    {
        let slen = s.len();
        assert(s@.len() == slen);
        match take_u32(s, i) {
            Some((v0, j0)) =>
            match take_bool(s, j0) {
                Some((v1, j1)) =>
                Some((SResumePacket { client_id: v0, delayed: v1 }, j1)),
                None => None,
            },
            None => None,
        }
    }

    /// The full game frame carrying this packet.
    pub fn to_bytes(&self, sender_net_id: u32) -> (r: Vec<u8>)
        ensures
            r@ == game_frame(0x0A, sender_net_id, self.wire()),
    {
        let mut payload: Vec<u8> = Vec::new();
        self.encode(&mut payload);
        game_frame_bytes(0x0A, sender_net_id, &payload)
    }
}

/// Wire record `SCloseShop`.
#[derive(Clone, Copy, Debug, PartialEq, Eq, Structural)]
pub struct SCloseShop {
}

impl SCloseShop {
    pub open spec fn wire(self) -> Seq<u8> {
        Seq::empty()
    }

    pub open spec fn parse(s: Seq<u8>, i: int) -> Option<(Self, int)> {
        if 0 <= i <= s.len() {
            Some((SCloseShop {  }, i))
        } else {
            None
        }
    }

    /// Parsing an encoded record restores it.
    pub proof fn lemma_parse_wire(self, s: Seq<u8>, pre: Seq<u8>, post: Seq<u8>)
        requires
            s == pre + self.wire() + post,
        ensures
            Self::parse(s, pre.len() as int) == Some((self, (pre.len() + self.wire().len()) as int)),
    {
        vstd::bytes::lemma_auto_spec_u16_to_from_le_bytes();
        vstd::bytes::lemma_auto_spec_u32_to_from_le_bytes();
        vstd::bytes::lemma_auto_spec_u64_to_from_le_bytes();
    }

    pub fn encode(&self, out: &mut Vec<u8>)
        ensures
            final(out)@ == old(out)@ + self.wire(),
    {
        let ghost base = out@;
        assert(out@ =~= base + self.wire());
    }

    pub fn decode(s: &[u8], i: usize) -> (r: Option<(Self, usize)>)
        ensures
            parsed(Self::parse(s@, i as int), r),
    {
        let slen = s.len();
        assert(s@.len() == slen);
        if i <= slen {
            Some((SCloseShop {  }, i))
        } else {
            None
        }
    }

    /// The full game frame carrying this packet.
    pub fn to_bytes(&self, sender_net_id: u32) -> (r: Vec<u8>)
        ensures
            r@ == game_frame(0x0F, sender_net_id, self.wire()),
    {
        let mut payload: Vec<u8> = Vec::new();
        self.encode(&mut payload);
        game_frame_bytes(0x0F, sender_net_id, &payload)
    }
}

/// Wire record `SHighlightTitanBarElement`.
#[derive(Clone, Copy, Debug, PartialEq, Eq, Structural)]
pub struct SHighlightTitanBarElement {
    pub element_type: u8,
}

impl SHighlightTitanBarElement {
    pub open spec fn wire(self) -> Seq<u8> {
        wire_u8(self.element_type)
    }

    pub open spec fn parse(s: Seq<u8>, i: int) -> Option<(Self, int)> {
        match parse_u8(s, i) {
            Some((v0, j0)) =>
            Some((SHighlightTitanBarElement { element_type: v0 }, j0)),
            None => None,
        }
    }

    /// Parsing an encoded record restores it.
    pub proof fn lemma_parse_wire(self, s: Seq<u8>, pre: Seq<u8>, post: Seq<u8>)
        requires
            s == pre + self.wire() + post,
        ensures
            Self::parse(s, pre.len() as int) == Some((self, (pre.len() + self.wire().len()) as int)),
    {
        vstd::bytes::lemma_auto_spec_u16_to_from_le_bytes();
        vstd::bytes::lemma_auto_spec_u32_to_from_le_bytes();
        vstd::bytes::lemma_auto_spec_u64_to_from_le_bytes();
        let w0 = wire_u8(self.element_type);
        let rest0 = post;
        assert(s =~= pre + w0 + rest0);
        lemma_parse_wire_u8(s, pre, self.element_type, rest0);
    }

    pub fn encode(&self, out: &mut Vec<u8>)
        ensures
            final(out)@ == old(out)@ + self.wire(),
    {
        let ghost base = out@;
        put_u8(out, self.element_type);
        assert(out@ =~= base + self.wire());
    }

    pub fn decode(s: &[u8], i: usize) -> (r: Option<(Self, usize)>)
        ensures
            parsed(Self::parse(s@, i as int), r),
    {
        let slen = s.len();
        assert(s@.len() == slen);
        match take_u8(s, i) {
            Some((v0, j0)) =>
            Some((SHighlightTitanBarElement { element_type: v0 }, j0)),
            None => None,
        }
    }

    /// The full game frame carrying this packet.
    pub fn to_bytes(&self, sender_net_id: u32) -> (r: Vec<u8>)
        ensures
            r@ == game_frame(0x14, sender_net_id, self.wire()),
    {
        let mut payload: Vec<u8> = Vec::new();
        self.encode(&mut payload);
        game_frame_bytes(0x14, sender_net_id, &payload)
    }
}

/// Wire record `SNpcForceDeath`.
#[derive(Clone, Copy, Debug, PartialEq, Eq, Structural)]
pub struct SNpcForceDeath {
}

impl SNpcForceDeath {
    pub open spec fn wire(self) -> Seq<u8> {
        Seq::empty()
    }

    pub open spec fn parse(s: Seq<u8>, i: int) -> Option<(Self, int)> {
        if 0 <= i <= s.len() {
            Some((SNpcForceDeath {  }, i))
        } else {
            None
        }
    }

    /// Parsing an encoded record restores it.
    pub proof fn lemma_parse_wire(self, s: Seq<u8>, pre: Seq<u8>, post: Seq<u8>)
        requires
            s == pre + self.wire() + post,
        ensures
            Self::parse(s, pre.len() as int) == Some((self, (pre.len() + self.wire().len()) as int)),
    {
        vstd::bytes::lemma_auto_spec_u16_to_from_le_bytes();
        vstd::bytes::lemma_auto_spec_u32_to_from_le_bytes();
        vstd::bytes::lemma_auto_spec_u64_to_from_le_bytes();
    }

    pub fn encode(&self, out: &mut Vec<u8>)
        ensures
            final(out)@ == old(out)@ + self.wire(),
    {
        let ghost base = out@;
        assert(out@ =~= base + self.wire());
    }

    pub fn decode(s: &[u8], i: usize) -> (r: Option<(Self, usize)>)
        ensures
            parsed(Self::parse(s@, i as int), r),
    {
        let slen = s.len();
        assert(s@.len() == slen);
        if i <= slen {
            Some((SNpcForceDeath {  }, i))
        } else {
            None
        }
    }

    /// The full game frame carrying this packet.
    pub fn to_bytes(&self, sender_net_id: u32) -> (r: Vec<u8>)
        ensures
            r@ == game_frame(0x1E, sender_net_id, self.wire()),
    {
        let mut payload: Vec<u8> = Vec::new();
        self.encode(&mut payload);
        game_frame_bytes(0x1E, sender_net_id, &payload)
    }
}

/// Wire record `SNpcSetAutocast`.
#[derive(Clone, Copy, Debug, PartialEq, Eq, Structural)]
pub struct SNpcSetAutocast {
    pub slot: u8,
}

impl SNpcSetAutocast {
    pub open spec fn wire(self) -> Seq<u8> {
        wire_u8(self.slot)
    }

    pub open spec fn parse(s: Seq<u8>, i: int) -> Option<(Self, int)> {
        match parse_u8(s, i) {
            Some((v0, j0)) =>
            Some((SNpcSetAutocast { slot: v0 }, j0)),
            None => None,
        }
    }

    /// Parsing an encoded record restores it.
    pub proof fn lemma_parse_wire(self, s: Seq<u8>, pre: Seq<u8>, post: Seq<u8>)
        requires
            s == pre + self.wire() + post,
        ensures
            Self::parse(s, pre.len() as int) == Some((self, (pre.len() + self.wire().len()) as int)),
    {
        vstd::bytes::lemma_auto_spec_u16_to_from_le_bytes();
        vstd::bytes::lemma_auto_spec_u32_to_from_le_bytes();
        vstd::bytes::lemma_auto_spec_u64_to_from_le_bytes();
        let w0 = wire_u8(self.slot);
        let rest0 = post;
        assert(s =~= pre + w0 + rest0);
        lemma_parse_wire_u8(s, pre, self.slot, rest0);
    }

    pub fn encode(&self, out: &mut Vec<u8>)
        ensures
            final(out)@ == old(out)@ + self.wire(),
    {
        let ghost base = out@;
        put_u8(out, self.slot);
        assert(out@ =~= base + self.wire());
    }

    pub fn decode(s: &[u8], i: usize) -> (r: Option<(Self, usize)>)
        ensures
            parsed(Self::parse(s@, i as int), r),
    {
        let slen = s.len();
        assert(s@.len() == slen);
        match take_u8(s, i) {
            Some((v0, j0)) =>
            Some((SNpcSetAutocast { slot: v0 }, j0)),
            None => None,
        }
    }

    /// The full game frame carrying this packet.
    pub fn to_bytes(&self, sender_net_id: u32) -> (r: Vec<u8>)
        ensures
            r@ == game_frame(0x22, sender_net_id, self.wire()),
    {
        let mut payload: Vec<u8> = Vec::new();
        self.encode(&mut payload);
        game_frame_bytes(0x22, sender_net_id, &payload)
    }
}

/// Wire record `SMuteVolumeCategory`.
#[derive(Clone, Copy, Debug, PartialEq, Eq, Structural)]
pub struct SMuteVolumeCategory {
    pub volume_category: u8,
    pub mute: bool,
}

impl SMuteVolumeCategory {
    pub open spec fn wire(self) -> Seq<u8> {
        wire_u8(self.volume_category) + wire_bool(self.mute)
    }

    pub open spec fn parse(s: Seq<u8>, i: int) -> Option<(Self, int)> {
        match parse_u8(s, i) {
            Some((v0, j0)) =>
            match parse_bool(s, j0) {
                Some((v1, j1)) =>
                Some((SMuteVolumeCategory { volume_category: v0, mute: v1 }, j1)),
                None => None,
            },
            None => None,
        }
    }

    /// Parsing an encoded record restores it.
    pub proof fn lemma_parse_wire(self, s: Seq<u8>, pre: Seq<u8>, post: Seq<u8>)
        requires
            s == pre + self.wire() + post,
        ensures
            Self::parse(s, pre.len() as int) == Some((self, (pre.len() + self.wire().len()) as int)),
    {
        vstd::bytes::lemma_auto_spec_u16_to_from_le_bytes();
        vstd::bytes::lemma_auto_spec_u32_to_from_le_bytes();
        vstd::bytes::lemma_auto_spec_u64_to_from_le_bytes();
        let w0 = wire_u8(self.volume_category);
        let w1 = wire_bool(self.mute);
        let rest1 = post;
        let rest0 = w1 + rest1;
        assert(s =~= pre + w0 + rest0);
        lemma_parse_wire_u8(s, pre, self.volume_category, rest0);
        let pre1 = pre + w0;
        assert(s =~= pre1 + w1 + rest1);
        lemma_parse_wire_bool(s, pre1, self.mute, rest1);
    }

    pub fn encode(&self, out: &mut Vec<u8>)
        ensures
            final(out)@ == old(out)@ + self.wire(),
    {
        let ghost base = out@;
        put_u8(out, self.volume_category);
        put_bool(out, self.mute);
        assert(out@ =~= base + self.wire());
    }

    pub fn decode(s: &[u8], i: usize) -> (r: Option<(Self, usize)>)
        ensures
            parsed(Self::parse(s@, i as int), r),
    {
        let slen = s.len();
        assert(s@.len() == slen);
        match take_u8(s, i) {
            Some((v0, j0)) =>
            match take_bool(s, j0) {
                Some((v1, j1)) =>
                Some((SMuteVolumeCategory { volume_category: v0, mute: v1 }, j1)),
                None => None,
            },
            None => None,
        }
    }

    /// The full game frame carrying this packet.
    pub fn to_bytes(&self, sender_net_id: u32) -> (r: Vec<u8>)
        ensures
            r@ == game_frame(0x29, sender_net_id, self.wire()),
    {
        let mut payload: Vec<u8> = Vec::new();
        self.encode(&mut payload);
        game_frame_bytes(0x29, sender_net_id, &payload)
    }
}

/// Wire record `SWorldSendCameraServerAck`.
#[derive(Clone, Copy, Debug, PartialEq, Eq, Structural)]
pub struct SWorldSendCameraServerAck {
    pub sync_id: u8,
}

impl SWorldSendCameraServerAck {
    pub open spec fn wire(self) -> Seq<u8> {
        wire_u8(self.sync_id)
    }

    pub open spec fn parse(s: Seq<u8>, i: int) -> Option<(Self, int)> {
        match parse_u8(s, i) {
            Some((v0, j0)) =>
            Some((SWorldSendCameraServerAck { sync_id: v0 }, j0)),
            None => None,
        }
    }

    /// Parsing an encoded record restores it.
    pub proof fn lemma_parse_wire(self, s: Seq<u8>, pre: Seq<u8>, post: Seq<u8>)
        requires
            s == pre + self.wire() + post,
        ensures
            Self::parse(s, pre.len() as int) == Some((self, (pre.len() + self.wire().len()) as int)),
    {
        vstd::bytes::lemma_auto_spec_u16_to_from_le_bytes();
        vstd::bytes::lemma_auto_spec_u32_to_from_le_bytes();
        vstd::bytes::lemma_auto_spec_u64_to_from_le_bytes();
        let w0 = wire_u8(self.sync_id);
        let rest0 = post;
        assert(s =~= pre + w0 + rest0);
        lemma_parse_wire_u8(s, pre, self.sync_id, rest0);
    }

    pub fn encode(&self, out: &mut Vec<u8>)
        ensures
            final(out)@ == old(out)@ + self.wire(),
    {
        let ghost base = out@;
        put_u8(out, self.sync_id);
        assert(out@ =~= base + self.wire());
    }

    pub fn decode(s: &[u8], i: usize) -> (r: Option<(Self, usize)>)
        ensures
            parsed(Self::parse(s@, i as int), r),
    {
        let slen = s.len();
        assert(s@.len() == slen);
        match take_u8(s, i) {
            Some((v0, j0)) =>
            Some((SWorldSendCameraServerAck { sync_id: v0 }, j0)),
            None => None,
        }
    }

    /// The full game frame carrying this packet.
    pub fn to_bytes(&self, sender_net_id: u32) -> (r: Vec<u8>)
        ensures
            r@ == game_frame(0x2E, sender_net_id, self.wire()),
    {
        let mut payload: Vec<u8> = Vec::new();
        self.encode(&mut payload);
        game_frame_bytes(0x2E, sender_net_id, &payload)
    }
}

/// Wire record `SPause`.
#[derive(Clone, Copy, Debug, PartialEq, Eq, Structural)]
pub struct SPause {
    pub client_id: u32,
    pub pause_time_remaining: u32,
    pub tournament_pause: bool,
}

impl SPause {
    pub open spec fn wire(self) -> Seq<u8> {
        wire_u32(self.client_id) + wire_u32(self.pause_time_remaining) + wire_bool(self.tournament_pause)
    }

    pub open spec fn parse(s: Seq<u8>, i: int) -> Option<(Self, int)> {
        match parse_u32(s, i) {
            Some((v0, j0)) =>
            match parse_u32(s, j0) {
                Some((v1, j1)) =>
                match parse_bool(s, j1) {
                    Some((v2, j2)) =>
                    Some((SPause { client_id: v0, pause_time_remaining: v1, tournament_pause: v2 }, j2)),
                    None => None,
                },
                None => None,
            },
            None => None,
        }
    }

    /// Parsing an encoded record restores it.
    pub proof fn lemma_parse_wire(self, s: Seq<u8>, pre: Seq<u8>, post: Seq<u8>)
        requires
            s == pre + self.wire() + post,
        ensures
            Self::parse(s, pre.len() as int) == Some((self, (pre.len() + self.wire().len()) as int)),
    {
        vstd::bytes::lemma_auto_spec_u16_to_from_le_bytes();
        vstd::bytes::lemma_auto_spec_u32_to_from_le_bytes();
        vstd::bytes::lemma_auto_spec_u64_to_from_le_bytes();
        let w0 = wire_u32(self.client_id);
        let w1 = wire_u32(self.pause_time_remaining);
        let w2 = wire_bool(self.tournament_pause);
        let rest2 = post;
        let rest1 = w2 + rest2;
        let rest0 = w1 + rest1;
        assert(s =~= pre + w0 + rest0);
        lemma_parse_wire_u32(s, pre, self.client_id, rest0);
        let pre1 = pre + w0;
        assert(s =~= pre1 + w1 + rest1);
        lemma_parse_wire_u32(s, pre1, self.pause_time_remaining, rest1);
        let pre2 = pre1 + w1;
        assert(s =~= pre2 + w2 + rest2);
        lemma_parse_wire_bool(s, pre2, self.tournament_pause, rest2);
    }

    pub fn encode(&self, out: &mut Vec<u8>)
        ensures
            final(out)@ == old(out)@ + self.wire(),
    {
        let ghost base = out@;
        put_u32(out, self.client_id);
        put_u32(out, self.pause_time_remaining);
        put_bool(out, self.tournament_pause);
        assert(out@ =~= base + self.wire());
    }

    pub fn decode(s: &[u8], i: usize) -> (r: Option<(Self, usize)>)
        ensures
            parsed(Self::parse(s@, i as int), r),
    {
        let slen = s.len();
        assert(s@.len() == slen);
        match take_u32(s, i) {
            Some((v0, j0)) =>
            match take_u32(s, j0) {
                Some((v1, j1)) =>
                match take_bool(s, j1) {
                    Some((v2, j2)) =>
                    Some((SPause { client_id: v0, pause_time_remaining: v1, tournament_pause: v2 }, j2)),
                    None => None,
                },
                None => None,
            },
            None => None,
        }
    }

    /// The full game frame carrying this packet.
    pub fn to_bytes(&self, sender_net_id: u32) -> (r: Vec<u8>)
        ensures
            r@ == game_frame(0x33, sender_net_id, self.wire()),
    {
        let mut payload: Vec<u8> = Vec::new();
        self.encode(&mut payload);
        game_frame_bytes(0x33, sender_net_id, &payload)
    }
}

/// Wire record `SSetFadeOutPop`.
#[derive(Clone, Copy, Debug, PartialEq, Eq, Structural)]
pub struct SSetFadeOutPop {
    pub stack_id: u16,
}

impl SSetFadeOutPop {
    pub open spec fn wire(self) -> Seq<u8> {
        wire_u16(self.stack_id)
    }

    pub open spec fn parse(s: Seq<u8>, i: int) -> Option<(Self, int)> {
        match parse_u16(s, i) {
            Some((v0, j0)) =>
            Some((SSetFadeOutPop { stack_id: v0 }, j0)),
            None => None,
        }
    }

    /// Parsing an encoded record restores it.
    pub proof fn lemma_parse_wire(self, s: Seq<u8>, pre: Seq<u8>, post: Seq<u8>)
        requires
            s == pre + self.wire() + post,
        ensures
            Self::parse(s, pre.len() as int) == Some((self, (pre.len() + self.wire().len()) as int)),
    {
        vstd::bytes::lemma_auto_spec_u16_to_from_le_bytes();
        vstd::bytes::lemma_auto_spec_u32_to_from_le_bytes();
        vstd::bytes::lemma_auto_spec_u64_to_from_le_bytes();
        let w0 = wire_u16(self.stack_id);
        let rest0 = post;
        assert(s =~= pre + w0 + rest0);
        lemma_parse_wire_u16(s, pre, self.stack_id, rest0);
    }

    pub fn encode(&self, out: &mut Vec<u8>)
        ensures
            final(out)@ == old(out)@ + self.wire(),
    {
        let ghost base = out@;
        put_u16(out, self.stack_id);
        assert(out@ =~= base + self.wire());
    }

    pub fn decode(s: &[u8], i: usize) -> (r: Option<(Self, usize)>)
        ensures
            parsed(Self::parse(s@, i as int), r),
    {
        let slen = s.len();
        assert(s@.len() == slen);
        match take_u16(s, i) {
            Some((v0, j0)) =>
            Some((SSetFadeOutPop { stack_id: v0 }, j0)),
            None => None,
        }
    }

    /// The full game frame carrying this packet.
    pub fn to_bytes(&self, sender_net_id: u32) -> (r: Vec<u8>)
        ensures
            r@ == game_frame(0x34, sender_net_id, self.wire()),
    {
        let mut payload: Vec<u8> = Vec::new();
        self.encode(&mut payload);
        game_frame_bytes(0x34, sender_net_id, &payload)
    }
}

/// Wire record `SRemovePerceptionBubble`.
#[derive(Clone, Copy, Debug, PartialEq, Eq, Structural)]
pub struct SRemovePerceptionBubble {
    pub bubble_id: u32,
}

impl SRemovePerceptionBubble {
    pub open spec fn wire(self) -> Seq<u8> {
        wire_u32(self.bubble_id)
    }

    pub open spec fn parse(s: Seq<u8>, i: int) -> Option<(Self, int)> {
        match parse_u32(s, i) {
            Some((v0, j0)) =>
            Some((SRemovePerceptionBubble { bubble_id: v0 }, j0)),
            None => None,
        }
    }

    /// Parsing an encoded record restores it.
    pub proof fn lemma_parse_wire(self, s: Seq<u8>, pre: Seq<u8>, post: Seq<u8>)
        requires
            s == pre + self.wire() + post,
        ensures
            Self::parse(s, pre.len() as int) == Some((self, (pre.len() + self.wire().len()) as int)),
    {
        vstd::bytes::lemma_auto_spec_u16_to_from_le_bytes();
        vstd::bytes::lemma_auto_spec_u32_to_from_le_bytes();
        vstd::bytes::lemma_auto_spec_u64_to_from_le_bytes();
        let w0 = wire_u32(self.bubble_id);
        let rest0 = post;
        assert(s =~= pre + w0 + rest0);
        lemma_parse_wire_u32(s, pre, self.bubble_id, rest0);
    }

    pub fn encode(&self, out: &mut Vec<u8>)
        ensures
            final(out)@ == old(out)@ + self.wire(),
    {
        let ghost base = out@;
        put_u32(out, self.bubble_id);
        assert(out@ =~= base + self.wire());
    }

    pub fn decode(s: &[u8], i: usize) -> (r: Option<(Self, usize)>)
        ensures
            parsed(Self::parse(s@, i as int), r),
    {
        let slen = s.len();
        assert(s@.len() == slen);
        match take_u32(s, i) {
            Some((v0, j0)) =>
            Some((SRemovePerceptionBubble { bubble_id: v0 }, j0)),
            None => None,
        }
    }

    /// The full game frame carrying this packet.
    pub fn to_bytes(&self, sender_net_id: u32) -> (r: Vec<u8>)
        ensures
            r@ == game_frame(0x38, sender_net_id, self.wire()),
    {
        let mut payload: Vec<u8> = Vec::new();
        self.encode(&mut payload);
        game_frame_bytes(0x38, sender_net_id, &payload)
    }
}

/// Wire record `SOnLeaveLocalVisiblityClient`.
#[derive(Clone, Copy, Debug, PartialEq, Eq, Structural)]
pub struct SOnLeaveLocalVisiblityClient {
}

impl SOnLeaveLocalVisiblityClient {
    pub open spec fn wire(self) -> Seq<u8> {
        Seq::empty()
    }

    pub open spec fn parse(s: Seq<u8>, i: int) -> Option<(Self, int)> {
        if 0 <= i <= s.len() {
            Some((SOnLeaveLocalVisiblityClient {  }, i))
        } else {
            None
        }
    }

    /// Parsing an encoded record restores it.
    pub proof fn lemma_parse_wire(self, s: Seq<u8>, pre: Seq<u8>, post: Seq<u8>)
        requires
            s == pre + self.wire() + post,
        ensures
            Self::parse(s, pre.len() as int) == Some((self, (pre.len() + self.wire().len()) as int)),
    {
        vstd::bytes::lemma_auto_spec_u16_to_from_le_bytes();
        vstd::bytes::lemma_auto_spec_u32_to_from_le_bytes();
        vstd::bytes::lemma_auto_spec_u64_to_from_le_bytes();
    }

    pub fn encode(&self, out: &mut Vec<u8>)
        ensures
            final(out)@ == old(out)@ + self.wire(),
    {
        let ghost base = out@;
        assert(out@ =~= base + self.wire());
    }

    pub fn decode(s: &[u8], i: usize) -> (r: Option<(Self, usize)>)
        ensures
            parsed(Self::parse(s@, i as int), r),
    {
        let slen = s.len();
        assert(s@.len() == slen);
        if i <= slen {
            Some((SOnLeaveLocalVisiblityClient {  }, i))
        } else {
            None
        }
    }

    /// The full game frame carrying this packet.
    pub fn to_bytes(&self, sender_net_id: u32) -> (r: Vec<u8>)
        ensures
            r@ == game_frame(0x3A, sender_net_id, self.wire()),
    {
        let mut payload: Vec<u8> = Vec::new();
        self.encode(&mut payload);
        game_frame_bytes(0x3A, sender_net_id, &payload)
    }
}

/// Wire record `SFxKill`.
#[derive(Clone, Copy, Debug, PartialEq, Eq, Structural)]
pub struct SFxKill {
    pub unknown_net_id: u32,
}

impl SFxKill {
    pub open spec fn wire(self) -> Seq<u8> {
        wire_u32(self.unknown_net_id)
    }

    pub open spec fn parse(s: Seq<u8>, i: int) -> Option<(Self, int)> {
        match parse_u32(s, i) {
            Some((v0, j0)) =>
            Some((SFxKill { unknown_net_id: v0 }, j0)),
            None => None,
        }
    }

    /// Parsing an encoded record restores it.
    pub proof fn lemma_parse_wire(self, s: Seq<u8>, pre: Seq<u8>, post: Seq<u8>)
        requires
            s == pre + self.wire() + post,
        ensures
            Self::parse(s, pre.len() as int) == Some((self, (pre.len() + self.wire().len()) as int)),
    {
        vstd::bytes::lemma_auto_spec_u16_to_from_le_bytes();
        vstd::bytes::lemma_auto_spec_u32_to_from_le_bytes();
        vstd::bytes::lemma_auto_spec_u64_to_from_le_bytes();
        let w0 = wire_u32(self.unknown_net_id);
        let rest0 = post;
        assert(s =~= pre + w0 + rest0);
        lemma_parse_wire_u32(s, pre, self.unknown_net_id, rest0);
    }

    pub fn encode(&self, out: &mut Vec<u8>)
        ensures
            final(out)@ == old(out)@ + self.wire(),
    {
        let ghost base = out@;
        put_u32(out, self.unknown_net_id);
        assert(out@ =~= base + self.wire());
    }

    pub fn decode(s: &[u8], i: usize) -> (r: Option<(Self, usize)>)
        ensures
            parsed(Self::parse(s@, i as int), r),
    {
        let slen = s.len();
        assert(s@.len() == slen);
        match take_u32(s, i) {
            Some((v0, j0)) =>
            Some((SFxKill { unknown_net_id: v0 }, j0)),
            None => None,
        }
    }

    /// The full game frame carrying this packet.
    pub fn to_bytes(&self, sender_net_id: u32) -> (r: Vec<u8>)
        ensures
            r@ == game_frame(0x3D, sender_net_id, self.wire()),
    {
        let mut payload: Vec<u8> = Vec::new();
        self.encode(&mut payload);
        game_frame_bytes(0x3D, sender_net_id, &payload)
    }
}

/// Wire record `STurretCreateTurret`.
#[derive(Clone, Copy, Debug, PartialEq, Eq, Structural)]
pub struct STurretCreateTurret {
}

impl STurretCreateTurret {
    pub open spec fn wire(self) -> Seq<u8> {
        Seq::empty()
    }

    pub open spec fn parse(s: Seq<u8>, i: int) -> Option<(Self, int)> {
        if 0 <= i <= s.len() {
            Some((STurretCreateTurret {  }, i))
        } else {
            None
        }
    }

    /// Parsing an encoded record restores it.
    pub proof fn lemma_parse_wire(self, s: Seq<u8>, pre: Seq<u8>, post: Seq<u8>)
        requires
            s == pre + self.wire() + post,
        ensures
            Self::parse(s, pre.len() as int) == Some((self, (pre.len() + self.wire().len()) as int)),
    {
        vstd::bytes::lemma_auto_spec_u16_to_from_le_bytes();
        vstd::bytes::lemma_auto_spec_u32_to_from_le_bytes();
        vstd::bytes::lemma_auto_spec_u64_to_from_le_bytes();
    }

    pub fn encode(&self, out: &mut Vec<u8>)
        ensures
            final(out)@ == old(out)@ + self.wire(),
    {
        let ghost base = out@;
        assert(out@ =~= base + self.wire());
    }

    pub fn decode(s: &[u8], i: usize) -> (r: Option<(Self, usize)>)
        ensures
            parsed(Self::parse(s@, i as int), r),
    {
        let slen = s.len();
        assert(s@.len() == slen);
        if i <= slen {
            Some((STurretCreateTurret {  }, i))
        } else {
            None
        }
    }

    /// The full game frame carrying this packet.
    pub fn to_bytes(&self, sender_net_id: u32) -> (r: Vec<u8>)
        ensures
            r@ == game_frame(0x40, sender_net_id, self.wire()),
    {
        let mut payload: Vec<u8> = Vec::new();
        self.encode(&mut payload);
        game_frame_bytes(0x40, sender_net_id, &payload)
    }
}

/// Wire record `SResetForSlowLoader`.
#[derive(Clone, Copy, Debug, PartialEq, Eq, Structural)]
pub struct SResetForSlowLoader {
}

impl SResetForSlowLoader {
    pub open spec fn wire(self) -> Seq<u8> {
        Seq::empty()
    }

    pub open spec fn parse(s: Seq<u8>, i: int) -> Option<(Self, int)> {
        if 0 <= i <= s.len() {
            Some((SResetForSlowLoader {  }, i))
        } else {
            None
        }
    }

    /// Parsing an encoded record restores it.
    pub proof fn lemma_parse_wire(self, s: Seq<u8>, pre: Seq<u8>, post: Seq<u8>)
        requires
            s == pre + self.wire() + post,
        ensures
            Self::parse(s, pre.len() as int) == Some((self, (pre.len() + self.wire().len()) as int)),
    {
        vstd::bytes::lemma_auto_spec_u16_to_from_le_bytes();
        vstd::bytes::lemma_auto_spec_u32_to_from_le_bytes();
        vstd::bytes::lemma_auto_spec_u64_to_from_le_bytes();
    }

    pub fn encode(&self, out: &mut Vec<u8>)
        ensures
            final(out)@ == old(out)@ + self.wire(),
    {
        let ghost base = out@;
        assert(out@ =~= base + self.wire());
    }

    pub fn decode(s: &[u8], i: usize) -> (r: Option<(Self, usize)>)
        ensures
            parsed(Self::parse(s@, i as int), r),
    {
        let slen = s.len();
        assert(s@.len() == slen);
        if i <= slen {
            Some((SResetForSlowLoader {  }, i))
        } else {
            None
        }
    }

    /// The full game frame carrying this packet.
    pub fn to_bytes(&self, sender_net_id: u32) -> (r: Vec<u8>)
        ensures
            r@ == game_frame(0x42, sender_net_id, self.wire()),
    {
        let mut payload: Vec<u8> = Vec::new();
        self.encode(&mut payload);
        game_frame_bytes(0x42, sender_net_id, &payload)
    }
}

/// Wire record `SHighlightHUDElement`.
#[derive(Clone, Copy, Debug, PartialEq, Eq, Structural)]
pub struct SHighlightHUDElement {
    pub element_type: u8,
    pub element_number: u8,
}

impl SHighlightHUDElement {
    pub open spec fn wire(self) -> Seq<u8> {
        wire_u8(self.element_type) + wire_u8(self.element_number)
    }

    pub open spec fn parse(s: Seq<u8>, i: int) -> Option<(Self, int)> {
        match parse_u8(s, i) {
            Some((v0, j0)) =>
            match parse_u8(s, j0) {
                Some((v1, j1)) =>
                Some((SHighlightHUDElement { element_type: v0, element_number: v1 }, j1)),
                None => None,
            },
            None => None,
        }
    }

    /// Parsing an encoded record restores it.
    pub proof fn lemma_parse_wire(self, s: Seq<u8>, pre: Seq<u8>, post: Seq<u8>)
        requires
            s == pre + self.wire() + post,
        ensures
            Self::parse(s, pre.len() as int) == Some((self, (pre.len() + self.wire().len()) as int)),
    {
        vstd::bytes::lemma_auto_spec_u16_to_from_le_bytes();
        vstd::bytes::lemma_auto_spec_u32_to_from_le_bytes();
        vstd::bytes::lemma_auto_spec_u64_to_from_le_bytes();
        let w0 = wire_u8(self.element_type);
        let w1 = wire_u8(self.element_number);
        let rest1 = post;
        let rest0 = w1 + rest1;
        assert(s =~= pre + w0 + rest0);
        lemma_parse_wire_u8(s, pre, self.element_type, rest0);
        let pre1 = pre + w0;
        assert(s =~= pre1 + w1 + rest1);
        lemma_parse_wire_u8(s, pre1, self.element_number, rest1);
    }

    pub fn encode(&self, out: &mut Vec<u8>)
        ensures
            final(out)@ == old(out)@ + self.wire(),
    {
        let ghost base = out@;
        put_u8(out, self.element_type);
        put_u8(out, self.element_number);
        assert(out@ =~= base + self.wire());
    }

    pub fn decode(s: &[u8], i: usize) -> (r: Option<(Self, usize)>)
        ensures
            parsed(Self::parse(s@, i as int), r),
    {
        let slen = s.len();
        assert(s@.len() == slen);
        match take_u8(s, i) {
            Some((v0, j0)) =>
            match take_u8(s, j0) {
                Some((v1, j1)) =>
                Some((SHighlightHUDElement { element_type: v0, element_number: v1 }, j1)),
                None => None,
            },
            None => None,
        }
    }

    /// The full game frame carrying this packet.
    pub fn to_bytes(&self, sender_net_id: u32) -> (r: Vec<u8>)
        ensures
            r@ == game_frame(0x43, sender_net_id, self.wire()),
    {
        let mut payload: Vec<u8> = Vec::new();
        self.encode(&mut payload);
        game_frame_bytes(0x43, sender_net_id, &payload)
    }
}

/// Wire record `SNpcLevelUp`.
#[derive(Clone, Copy, Debug, PartialEq, Eq, Structural)]
pub struct SNpcLevelUp {
    pub level: u8,
    pub available_points: u8,
}

impl SNpcLevelUp {
    pub open spec fn wire(self) -> Seq<u8> {
        wire_u8(self.level) + wire_u8(self.available_points)
    }

    pub open spec fn parse(s: Seq<u8>, i: int) -> Option<(Self, int)> {
        match parse_u8(s, i) {
            Some((v0, j0)) =>
            match parse_u8(s, j0) {
                Some((v1, j1)) =>
                Some((SNpcLevelUp { level: v0, available_points: v1 }, j1)),
                None => None,
            },
            None => None,
        }
    }

    /// Parsing an encoded record restores it.
    pub proof fn lemma_parse_wire(self, s: Seq<u8>, pre: Seq<u8>, post: Seq<u8>)
        requires
            s == pre + self.wire() + post,
        ensures
            Self::parse(s, pre.len() as int) == Some((self, (pre.len() + self.wire().len()) as int)),
    {
        vstd::bytes::lemma_auto_spec_u16_to_from_le_bytes();
        vstd::bytes::lemma_auto_spec_u32_to_from_le_bytes();
        vstd::bytes::lemma_auto_spec_u64_to_from_le_bytes();
        let w0 = wire_u8(self.level);
        let w1 = wire_u8(self.available_points);
        let rest1 = post;
        let rest0 = w1 + rest1;
        assert(s =~= pre + w0 + rest0);
        lemma_parse_wire_u8(s, pre, self.level, rest0);
        let pre1 = pre + w0;
        assert(s =~= pre1 + w1 + rest1);
        lemma_parse_wire_u8(s, pre1, self.available_points, rest1);
    }

    pub fn encode(&self, out: &mut Vec<u8>)
        ensures
            final(out)@ == old(out)@ + self.wire(),
    {
        let ghost base = out@;
        put_u8(out, self.level);
        put_u8(out, self.available_points);
        assert(out@ =~= base + self.wire());
    }

    pub fn decode(s: &[u8], i: usize) -> (r: Option<(Self, usize)>)
        ensures
            parsed(Self::parse(s@, i as int), r),
    {
        let slen = s.len();
        assert(s@.len() == slen);
        match take_u8(s, i) {
            Some((v0, j0)) =>
            match take_u8(s, j0) {
                Some((v1, j1)) =>
                Some((SNpcLevelUp { level: v0, available_points: v1 }, j1)),
                None => None,
            },
            None => None,
        }
    }

    /// The full game frame carrying this packet.
    pub fn to_bytes(&self, sender_net_id: u32) -> (r: Vec<u8>)
        ensures
            r@ == game_frame(0x45, sender_net_id, self.wire()),
    {
        let mut payload: Vec<u8> = Vec::new();
        self.encode(&mut payload);
        game_frame_bytes(0x45, sender_net_id, &payload)
    }
}

/// Wire record `SPlayEmote`.
#[derive(Clone, Copy, Debug, PartialEq, Eq, Structural)]
pub struct SPlayEmote {
    pub emote_id: u32,
}

impl SPlayEmote {
    pub open spec fn wire(self) -> Seq<u8> {
        wire_u32(self.emote_id)
    }

    pub open spec fn parse(s: Seq<u8>, i: int) -> Option<(Self, int)> {
        match parse_u32(s, i) {
            Some((v0, j0)) =>
            Some((SPlayEmote { emote_id: v0 }, j0)),
            None => None,
        }
    }

    /// Parsing an encoded record restores it.
    pub proof fn lemma_parse_wire(self, s: Seq<u8>, pre: Seq<u8>, post: Seq<u8>)
        requires
            s == pre + self.wire() + post,
        ensures
            Self::parse(s, pre.len() as int) == Some((self, (pre.len() + self.wire().len()) as int)),
    {
        vstd::bytes::lemma_auto_spec_u16_to_from_le_bytes();
        vstd::bytes::lemma_auto_spec_u32_to_from_le_bytes();
        vstd::bytes::lemma_auto_spec_u64_to_from_le_bytes();
        let w0 = wire_u32(self.emote_id);
        let rest0 = post;
        assert(s =~= pre + w0 + rest0);
        lemma_parse_wire_u32(s, pre, self.emote_id, rest0);
    }

    pub fn encode(&self, out: &mut Vec<u8>)
        ensures
            final(out)@ == old(out)@ + self.wire(),
    {
        let ghost base = out@;
        put_u32(out, self.emote_id);
        assert(out@ =~= base + self.wire());
    }

    pub fn decode(s: &[u8], i: usize) -> (r: Option<(Self, usize)>)
        ensures
            parsed(Self::parse(s@, i as int), r),
    {
        let slen = s.len();
        assert(s@.len() == slen);
        match take_u32(s, i) {
            Some((v0, j0)) =>
            Some((SPlayEmote { emote_id: v0 }, j0)),
            None => None,
        }
    }

    /// The full game frame carrying this packet.
    pub fn to_bytes(&self, sender_net_id: u32) -> (r: Vec<u8>)
        ensures
            r@ == game_frame(0x48, sender_net_id, self.wire()),
    {
        let mut payload: Vec<u8> = Vec::new();
        self.encode(&mut payload);
        game_frame_bytes(0x48, sender_net_id, &payload)
    }
}

/// Wire record `SReconnectDone`.
#[derive(Clone, Copy, Debug, PartialEq, Eq, Structural)]
pub struct SReconnectDone {
}

impl SReconnectDone {
    pub open spec fn wire(self) -> Seq<u8> {
        Seq::empty()
    }

    pub open spec fn parse(s: Seq<u8>, i: int) -> Option<(Self, int)> {
        if 0 <= i <= s.len() {
            Some((SReconnectDone {  }, i))
        } else {
            None
        }
    }

    /// Parsing an encoded record restores it.
    pub proof fn lemma_parse_wire(self, s: Seq<u8>, pre: Seq<u8>, post: Seq<u8>)
        requires
            s == pre + self.wire() + post,
        ensures
            Self::parse(s, pre.len() as int) == Some((self, (pre.len() + self.wire().len()) as int)),
    {
        vstd::bytes::lemma_auto_spec_u16_to_from_le_bytes();
        vstd::bytes::lemma_auto_spec_u32_to_from_le_bytes();
        vstd::bytes::lemma_auto_spec_u64_to_from_le_bytes();
    }

    pub fn encode(&self, out: &mut Vec<u8>)
        ensures
            final(out)@ == old(out)@ + self.wire(),
    {
        let ghost base = out@;
        assert(out@ =~= base + self.wire());
    }

    pub fn decode(s: &[u8], i: usize) -> (r: Option<(Self, usize)>)
        ensures
            parsed(Self::parse(s@, i as int), r),
    {
        let slen = s.len();
        assert(s@.len() == slen);
        if i <= slen {
            Some((SReconnectDone {  }, i))
        } else {
            None
        }
    }

    /// The full game frame carrying this packet.
    pub fn to_bytes(&self, sender_net_id: u32) -> (r: Vec<u8>)
        ensures
            r@ == game_frame(0x49, sender_net_id, self.wire()),
    {
        let mut payload: Vec<u8> = Vec::new();
        self.encode(&mut payload);
        game_frame_bytes(0x49, sender_net_id, &payload)
    }
}

/// Wire record `SOnEventWorld`.
#[derive(Clone, Copy, Debug, PartialEq, Eq, Structural)]
pub struct SOnEventWorld {
}

impl SOnEventWorld {
    pub open spec fn wire(self) -> Seq<u8> {
        Seq::empty()
    }

    pub open spec fn parse(s: Seq<u8>, i: int) -> Option<(Self, int)> {
        if 0 <= i <= s.len() {
            Some((SOnEventWorld {  }, i))
        } else {
            None
        }
    }

    /// Parsing an encoded record restores it.
    pub proof fn lemma_parse_wire(self, s: Seq<u8>, pre: Seq<u8>, post: Seq<u8>)
        requires
            s == pre + self.wire() + post,
        ensures
            Self::parse(s, pre.len() as int) == Some((self, (pre.len() + self.wire().len()) as int)),
    {
        vstd::bytes::lemma_auto_spec_u16_to_from_le_bytes();
        vstd::bytes::lemma_auto_spec_u32_to_from_le_bytes();
        vstd::bytes::lemma_auto_spec_u64_to_from_le_bytes();
    }

    pub fn encode(&self, out: &mut Vec<u8>)
        ensures
            final(out)@ == old(out)@ + self.wire(),
    {
        let ghost base = out@;
        assert(out@ =~= base + self.wire());
    }

    pub fn decode(s: &[u8], i: usize) -> (r: Option<(Self, usize)>)
        ensures
            parsed(Self::parse(s@, i as int), r),
    {
        let slen = s.len();
        assert(s@.len() == slen);
        if i <= slen {
            Some((SOnEventWorld {  }, i))
        } else {
            None
        }
    }

    /// The full game frame carrying this packet.
    pub fn to_bytes(&self, sender_net_id: u32) -> (r: Vec<u8>)
        ensures
            r@ == game_frame(0x4A, sender_net_id, self.wire()),
    {
        let mut payload: Vec<u8> = Vec::new();
        self.encode(&mut payload);
        game_frame_bytes(0x4A, sender_net_id, &payload)
    }
}

/// Wire record `SHeroStats`.
#[derive(Clone, Copy, Debug, PartialEq, Eq, Structural)]
pub struct SHeroStats {
}

impl SHeroStats {
    pub open spec fn wire(self) -> Seq<u8> {
        Seq::empty()
    }

    pub open spec fn parse(s: Seq<u8>, i: int) -> Option<(Self, int)> {
        if 0 <= i <= s.len() {
            Some((SHeroStats {  }, i))
        } else {
            None
        }
    }

    /// Parsing an encoded record restores it.
    pub proof fn lemma_parse_wire(self, s: Seq<u8>, pre: Seq<u8>, post: Seq<u8>)
        requires
            s == pre + self.wire() + post,
        ensures
            Self::parse(s, pre.len() as int) == Some((self, (pre.len() + self.wire().len()) as int)),
    {
        vstd::bytes::lemma_auto_spec_u16_to_from_le_bytes();
        vstd::bytes::lemma_auto_spec_u32_to_from_le_bytes();
        vstd::bytes::lemma_auto_spec_u64_to_from_le_bytes();
    }

    pub fn encode(&self, out: &mut Vec<u8>)
        ensures
            final(out)@ == old(out)@ + self.wire(),
    {
        let ghost base = out@;
        assert(out@ =~= base + self.wire());
    }

    pub fn decode(s: &[u8], i: usize) -> (r: Option<(Self, usize)>)
        ensures
            parsed(Self::parse(s@, i as int), r),
    {
        let slen = s.len();
        assert(s@.len() == slen);
        if i <= slen {
            Some((SHeroStats {  }, i))
        } else {
            None
        }
    }

    /// The full game frame carrying this packet.
    pub fn to_bytes(&self, sender_net_id: u32) -> (r: Vec<u8>)
        ensures
            r@ == game_frame(0x4B, sender_net_id, self.wire()),
    {
        let mut payload: Vec<u8> = Vec::new();
        self.encode(&mut payload);
        game_frame_bytes(0x4B, sender_net_id, &payload)
    }
}

/// Wire record `SToggleUIHighlight`.
#[derive(Clone, Copy, Debug, PartialEq, Eq, Structural)]
pub struct SToggleUIHighlight {
    pub element_id: u8,
    pub element_type: u8,
    pub element_number: u8,
    pub element_sub_category: u8,
    pub enabled: bool,
}

impl SToggleUIHighlight {
    pub open spec fn wire(self) -> Seq<u8> {
        wire_u8(self.element_id) + wire_u8(self.element_type) + wire_u8(self.element_number) + wire_u8(self.element_sub_category) + wire_bool(self.enabled)
    }

    pub open spec fn parse(s: Seq<u8>, i: int) -> Option<(Self, int)> {
        match parse_u8(s, i) {
            Some((v0, j0)) =>
            match parse_u8(s, j0) {
                Some((v1, j1)) =>
                match parse_u8(s, j1) {
                    Some((v2, j2)) =>
                    match parse_u8(s, j2) {
                        Some((v3, j3)) =>
                        match parse_bool(s, j3) {
                            Some((v4, j4)) =>
                            Some((SToggleUIHighlight { element_id: v0, element_type: v1, element_number: v2, element_sub_category: v3, enabled: v4 }, j4)),
                            None => None,
                        },
                        None => None,
                    },
                    None => None,
                },
                None => None,
            },
            None => None,
        }
    }

    /// Parsing an encoded record restores it.
    pub proof fn lemma_parse_wire(self, s: Seq<u8>, pre: Seq<u8>, post: Seq<u8>)
        requires
            s == pre + self.wire() + post,
        ensures
            Self::parse(s, pre.len() as int) == Some((self, (pre.len() + self.wire().len()) as int)),
    {
        vstd::bytes::lemma_auto_spec_u16_to_from_le_bytes();
        vstd::bytes::lemma_auto_spec_u32_to_from_le_bytes();
        vstd::bytes::lemma_auto_spec_u64_to_from_le_bytes();
        let w0 = wire_u8(self.element_id);
        let w1 = wire_u8(self.element_type);
        let w2 = wire_u8(self.element_number);
        let w3 = wire_u8(self.element_sub_category);
        let w4 = wire_bool(self.enabled);
        let rest4 = post;
        let rest3 = w4 + rest4;
        let rest2 = w3 + rest3;
        let rest1 = w2 + rest2;
        let rest0 = w1 + rest1;
        assert(s =~= pre + w0 + rest0);
        lemma_parse_wire_u8(s, pre, self.element_id, rest0);
        let pre1 = pre + w0;
        assert(s =~= pre1 + w1 + rest1);
        lemma_parse_wire_u8(s, pre1, self.element_type, rest1);
        let pre2 = pre1 + w1;
        assert(s =~= pre2 + w2 + rest2);
        lemma_parse_wire_u8(s, pre2, self.element_number, rest2);
        let pre3 = pre2 + w2;
        assert(s =~= pre3 + w3 + rest3);
        lemma_parse_wire_u8(s, pre3, self.element_sub_category, rest3);
        let pre4 = pre3 + w3;
        assert(s =~= pre4 + w4 + rest4);
        lemma_parse_wire_bool(s, pre4, self.enabled, rest4);
    }

    pub fn encode(&self, out: &mut Vec<u8>)
        ensures
            final(out)@ == old(out)@ + self.wire(),
    {
        let ghost base = out@;
        put_u8(out, self.element_id);
        put_u8(out, self.element_type);
        put_u8(out, self.element_number);
        put_u8(out, self.element_sub_category);
        put_bool(out, self.enabled);
        assert(out@ =~= base + self.wire());
    }

    pub fn decode(s: &[u8], i: usize) -> (r: Option<(Self, usize)>)
        ensures
            parsed(Self::parse(s@, i as int), r),
    {
        let slen = s.len();
        assert(s@.len() == slen);
        match take_u8(s, i) {
            Some((v0, j0)) =>
            match take_u8(s, j0) {
                Some((v1, j1)) =>
                match take_u8(s, j1) {
                    Some((v2, j2)) =>
                    match take_u8(s, j2) {
                        Some((v3, j3)) =>
                        match take_bool(s, j3) {
                            Some((v4, j4)) =>
                            Some((SToggleUIHighlight { element_id: v0, element_type: v1, element_number: v2, element_sub_category: v3, enabled: v4 }, j4)),
                            None => None,
                        },
                        None => None,
                    },
                    None => None,
                },
                None => None,
            },
            None => None,
        }
    }

    /// The full game frame carrying this packet.
    pub fn to_bytes(&self, sender_net_id: u32) -> (r: Vec<u8>)
        ensures
            r@ == game_frame(0x52, sender_net_id, self.wire()),
    {
        let mut payload: Vec<u8> = Vec::new();
        self.encode(&mut payload);
        game_frame_bytes(0x52, sender_net_id, &payload)
    }
}

/// Wire record `SOnLeaveVisibilityClient`.
#[derive(Clone, Copy, Debug, PartialEq, Eq, Structural)]
pub struct SOnLeaveVisibilityClient {
}

impl SOnLeaveVisibilityClient {
    pub open spec fn wire(self) -> Seq<u8> {
        Seq::empty()
    }

    pub open spec fn parse(s: Seq<u8>, i: int) -> Option<(Self, int)> {
        if 0 <= i <= s.len() {
            Some((SOnLeaveVisibilityClient {  }, i))
        } else {
            None
        }
    }

    /// Parsing an encoded record restores it.
    pub proof fn lemma_parse_wire(self, s: Seq<u8>, pre: Seq<u8>, post: Seq<u8>)
        requires
            s == pre + self.wire() + post,
        ensures
            Self::parse(s, pre.len() as int) == Some((self, (pre.len() + self.wire().len()) as int)),
    {
        vstd::bytes::lemma_auto_spec_u16_to_from_le_bytes();
        vstd::bytes::lemma_auto_spec_u32_to_from_le_bytes();
        vstd::bytes::lemma_auto_spec_u64_to_from_le_bytes();
    }

    pub fn encode(&self, out: &mut Vec<u8>)
        ensures
            final(out)@ == old(out)@ + self.wire(),
    {
        let ghost base = out@;
        assert(out@ =~= base + self.wire());
    }

    pub fn decode(s: &[u8], i: usize) -> (r: Option<(Self, usize)>)
        ensures
            parsed(Self::parse(s@, i as int), r),
    {
        let slen = s.len();
        assert(s@.len() == slen);
        if i <= slen {
            Some((SOnLeaveVisibilityClient {  }, i))
        } else {
            None
        }
    }

    /// The full game frame carrying this packet.
    pub fn to_bytes(&self, sender_net_id: u32) -> (r: Vec<u8>)
        ensures
            r@ == game_frame(0x54, sender_net_id, self.wire()),
    {
        let mut payload: Vec<u8> = Vec::new();
        self.encode(&mut payload);
        game_frame_bytes(0x54, sender_net_id, &payload)
    }
}

/// Wire record `SSetItem`.
#[derive(Clone, Copy, Debug, PartialEq, Eq, Structural)]
pub struct SSetItem {
    pub slot: u8,
    pub item_id: u32,
    pub items_in_slot: u8,
    pub spell_charges: u8,
}

impl SSetItem {
    pub open spec fn wire(self) -> Seq<u8> {
        wire_u8(self.slot) + wire_u32(self.item_id) + wire_u8(self.items_in_slot) + wire_u8(self.spell_charges)
    }

    pub open spec fn parse(s: Seq<u8>, i: int) -> Option<(Self, int)> {
        match parse_u8(s, i) {
            Some((v0, j0)) =>
            match parse_u32(s, j0) {
                Some((v1, j1)) =>
                match parse_u8(s, j1) {
                    Some((v2, j2)) =>
                    match parse_u8(s, j2) {
                        Some((v3, j3)) =>
                        Some((SSetItem { slot: v0, item_id: v1, items_in_slot: v2, spell_charges: v3 }, j3)),
                        None => None,
                    },
                    None => None,
                },
                None => None,
            },
            None => None,
        }
    }

    /// Parsing an encoded record restores it.
    pub proof fn lemma_parse_wire(self, s: Seq<u8>, pre: Seq<u8>, post: Seq<u8>)
        requires
            s == pre + self.wire() + post,
        ensures
            Self::parse(s, pre.len() as int) == Some((self, (pre.len() + self.wire().len()) as int)),
    {
        vstd::bytes::lemma_auto_spec_u16_to_from_le_bytes();
        vstd::bytes::lemma_auto_spec_u32_to_from_le_bytes();
        vstd::bytes::lemma_auto_spec_u64_to_from_le_bytes();
        let w0 = wire_u8(self.slot);
        let w1 = wire_u32(self.item_id);
        let w2 = wire_u8(self.items_in_slot);
        let w3 = wire_u8(self.spell_charges);
        let rest3 = post;
        let rest2 = w3 + rest3;
        let rest1 = w2 + rest2;
        let rest0 = w1 + rest1;
        assert(s =~= pre + w0 + rest0);
        lemma_parse_wire_u8(s, pre, self.slot, rest0);
        let pre1 = pre + w0;
        assert(s =~= pre1 + w1 + rest1);
        lemma_parse_wire_u32(s, pre1, self.item_id, rest1);
        let pre2 = pre1 + w1;
        assert(s =~= pre2 + w2 + rest2);
        lemma_parse_wire_u8(s, pre2, self.items_in_slot, rest2);
        let pre3 = pre2 + w2;
        assert(s =~= pre3 + w3 + rest3);
        lemma_parse_wire_u8(s, pre3, self.spell_charges, rest3);
    }

    pub fn encode(&self, out: &mut Vec<u8>)
        ensures
            final(out)@ == old(out)@ + self.wire(),
    {
        let ghost base = out@;
        put_u8(out, self.slot);
        put_u32(out, self.item_id);
        put_u8(out, self.items_in_slot);
        put_u8(out, self.spell_charges);
        assert(out@ =~= base + self.wire());
    }

    pub fn decode(s: &[u8], i: usize) -> (r: Option<(Self, usize)>)
        ensures
            parsed(Self::parse(s@, i as int), r),
    {
        let slen = s.len();
        assert(s@.len() == slen);
        match take_u8(s, i) {
            Some((v0, j0)) =>
            match take_u32(s, j0) {
                Some((v1, j1)) =>
                match take_u8(s, j1) {
                    Some((v2, j2)) =>
                    match take_u8(s, j2) {
                        Some((v3, j3)) =>
                        Some((SSetItem { slot: v0, item_id: v1, items_in_slot: v2, spell_charges: v3 }, j3)),
                        None => None,
                    },
                    None => None,
                },
                None => None,
            },
            None => None,
        }
    }

    /// The full game frame carrying this packet.
    pub fn to_bytes(&self, sender_net_id: u32) -> (r: Vec<u8>)
        ensures
            r@ == game_frame(0x56, sender_net_id, self.wire()),
    {
        let mut payload: Vec<u8> = Vec::new();
        self.encode(&mut payload);
        game_frame_bytes(0x56, sender_net_id, &payload)
    }
}

/// Wire record `SRemoveDebugCircle`.
#[derive(Clone, Copy, Debug, PartialEq, Eq, Structural)]
pub struct SRemoveDebugCircle {
    pub debug_id: i32,
}

impl SRemoveDebugCircle {
    pub open spec fn wire(self) -> Seq<u8> {
        wire_i32(self.debug_id)
    }

    pub open spec fn parse(s: Seq<u8>, i: int) -> Option<(Self, int)> {
        match parse_i32(s, i) {
            Some((v0, j0)) =>
            Some((SRemoveDebugCircle { debug_id: v0 }, j0)),
            None => None,
        }
    }

    /// Parsing an encoded record restores it.
    pub proof fn lemma_parse_wire(self, s: Seq<u8>, pre: Seq<u8>, post: Seq<u8>)
        requires
            s == pre + self.wire() + post,
        ensures
            Self::parse(s, pre.len() as int) == Some((self, (pre.len() + self.wire().len()) as int)),
    {
        vstd::bytes::lemma_auto_spec_u16_to_from_le_bytes();
        vstd::bytes::lemma_auto_spec_u32_to_from_le_bytes();
        vstd::bytes::lemma_auto_spec_u64_to_from_le_bytes();
        let w0 = wire_i32(self.debug_id);
        let rest0 = post;
        assert(s =~= pre + w0 + rest0);
        lemma_parse_wire_i32(s, pre, self.debug_id, rest0);
    }

    pub fn encode(&self, out: &mut Vec<u8>)
        ensures
            final(out)@ == old(out)@ + self.wire(),
    {
        let ghost base = out@;
        put_i32(out, self.debug_id);
        assert(out@ =~= base + self.wire());
    }

    pub fn decode(s: &[u8], i: usize) -> (r: Option<(Self, usize)>)
        ensures
            parsed(Self::parse(s@, i as int), r),
    {
        let slen = s.len();
        assert(s@.len() == slen);
        match take_i32(s, i) {
            Some((v0, j0)) =>
            Some((SRemoveDebugCircle { debug_id: v0 }, j0)),
            None => None,
        }
    }

    /// The full game frame carrying this packet.
    pub fn to_bytes(&self, sender_net_id: u32) -> (r: Vec<u8>)
        ensures
            r@ == game_frame(0x5B, sender_net_id, self.wire()),
    {
        let mut payload: Vec<u8> = Vec::new();
        self.encode(&mut payload);
        game_frame_bytes(0x5B, sender_net_id, &payload)
    }
}

/// Wire record `SCreateUnitHighlight`.
#[derive(Clone, Copy, Debug, PartialEq, Eq, Structural)]
pub struct SCreateUnitHighlight {
    pub unit_net_id: u32,
}

impl SCreateUnitHighlight {
    pub open spec fn wire(self) -> Seq<u8> {
        wire_u32(self.unit_net_id)
    }

    pub open spec fn parse(s: Seq<u8>, i: int) -> Option<(Self, int)> {
        match parse_u32(s, i) {
            Some((v0, j0)) =>
            Some((SCreateUnitHighlight { unit_net_id: v0 }, j0)),
            None => None,
        }
    }

    /// Parsing an encoded record restores it.
    pub proof fn lemma_parse_wire(self, s: Seq<u8>, pre: Seq<u8>, post: Seq<u8>)
        requires
            s == pre + self.wire() + post,
        ensures
            Self::parse(s, pre.len() as int) == Some((self, (pre.len() + self.wire().len()) as int)),
    {
        vstd::bytes::lemma_auto_spec_u16_to_from_le_bytes();
        vstd::bytes::lemma_auto_spec_u32_to_from_le_bytes();
        vstd::bytes::lemma_auto_spec_u64_to_from_le_bytes();
        let w0 = wire_u32(self.unit_net_id);
        let rest0 = post;
        assert(s =~= pre + w0 + rest0);
        lemma_parse_wire_u32(s, pre, self.unit_net_id, rest0);
    }

    pub fn encode(&self, out: &mut Vec<u8>)
        ensures
            final(out)@ == old(out)@ + self.wire(),
    {
        let ghost base = out@;
        put_u32(out, self.unit_net_id);
        assert(out@ =~= base + self.wire());
    }

    pub fn decode(s: &[u8], i: usize) -> (r: Option<(Self, usize)>)
        ensures
            parsed(Self::parse(s@, i as int), r),
    {
        let slen = s.len();
        assert(s@.len() == slen);
        match take_u32(s, i) {
            Some((v0, j0)) =>
            Some((SCreateUnitHighlight { unit_net_id: v0 }, j0)),
            None => None,
        }
    }

    /// The full game frame carrying this packet.
    pub fn to_bytes(&self, sender_net_id: u32) -> (r: Vec<u8>)
        ensures
            r@ == game_frame(0x5C, sender_net_id, self.wire()),
    {
        let mut payload: Vec<u8> = Vec::new();
        self.encode(&mut payload);
        game_frame_bytes(0x5C, sender_net_id, &payload)
    }
}

/// Wire record `SDestroyClientMissile`.
#[derive(Clone, Copy, Debug, PartialEq, Eq, Structural)]
pub struct SDestroyClientMissile {
}

impl SDestroyClientMissile {
    pub open spec fn wire(self) -> Seq<u8> {
        Seq::empty()
    }

    pub open spec fn parse(s: Seq<u8>, i: int) -> Option<(Self, int)> {
        if 0 <= i <= s.len() {
            Some((SDestroyClientMissile {  }, i))
        } else {
            None
        }
    }

    /// Parsing an encoded record restores it.
    pub proof fn lemma_parse_wire(self, s: Seq<u8>, pre: Seq<u8>, post: Seq<u8>)
        requires
            s == pre + self.wire() + post,
        ensures
            Self::parse(s, pre.len() as int) == Some((self, (pre.len() + self.wire().len()) as int)),
    {
        vstd::bytes::lemma_auto_spec_u16_to_from_le_bytes();
        vstd::bytes::lemma_auto_spec_u32_to_from_le_bytes();
        vstd::bytes::lemma_auto_spec_u64_to_from_le_bytes();
    }

    pub fn encode(&self, out: &mut Vec<u8>)
        ensures
            final(out)@ == old(out)@ + self.wire(),
    {
        let ghost base = out@;
        assert(out@ =~= base + self.wire());
    }

    pub fn decode(s: &[u8], i: usize) -> (r: Option<(Self, usize)>)
        ensures
            parsed(Self::parse(s@, i as int), r),
    {
        let slen = s.len();
        assert(s@.len() == slen);
        if i <= slen {
            Some((SDestroyClientMissile {  }, i))
        } else {
            None
        }
    }

    /// The full game frame carrying this packet.
    pub fn to_bytes(&self, sender_net_id: u32) -> (r: Vec<u8>)
        ensures
            r@ == game_frame(0x5D, sender_net_id, self.wire()),
    {
        let mut payload: Vec<u8> = Vec::new();
        self.encode(&mut payload);
        game_frame_bytes(0x5D, sender_net_id, &payload)
    }
}

/// Wire record `SLevelUpSpell`.
#[derive(Clone, Copy, Debug, PartialEq, Eq, Structural)]
pub struct SLevelUpSpell {
    pub spell_slot: u32,
}

impl SLevelUpSpell {
    pub open spec fn wire(self) -> Seq<u8> {
        wire_u32(self.spell_slot)
    }

    pub open spec fn parse(s: Seq<u8>, i: int) -> Option<(Self, int)> {
        match parse_u32(s, i) {
            Some((v0, j0)) =>
            Some((SLevelUpSpell { spell_slot: v0 }, j0)),
            None => None,
        }
    }

    /// Parsing an encoded record restores it.
    pub proof fn lemma_parse_wire(self, s: Seq<u8>, pre: Seq<u8>, post: Seq<u8>)
        requires
            s == pre + self.wire() + post,
        ensures
            Self::parse(s, pre.len() as int) == Some((self, (pre.len() + self.wire().len()) as int)),
    {
        vstd::bytes::lemma_auto_spec_u16_to_from_le_bytes();
        vstd::bytes::lemma_auto_spec_u32_to_from_le_bytes();
        vstd::bytes::lemma_auto_spec_u64_to_from_le_bytes();
        let w0 = wire_u32(self.spell_slot);
        let rest0 = post;
        assert(s =~= pre + w0 + rest0);
        lemma_parse_wire_u32(s, pre, self.spell_slot, rest0);
    }

    pub fn encode(&self, out: &mut Vec<u8>)
        ensures
            final(out)@ == old(out)@ + self.wire(),
    {
        let ghost base = out@;
        put_u32(out, self.spell_slot);
        assert(out@ =~= base + self.wire());
    }

    pub fn decode(s: &[u8], i: usize) -> (r: Option<(Self, usize)>)
        ensures
            parsed(Self::parse(s@, i as int), r),
    {
        let slen = s.len();
        assert(s@.len() == slen);
        match take_u32(s, i) {
            Some((v0, j0)) =>
            Some((SLevelUpSpell { spell_slot: v0 }, j0)),
            None => None,
        }
    }

    /// The full game frame carrying this packet.
    pub fn to_bytes(&self, sender_net_id: u32) -> (r: Vec<u8>)
        ensures
            r@ == game_frame(0x5E, sender_net_id, self.wire()),
    {
        let mut payload: Vec<u8> = Vec::new();
        self.encode(&mut payload);
        game_frame_bytes(0x5E, sender_net_id, &payload)
    }
}

/// Wire record `SUserMessageStart`.
#[derive(Clone, Copy, Debug, PartialEq, Eq, Structural)]
pub struct SUserMessageStart {
}

impl SUserMessageStart {
    pub open spec fn wire(self) -> Seq<u8> {
        Seq::empty()
    }

    pub open spec fn parse(s: Seq<u8>, i: int) -> Option<(Self, int)> {
        if 0 <= i <= s.len() {
            Some((SUserMessageStart {  }, i))
        } else {
            None
        }
    }

    /// Parsing an encoded record restores it.
    pub proof fn lemma_parse_wire(self, s: Seq<u8>, pre: Seq<u8>, post: Seq<u8>)
        requires
            s == pre + self.wire() + post,
        ensures
            Self::parse(s, pre.len() as int) == Some((self, (pre.len() + self.wire().len()) as int)),
    {
        vstd::bytes::lemma_auto_spec_u16_to_from_le_bytes();
        vstd::bytes::lemma_auto_spec_u32_to_from_le_bytes();
        vstd::bytes::lemma_auto_spec_u64_to_from_le_bytes();
    }

    pub fn encode(&self, out: &mut Vec<u8>)
        ensures
            final(out)@ == old(out)@ + self.wire(),
    {
        let ghost base = out@;
        assert(out@ =~= base + self.wire());
    }

    pub fn decode(s: &[u8], i: usize) -> (r: Option<(Self, usize)>)
        ensures
            parsed(Self::parse(s@, i as int), r),
    {
        let slen = s.len();
        assert(s@.len() == slen);
        if i <= slen {
            Some((SUserMessageStart {  }, i))
        } else {
            None
        }
    }

    /// The full game frame carrying this packet.
    pub fn to_bytes(&self, sender_net_id: u32) -> (r: Vec<u8>)
        ensures
            r@ == game_frame(0x63, sender_net_id, self.wire()),
    {
        let mut payload: Vec<u8> = Vec::new();
        self.encode(&mut payload);
        game_frame_bytes(0x63, sender_net_id, &payload)
    }
}

/// Wire record `SPopCharacterData`.
#[derive(Clone, Copy, Debug, PartialEq, Eq, Structural)]
pub struct SPopCharacterData {
    pub pop_id: u32,
}

impl SPopCharacterData {
    pub open spec fn wire(self) -> Seq<u8> {
        wire_u32(self.pop_id)
    }

    pub open spec fn parse(s: Seq<u8>, i: int) -> Option<(Self, int)> {
        match parse_u32(s, i) {
            Some((v0, j0)) =>
            Some((SPopCharacterData { pop_id: v0 }, j0)),
            None => None,
        }
    }

    /// Parsing an encoded record restores it.
    pub proof fn lemma_parse_wire(self, s: Seq<u8>, pre: Seq<u8>, post: Seq<u8>)
        requires
            s == pre + self.wire() + post,
        ensures
            Self::parse(s, pre.len() as int) == Some((self, (pre.len() + self.wire().len()) as int)),
    {
        vstd::bytes::lemma_auto_spec_u16_to_from_le_bytes();
        vstd::bytes::lemma_auto_spec_u32_to_from_le_bytes();
        vstd::bytes::lemma_auto_spec_u64_to_from_le_bytes();
        let w0 = wire_u32(self.pop_id);
        let rest0 = post;
        assert(s =~= pre + w0 + rest0);
        lemma_parse_wire_u32(s, pre, self.pop_id, rest0);
    }

    pub fn encode(&self, out: &mut Vec<u8>)
        ensures
            final(out)@ == old(out)@ + self.wire(),
    {
        let ghost base = out@;
        put_u32(out, self.pop_id);
        assert(out@ =~= base + self.wire());
    }

    pub fn decode(s: &[u8], i: usize) -> (r: Option<(Self, usize)>)
        ensures
            parsed(Self::parse(s@, i as int), r),
    {
        let slen = s.len();
        assert(s@.len() == slen);
        match take_u32(s, i) {
            Some((v0, j0)) =>
            Some((SPopCharacterData { pop_id: v0 }, j0)),
            None => None,
        }
    }

    /// The full game frame carrying this packet.
    pub fn to_bytes(&self, sender_net_id: u32) -> (r: Vec<u8>)
        ensures
            r@ == game_frame(0x6A, sender_net_id, self.wire()),
    {
        let mut payload: Vec<u8> = Vec::new();
        self.encode(&mut payload);
        game_frame_bytes(0x6A, sender_net_id, &payload)
    }
}

/// Wire record `SAiTarget`.
#[derive(Clone, Copy, Debug, PartialEq, Eq, Structural)]
pub struct SAiTarget {
    pub target_net_id: u32,
}

impl SAiTarget {
    pub open spec fn wire(self) -> Seq<u8> {
        wire_u32(self.target_net_id)
    }

    pub open spec fn parse(s: Seq<u8>, i: int) -> Option<(Self, int)> {
        match parse_u32(s, i) {
            Some((v0, j0)) =>
            Some((SAiTarget { target_net_id: v0 }, j0)),
            None => None,
        }
    }

    /// Parsing an encoded record restores it.
    pub proof fn lemma_parse_wire(self, s: Seq<u8>, pre: Seq<u8>, post: Seq<u8>)
        requires
            s == pre + self.wire() + post,
        ensures
            Self::parse(s, pre.len() as int) == Some((self, (pre.len() + self.wire().len()) as int)),
    {
        vstd::bytes::lemma_auto_spec_u16_to_from_le_bytes();
        vstd::bytes::lemma_auto_spec_u32_to_from_le_bytes();
        vstd::bytes::lemma_auto_spec_u64_to_from_le_bytes();
        let w0 = wire_u32(self.target_net_id);
        let rest0 = post;
        assert(s =~= pre + w0 + rest0);
        lemma_parse_wire_u32(s, pre, self.target_net_id, rest0);
    }

    pub fn encode(&self, out: &mut Vec<u8>)
        ensures
            final(out)@ == old(out)@ + self.wire(),
    {
        let ghost base = out@;
        put_u32(out, self.target_net_id);
        assert(out@ =~= base + self.wire());
    }

    pub fn decode(s: &[u8], i: usize) -> (r: Option<(Self, usize)>)
        ensures
            parsed(Self::parse(s@, i as int), r),
    {
        let slen = s.len();
        assert(s@.len() == slen);
        match take_u32(s, i) {
            Some((v0, j0)) =>
            Some((SAiTarget { target_net_id: v0 }, j0)),
            None => None,
        }
    }

    /// The full game frame carrying this packet.
    pub fn to_bytes(&self, sender_net_id: u32) -> (r: Vec<u8>)
        ensures
            r@ == game_frame(0x6D, sender_net_id, self.wire()),
    {
        let mut payload: Vec<u8> = Vec::new();
        self.encode(&mut payload);
        game_frame_bytes(0x6D, sender_net_id, &payload)
    }
}

/// Wire record `SMissileReplicationChainMissile`.
#[derive(Clone, Copy, Debug, PartialEq, Eq, Structural)]
pub struct SMissileReplicationChainMissile {
}

impl SMissileReplicationChainMissile {
    pub open spec fn wire(self) -> Seq<u8> {
        Seq::empty()
    }

    pub open spec fn parse(s: Seq<u8>, i: int) -> Option<(Self, int)> {
        if 0 <= i <= s.len() {
            Some((SMissileReplicationChainMissile {  }, i))
        } else {
            None
        }
    }

    /// Parsing an encoded record restores it.
    pub proof fn lemma_parse_wire(self, s: Seq<u8>, pre: Seq<u8>, post: Seq<u8>)
        requires
            s == pre + self.wire() + post,
        ensures
            Self::parse(s, pre.len() as int) == Some((self, (pre.len() + self.wire().len()) as int)),
    {
        vstd::bytes::lemma_auto_spec_u16_to_from_le_bytes();
        vstd::bytes::lemma_auto_spec_u32_to_from_le_bytes();
        vstd::bytes::lemma_auto_spec_u64_to_from_le_bytes();
    }

    pub fn encode(&self, out: &mut Vec<u8>)
        ensures
            final(out)@ == old(out)@ + self.wire(),
    {
        let ghost base = out@;
        assert(out@ =~= base + self.wire());
    }

    pub fn decode(s: &[u8], i: usize) -> (r: Option<(Self, usize)>)
        ensures
            parsed(Self::parse(s@, i as int), r),
    {
        let slen = s.len();
        assert(s@.len() == slen);
        if i <= slen {
            Some((SMissileReplicationChainMissile {  }, i))
        } else {
            None
        }
    }

    /// The full game frame carrying this packet.
    pub fn to_bytes(&self, sender_net_id: u32) -> (r: Vec<u8>)
        ensures
            r@ == game_frame(0x71, sender_net_id, self.wire()),
    {
        let mut payload: Vec<u8> = Vec::new();
        self.encode(&mut payload);
        game_frame_bytes(0x71, sender_net_id, &payload)
    }
}

/// Wire record `SSetSpellData`.
#[derive(Clone, Copy, Debug, PartialEq, Eq, Structural)]
pub struct SSetSpellData {
    pub unit_net_id: u32,
    pub spell_name_hash: u32,
    pub spell_slot: u8,
}

impl SSetSpellData {
    pub open spec fn wire(self) -> Seq<u8> {
        wire_u32(self.unit_net_id) + wire_u32(self.spell_name_hash) + wire_u8(self.spell_slot)
    }

    pub open spec fn parse(s: Seq<u8>, i: int) -> Option<(Self, int)> {
        match parse_u32(s, i) {
            Some((v0, j0)) =>
            match parse_u32(s, j0) {
                Some((v1, j1)) =>
                match parse_u8(s, j1) {
                    Some((v2, j2)) =>
                    Some((SSetSpellData { unit_net_id: v0, spell_name_hash: v1, spell_slot: v2 }, j2)),
                    None => None,
                },
                None => None,
            },
            None => None,
        }
    }

    /// Parsing an encoded record restores it.
    pub proof fn lemma_parse_wire(self, s: Seq<u8>, pre: Seq<u8>, post: Seq<u8>)
        requires
            s == pre + self.wire() + post,
        ensures
            Self::parse(s, pre.len() as int) == Some((self, (pre.len() + self.wire().len()) as int)),
    {
        vstd::bytes::lemma_auto_spec_u16_to_from_le_bytes();
        vstd::bytes::lemma_auto_spec_u32_to_from_le_bytes();
        vstd::bytes::lemma_auto_spec_u64_to_from_le_bytes();
        let w0 = wire_u32(self.unit_net_id);
        let w1 = wire_u32(self.spell_name_hash);
        let w2 = wire_u8(self.spell_slot);
        let rest2 = post;
        let rest1 = w2 + rest2;
        let rest0 = w1 + rest1;
        assert(s =~= pre + w0 + rest0);
        lemma_parse_wire_u32(s, pre, self.unit_net_id, rest0);
        let pre1 = pre + w0;
        assert(s =~= pre1 + w1 + rest1);
        lemma_parse_wire_u32(s, pre1, self.spell_name_hash, rest1);
        let pre2 = pre1 + w1;
        assert(s =~= pre2 + w2 + rest2);
        lemma_parse_wire_u8(s, pre2, self.spell_slot, rest2);
    }

    pub fn encode(&self, out: &mut Vec<u8>)
        ensures
            final(out)@ == old(out)@ + self.wire(),
    {
        let ghost base = out@;
        put_u32(out, self.unit_net_id);
        put_u32(out, self.spell_name_hash);
        put_u8(out, self.spell_slot);
        assert(out@ =~= base + self.wire());
    }

    pub fn decode(s: &[u8], i: usize) -> (r: Option<(Self, usize)>)
        ensures
            parsed(Self::parse(s@, i as int), r),
    {
        let slen = s.len();
        assert(s@.len() == slen);
        match take_u32(s, i) {
            Some((v0, j0)) =>
            match take_u32(s, j0) {
                Some((v1, j1)) =>
                match take_u8(s, j1) {
                    Some((v2, j2)) =>
                    Some((SSetSpellData { unit_net_id: v0, spell_name_hash: v1, spell_slot: v2 }, j2)),
                    None => None,
                },
                None => None,
            },
            None => None,
        }
    }

    /// The full game frame carrying this packet.
    pub fn to_bytes(&self, sender_net_id: u32) -> (r: Vec<u8>)
        ensures
            r@ == game_frame(0x73, sender_net_id, self.wire()),
    {
        let mut payload: Vec<u8> = Vec::new();
        self.encode(&mut payload);
        game_frame_bytes(0x73, sender_net_id, &payload)
    }
}

/// Wire record `SPauseAnimation`.
#[derive(Clone, Copy, Debug, PartialEq, Eq, Structural)]
pub struct SPauseAnimation {
    pub pause: bool,
}

impl SPauseAnimation {
    pub open spec fn wire(self) -> Seq<u8> {
        wire_bool(self.pause)
    }

    pub open spec fn parse(s: Seq<u8>, i: int) -> Option<(Self, int)> {
        match parse_bool(s, i) {
            Some((v0, j0)) =>
            Some((SPauseAnimation { pause: v0 }, j0)),
            None => None,
        }
    }

    /// Parsing an encoded record restores it.
    pub proof fn lemma_parse_wire(self, s: Seq<u8>, pre: Seq<u8>, post: Seq<u8>)
        requires
            s == pre + self.wire() + post,
        ensures
            Self::parse(s, pre.len() as int) == Some((self, (pre.len() + self.wire().len()) as int)),
    {
        vstd::bytes::lemma_auto_spec_u16_to_from_le_bytes();
        vstd::bytes::lemma_auto_spec_u32_to_from_le_bytes();
        vstd::bytes::lemma_auto_spec_u64_to_from_le_bytes();
        let w0 = wire_bool(self.pause);
        let rest0 = post;
        assert(s =~= pre + w0 + rest0);
        lemma_parse_wire_bool(s, pre, self.pause, rest0);
    }

    pub fn encode(&self, out: &mut Vec<u8>)
        ensures
            final(out)@ == old(out)@ + self.wire(),
    {
        let ghost base = out@;
        put_bool(out, self.pause);
        assert(out@ =~= base + self.wire());
    }

    pub fn decode(s: &[u8], i: usize) -> (r: Option<(Self, usize)>)
        ensures
            parsed(Self::parse(s@, i as int), r),
    {
        let slen = s.len();
        assert(s@.len() == slen);
        match take_bool(s, i) {
            Some((v0, j0)) =>
            Some((SPauseAnimation { pause: v0 }, j0)),
            None => None,
        }
    }

    /// The full game frame carrying this packet.
    pub fn to_bytes(&self, sender_net_id: u32) -> (r: Vec<u8>)
        ensures
            r@ == game_frame(0x74, sender_net_id, self.wire()),
    {
        let mut payload: Vec<u8> = Vec::new();
        self.encode(&mut payload);
        game_frame_bytes(0x74, sender_net_id, &payload)
    }
}

/// Wire record `SAnimatedBuildingSetCurrentSkin`.
#[derive(Clone, Copy, Debug, PartialEq, Eq, Structural)]
pub struct SAnimatedBuildingSetCurrentSkin {
    pub team_id: u8,
    pub skin_id: u32,
}

impl SAnimatedBuildingSetCurrentSkin {
    pub open spec fn wire(self) -> Seq<u8> {
        wire_u8(self.team_id) + wire_u32(self.skin_id)
    }

    pub open spec fn parse(s: Seq<u8>, i: int) -> Option<(Self, int)> {
        match parse_u8(s, i) {
            Some((v0, j0)) =>
            match parse_u32(s, j0) {
                Some((v1, j1)) =>
                Some((SAnimatedBuildingSetCurrentSkin { team_id: v0, skin_id: v1 }, j1)),
                None => None,
            },
            None => None,
        }
    }

    /// Parsing an encoded record restores it.
    pub proof fn lemma_parse_wire(self, s: Seq<u8>, pre: Seq<u8>, post: Seq<u8>)
        requires
            s == pre + self.wire() + post,
        ensures
            Self::parse(s, pre.len() as int) == Some((self, (pre.len() + self.wire().len()) as int)),
    {
        vstd::bytes::lemma_auto_spec_u16_to_from_le_bytes();
        vstd::bytes::lemma_auto_spec_u32_to_from_le_bytes();
        vstd::bytes::lemma_auto_spec_u64_to_from_le_bytes();
        let w0 = wire_u8(self.team_id);
        let w1 = wire_u32(self.skin_id);
        let rest1 = post;
        let rest0 = w1 + rest1;
        assert(s =~= pre + w0 + rest0);
        lemma_parse_wire_u8(s, pre, self.team_id, rest0);
        let pre1 = pre + w0;
        assert(s =~= pre1 + w1 + rest1);
        lemma_parse_wire_u32(s, pre1, self.skin_id, rest1);
    }

    pub fn encode(&self, out: &mut Vec<u8>)
        ensures
            final(out)@ == old(out)@ + self.wire(),
    {
        let ghost base = out@;
        put_u8(out, self.team_id);
        put_u32(out, self.skin_id);
        assert(out@ =~= base + self.wire());
    }

    pub fn decode(s: &[u8], i: usize) -> (r: Option<(Self, usize)>)
        ensures
            parsed(Self::parse(s@, i as int), r),
    {
        let slen = s.len();
        assert(s@.len() == slen);
        match take_u8(s, i) {
            Some((v0, j0)) =>
            match take_u32(s, j0) {
                Some((v1, j1)) =>
                Some((SAnimatedBuildingSetCurrentSkin { team_id: v0, skin_id: v1 }, j1)),
                None => None,
            },
            None => None,
        }
    }

    /// The full game frame carrying this packet.
    pub fn to_bytes(&self, sender_net_id: u32) -> (r: Vec<u8>)
        ensures
            r@ == game_frame(0x77, sender_net_id, self.wire()),
    {
        let mut payload: Vec<u8> = Vec::new();
        self.encode(&mut payload);
        game_frame_bytes(0x77, sender_net_id, &payload)
    }
}

/// Wire record `SConnected`.
#[derive(Clone, Copy, Debug, PartialEq, Eq, Structural)]
pub struct SConnected {
    pub client_id: u32,
}

impl SConnected {
    pub open spec fn wire(self) -> Seq<u8> {
        wire_u32(self.client_id)
    }

    pub open spec fn parse(s: Seq<u8>, i: int) -> Option<(Self, int)> {
        match parse_u32(s, i) {
            Some((v0, j0)) =>
            Some((SConnected { client_id: v0 }, j0)),
            None => None,
        }
    }

    /// Parsing an encoded record restores it.
    pub proof fn lemma_parse_wire(self, s: Seq<u8>, pre: Seq<u8>, post: Seq<u8>)
        requires
            s == pre + self.wire() + post,
        ensures
            Self::parse(s, pre.len() as int) == Some((self, (pre.len() + self.wire().len()) as int)),
    {
        vstd::bytes::lemma_auto_spec_u16_to_from_le_bytes();
        vstd::bytes::lemma_auto_spec_u32_to_from_le_bytes();
        vstd::bytes::lemma_auto_spec_u64_to_from_le_bytes();
        let w0 = wire_u32(self.client_id);
        let rest0 = post;
        assert(s =~= pre + w0 + rest0);
        lemma_parse_wire_u32(s, pre, self.client_id, rest0);
    }

    pub fn encode(&self, out: &mut Vec<u8>)
        ensures
            final(out)@ == old(out)@ + self.wire(),
    {
        let ghost base = out@;
        put_u32(out, self.client_id);
        assert(out@ =~= base + self.wire());
    }

    pub fn decode(s: &[u8], i: usize) -> (r: Option<(Self, usize)>)
        ensures
            parsed(Self::parse(s@, i as int), r),
    {
        let slen = s.len();
        assert(s@.len() == slen);
        match take_u32(s, i) {
            Some((v0, j0)) =>
            Some((SConnected { client_id: v0 }, j0)),
            None => None,
        }
    }

    /// The full game frame carrying this packet.
    pub fn to_bytes(&self, sender_net_id: u32) -> (r: Vec<u8>)
        ensures
            r@ == game_frame(0x78, sender_net_id, self.wire()),
    {
        let mut payload: Vec<u8> = Vec::new();
        self.encode(&mut payload);
        game_frame_bytes(0x78, sender_net_id, &payload)
    }
}

/// Wire record `SWaypointAcc`.
#[derive(Clone, Copy, Debug, PartialEq, Eq, Structural)]
pub struct SWaypointAcc {
    pub sync_id: i32,
    pub teleport_count: u8,
}

impl SWaypointAcc {
    pub open spec fn wire(self) -> Seq<u8> {
        wire_i32(self.sync_id) + wire_u8(self.teleport_count)
    }

    pub open spec fn parse(s: Seq<u8>, i: int) -> Option<(Self, int)> {
        match parse_i32(s, i) {
            Some((v0, j0)) =>
            match parse_u8(s, j0) {
                Some((v1, j1)) =>
                Some((SWaypointAcc { sync_id: v0, teleport_count: v1 }, j1)),
                None => None,
            },
            None => None,
        }
    }

    /// Parsing an encoded record restores it.
    pub proof fn lemma_parse_wire(self, s: Seq<u8>, pre: Seq<u8>, post: Seq<u8>)
        requires
            s == pre + self.wire() + post,
        ensures
            Self::parse(s, pre.len() as int) == Some((self, (pre.len() + self.wire().len()) as int)),
    {
        vstd::bytes::lemma_auto_spec_u16_to_from_le_bytes();
        vstd::bytes::lemma_auto_spec_u32_to_from_le_bytes();
        vstd::bytes::lemma_auto_spec_u64_to_from_le_bytes();
        let w0 = wire_i32(self.sync_id);
        let w1 = wire_u8(self.teleport_count);
        let rest1 = post;
        let rest0 = w1 + rest1;
        assert(s =~= pre + w0 + rest0);
        lemma_parse_wire_i32(s, pre, self.sync_id, rest0);
        let pre1 = pre + w0;
        assert(s =~= pre1 + w1 + rest1);
        lemma_parse_wire_u8(s, pre1, self.teleport_count, rest1);
    }

    pub fn encode(&self, out: &mut Vec<u8>)
        ensures
            final(out)@ == old(out)@ + self.wire(),
    {
        let ghost base = out@;
        put_i32(out, self.sync_id);
        put_u8(out, self.teleport_count);
        assert(out@ =~= base + self.wire());
    }

    pub fn decode(s: &[u8], i: usize) -> (r: Option<(Self, usize)>)
        ensures
            parsed(Self::parse(s@, i as int), r),
    {
        let slen = s.len();
        assert(s@.len() == slen);
        match take_i32(s, i) {
            Some((v0, j0)) =>
            match take_u8(s, j0) {
                Some((v1, j1)) =>
                Some((SWaypointAcc { sync_id: v0, teleport_count: v1 }, j1)),
                None => None,
            },
            None => None,
        }
    }

    /// The full game frame carrying this packet.
    pub fn to_bytes(&self, sender_net_id: u32) -> (r: Vec<u8>)
        ensures
            r@ == game_frame(0x7A, sender_net_id, self.wire()),
    {
        let mut payload: Vec<u8> = Vec::new();
        self.encode(&mut payload);
        game_frame_bytes(0x7A, sender_net_id, &payload)
    }
}

/// Wire record `SLockCamera`.
#[derive(Clone, Copy, Debug, PartialEq, Eq, Structural)]
pub struct SLockCamera {
    pub lock: bool,
}

impl SLockCamera {
    pub open spec fn wire(self) -> Seq<u8> {
        wire_bool(self.lock)
    }

    pub open spec fn parse(s: Seq<u8>, i: int) -> Option<(Self, int)> {
        match parse_bool(s, i) {
            Some((v0, j0)) =>
            Some((SLockCamera { lock: v0 }, j0)),
            None => None,
        }
    }

    /// Parsing an encoded record restores it.
    pub proof fn lemma_parse_wire(self, s: Seq<u8>, pre: Seq<u8>, post: Seq<u8>)
        requires
            s == pre + self.wire() + post,
        ensures
            Self::parse(s, pre.len() as int) == Some((self, (pre.len() + self.wire().len()) as int)),
    {
        vstd::bytes::lemma_auto_spec_u16_to_from_le_bytes();
        vstd::bytes::lemma_auto_spec_u32_to_from_le_bytes();
        vstd::bytes::lemma_auto_spec_u64_to_from_le_bytes();
        let w0 = wire_bool(self.lock);
        let rest0 = post;
        assert(s =~= pre + w0 + rest0);
        lemma_parse_wire_bool(s, pre, self.lock, rest0);
    }

    pub fn encode(&self, out: &mut Vec<u8>)
        ensures
            final(out)@ == old(out)@ + self.wire(),
    {
        let ghost base = out@;
        put_bool(out, self.lock);
        assert(out@ =~= base + self.wire());
    }

    pub fn decode(s: &[u8], i: usize) -> (r: Option<(Self, usize)>)
        ensures
            parsed(Self::parse(s@, i as int), r),
    {
        let slen = s.len();
        assert(s@.len() == slen);
        match take_bool(s, i) {
            Some((v0, j0)) =>
            Some((SLockCamera { lock: v0 }, j0)),
            None => None,
        }
    }

    /// The full game frame carrying this packet.
    pub fn to_bytes(&self, sender_net_id: u32) -> (r: Vec<u8>)
        ensures
            r@ == game_frame(0x7C, sender_net_id, self.wire()),
    {
        let mut payload: Vec<u8> = Vec::new();
        self.encode(&mut payload);
        game_frame_bytes(0x7C, sender_net_id, &payload)
    }
}

/// Wire record `SNpcBuffRemove`.
#[derive(Clone, Copy, Debug, PartialEq, Eq, Structural)]
pub struct SNpcBuffRemove {
    pub buff_slot: u8,
    pub buff_name_hash: u32,
}

impl SNpcBuffRemove {
    pub open spec fn wire(self) -> Seq<u8> {
        wire_u8(self.buff_slot) + wire_u32(self.buff_name_hash)
    }

    pub open spec fn parse(s: Seq<u8>, i: int) -> Option<(Self, int)> {
        match parse_u8(s, i) {
            Some((v0, j0)) =>
            match parse_u32(s, j0) {
                Some((v1, j1)) =>
                Some((SNpcBuffRemove { buff_slot: v0, buff_name_hash: v1 }, j1)),
                None => None,
            },
            None => None,
        }
    }

    /// Parsing an encoded record restores it.
    pub proof fn lemma_parse_wire(self, s: Seq<u8>, pre: Seq<u8>, post: Seq<u8>)
        requires
            s == pre + self.wire() + post,
        ensures
            Self::parse(s, pre.len() as int) == Some((self, (pre.len() + self.wire().len()) as int)),
    {
        vstd::bytes::lemma_auto_spec_u16_to_from_le_bytes();
        vstd::bytes::lemma_auto_spec_u32_to_from_le_bytes();
        vstd::bytes::lemma_auto_spec_u64_to_from_le_bytes();
        let w0 = wire_u8(self.buff_slot);
        let w1 = wire_u32(self.buff_name_hash);
        let rest1 = post;
        let rest0 = w1 + rest1;
        assert(s =~= pre + w0 + rest0);
        lemma_parse_wire_u8(s, pre, self.buff_slot, rest0);
        let pre1 = pre + w0;
        assert(s =~= pre1 + w1 + rest1);
        lemma_parse_wire_u32(s, pre1, self.buff_name_hash, rest1);
    }

    pub fn encode(&self, out: &mut Vec<u8>)
        ensures
            final(out)@ == old(out)@ + self.wire(),
    {
        let ghost base = out@;
        put_u8(out, self.buff_slot);
        put_u32(out, self.buff_name_hash);
        assert(out@ =~= base + self.wire());
    }

    pub fn decode(s: &[u8], i: usize) -> (r: Option<(Self, usize)>)
        ensures
            parsed(Self::parse(s@, i as int), r),
    {
        let slen = s.len();
        assert(s@.len() == slen);
        match take_u8(s, i) {
            Some((v0, j0)) =>
            match take_u32(s, j0) {
                Some((v1, j1)) =>
                Some((SNpcBuffRemove { buff_slot: v0, buff_name_hash: v1 }, j1)),
                None => None,
            },
            None => None,
        }
    }

    /// The full game frame carrying this packet.
    pub fn to_bytes(&self, sender_net_id: u32) -> (r: Vec<u8>)
        ensures
            r@ == game_frame(0x7F, sender_net_id, self.wire()),
    {
        let mut payload: Vec<u8> = Vec::new();
        self.encode(&mut payload);
        game_frame_bytes(0x7F, sender_net_id, &payload)
    }
}

/// Wire record `SToggleFoW`.
#[derive(Clone, Copy, Debug, PartialEq, Eq, Structural)]
pub struct SToggleFoW {
}

impl SToggleFoW {
    pub open spec fn wire(self) -> Seq<u8> {
        Seq::empty()
    }

    pub open spec fn parse(s: Seq<u8>, i: int) -> Option<(Self, int)> {
        if 0 <= i <= s.len() {
            Some((SToggleFoW {  }, i))
        } else {
            None
        }
    }

    /// Parsing an encoded record restores it.
    pub proof fn lemma_parse_wire(self, s: Seq<u8>, pre: Seq<u8>, post: Seq<u8>)
        requires
            s == pre + self.wire() + post,
        ensures
            Self::parse(s, pre.len() as int) == Some((self, (pre.len() + self.wire().len()) as int)),
    {
        vstd::bytes::lemma_auto_spec_u16_to_from_le_bytes();
        vstd::bytes::lemma_auto_spec_u32_to_from_le_bytes();
        vstd::bytes::lemma_auto_spec_u64_to_from_le_bytes();
    }

    pub fn encode(&self, out: &mut Vec<u8>)
        ensures
            final(out)@ == old(out)@ + self.wire(),
    {
        let ghost base = out@;
        assert(out@ =~= base + self.wire());
    }

    pub fn decode(s: &[u8], i: usize) -> (r: Option<(Self, usize)>)
        ensures
            parsed(Self::parse(s@, i as int), r),
    {
        let slen = s.len();
        assert(s@.len() == slen);
        if i <= slen {
            Some((SToggleFoW {  }, i))
        } else {
            None
        }
    }

    /// The full game frame carrying this packet.
    pub fn to_bytes(&self, sender_net_id: u32) -> (r: Vec<u8>)
        ensures
            r@ == game_frame(0x82, sender_net_id, self.wire()),
    {
        let mut payload: Vec<u8> = Vec::new();
        self.encode(&mut payload);
        game_frame_bytes(0x82, sender_net_id, &payload)
    }
}

/// Wire record `SGlobalCombatMessage`.
#[derive(Clone, Copy, Debug, PartialEq, Eq, Structural)]
pub struct SGlobalCombatMessage {
    pub message_type: u32,
    pub object_name_net_id: u32,
}

impl SGlobalCombatMessage {
    pub open spec fn wire(self) -> Seq<u8> {
        wire_u32(self.message_type) + wire_u32(self.object_name_net_id)
    }

    pub open spec fn parse(s: Seq<u8>, i: int) -> Option<(Self, int)> {
        match parse_u32(s, i) {
            Some((v0, j0)) =>
            match parse_u32(s, j0) {
                Some((v1, j1)) =>
                Some((SGlobalCombatMessage { message_type: v0, object_name_net_id: v1 }, j1)),
                None => None,
            },
            None => None,
        }
    }

    /// Parsing an encoded record restores it.
    pub proof fn lemma_parse_wire(self, s: Seq<u8>, pre: Seq<u8>, post: Seq<u8>)
        requires
            s == pre + self.wire() + post,
        ensures
            Self::parse(s, pre.len() as int) == Some((self, (pre.len() + self.wire().len()) as int)),
    {
        vstd::bytes::lemma_auto_spec_u16_to_from_le_bytes();
        vstd::bytes::lemma_auto_spec_u32_to_from_le_bytes();
        vstd::bytes::lemma_auto_spec_u64_to_from_le_bytes();
        let w0 = wire_u32(self.message_type);
        let w1 = wire_u32(self.object_name_net_id);
        let rest1 = post;
        let rest0 = w1 + rest1;
        assert(s =~= pre + w0 + rest0);
        lemma_parse_wire_u32(s, pre, self.message_type, rest0);
        let pre1 = pre + w0;
        assert(s =~= pre1 + w1 + rest1);
        lemma_parse_wire_u32(s, pre1, self.object_name_net_id, rest1);
    }

    pub fn encode(&self, out: &mut Vec<u8>)
        ensures
            final(out)@ == old(out)@ + self.wire(),
    {
        let ghost base = out@;
        put_u32(out, self.message_type);
        put_u32(out, self.object_name_net_id);
        assert(out@ =~= base + self.wire());
    }

    pub fn decode(s: &[u8], i: usize) -> (r: Option<(Self, usize)>)
        ensures
            parsed(Self::parse(s@, i as int), r),
    {
        let slen = s.len();
        assert(s@.len() == slen);
        match take_u32(s, i) {
            Some((v0, j0)) =>
            match take_u32(s, j0) {
                Some((v1, j1)) =>
                Some((SGlobalCombatMessage { message_type: v0, object_name_net_id: v1 }, j1)),
                None => None,
            },
            None => None,
        }
    }

    /// The full game frame carrying this packet.
    pub fn to_bytes(&self, sender_net_id: u32) -> (r: Vec<u8>)
        ensures
            r@ == game_frame(0x85, sender_net_id, self.wire()),
    {
        let mut payload: Vec<u8> = Vec::new();
        self.encode(&mut payload);
        game_frame_bytes(0x85, sender_net_id, &payload)
    }
}

/// Wire record `SWorldLockCameraServer`.
#[derive(Clone, Copy, Debug, PartialEq, Eq, Structural)]
pub struct SWorldLockCameraServer {
    pub locked: bool,
    pub client_id: u32,
}

impl SWorldLockCameraServer {
    pub open spec fn wire(self) -> Seq<u8> {
        wire_bool(self.locked) + wire_u32(self.client_id)
    }

    pub open spec fn parse(s: Seq<u8>, i: int) -> Option<(Self, int)> {
        match parse_bool(s, i) {
            Some((v0, j0)) =>
            match parse_u32(s, j0) {
                Some((v1, j1)) =>
                Some((SWorldLockCameraServer { locked: v0, client_id: v1 }, j1)),
                None => None,
            },
            None => None,
        }
    }

    /// Parsing an encoded record restores it.
    pub proof fn lemma_parse_wire(self, s: Seq<u8>, pre: Seq<u8>, post: Seq<u8>)
        requires
            s == pre + self.wire() + post,
        ensures
            Self::parse(s, pre.len() as int) == Some((self, (pre.len() + self.wire().len()) as int)),
    {
        vstd::bytes::lemma_auto_spec_u16_to_from_le_bytes();
        vstd::bytes::lemma_auto_spec_u32_to_from_le_bytes();
        vstd::bytes::lemma_auto_spec_u64_to_from_le_bytes();
        let w0 = wire_bool(self.locked);
        let w1 = wire_u32(self.client_id);
        let rest1 = post;
        let rest0 = w1 + rest1;
        assert(s =~= pre + w0 + rest0);
        lemma_parse_wire_bool(s, pre, self.locked, rest0);
        let pre1 = pre + w0;
        assert(s =~= pre1 + w1 + rest1);
        lemma_parse_wire_u32(s, pre1, self.client_id, rest1);
    }

    pub fn encode(&self, out: &mut Vec<u8>)
        ensures
            final(out)@ == old(out)@ + self.wire(),
    {
        let ghost base = out@;
        put_bool(out, self.locked);
        put_u32(out, self.client_id);
        assert(out@ =~= base + self.wire());
    }

    pub fn decode(s: &[u8], i: usize) -> (r: Option<(Self, usize)>)
        ensures
            parsed(Self::parse(s@, i as int), r),
    {
        let slen = s.len();
        assert(s@.len() == slen);
        match take_bool(s, i) {
            Some((v0, j0)) =>
            match take_u32(s, j0) {
                Some((v1, j1)) =>
                Some((SWorldLockCameraServer { locked: v0, client_id: v1 }, j1)),
                None => None,
            },
            None => None,
        }
    }

    /// The full game frame carrying this packet.
    pub fn to_bytes(&self, sender_net_id: u32) -> (r: Vec<u8>)
        ensures
            r@ == game_frame(0x86, sender_net_id, self.wire()),
    {
        let mut payload: Vec<u8> = Vec::new();
        self.encode(&mut payload);
        game_frame_bytes(0x86, sender_net_id, &payload)
    }
}

/// Wire record `SSetInputLockingFlag`.
#[derive(Clone, Copy, Debug, PartialEq, Eq, Structural)]
pub struct SSetInputLockingFlag {
    pub input_locking_flags: u32,
    pub value: bool,
}

impl SSetInputLockingFlag {
    pub open spec fn wire(self) -> Seq<u8> {
        wire_u32(self.input_locking_flags) + wire_bool(self.value)
    }

    pub open spec fn parse(s: Seq<u8>, i: int) -> Option<(Self, int)> {
        match parse_u32(s, i) {
            Some((v0, j0)) =>
            match parse_bool(s, j0) {
                Some((v1, j1)) =>
                Some((SSetInputLockingFlag { input_locking_flags: v0, value: v1 }, j1)),
                None => None,
            },
            None => None,
        }
    }

    /// Parsing an encoded record restores it.
    pub proof fn lemma_parse_wire(self, s: Seq<u8>, pre: Seq<u8>, post: Seq<u8>)
        requires
            s == pre + self.wire() + post,
        ensures
            Self::parse(s, pre.len() as int) == Some((self, (pre.len() + self.wire().len()) as int)),
    {
        vstd::bytes::lemma_auto_spec_u16_to_from_le_bytes();
        vstd::bytes::lemma_auto_spec_u32_to_from_le_bytes();
        vstd::bytes::lemma_auto_spec_u64_to_from_le_bytes();
        let w0 = wire_u32(self.input_locking_flags);
        let w1 = wire_bool(self.value);
        let rest1 = post;
        let rest0 = w1 + rest1;
        assert(s =~= pre + w0 + rest0);
        lemma_parse_wire_u32(s, pre, self.input_locking_flags, rest0);
        let pre1 = pre + w0;
        assert(s =~= pre1 + w1 + rest1);
        lemma_parse_wire_bool(s, pre1, self.value, rest1);
    }

    pub fn encode(&self, out: &mut Vec<u8>)
        ensures
            final(out)@ == old(out)@ + self.wire(),
    {
        let ghost base = out@;
        put_u32(out, self.input_locking_flags);
        put_bool(out, self.value);
        assert(out@ =~= base + self.wire());
    }

    pub fn decode(s: &[u8], i: usize) -> (r: Option<(Self, usize)>)
        ensures
            parsed(Self::parse(s@, i as int), r),
    {
        let slen = s.len();
        assert(s@.len() == slen);
        match take_u32(s, i) {
            Some((v0, j0)) =>
            match take_bool(s, j0) {
                Some((v1, j1)) =>
                Some((SSetInputLockingFlag { input_locking_flags: v0, value: v1 }, j1)),
                None => None,
            },
            None => None,
        }
    }

    /// The full game frame carrying this packet.
    pub fn to_bytes(&self, sender_net_id: u32) -> (r: Vec<u8>)
        ensures
            r@ == game_frame(0x89, sender_net_id, self.wire()),
    {
        let mut payload: Vec<u8> = Vec::new();
        self.encode(&mut payload);
        game_frame_bytes(0x89, sender_net_id, &payload)
    }
}

/// Wire record `SBuildingDie`.
#[derive(Clone, Copy, Debug, PartialEq, Eq, Structural)]
pub struct SBuildingDie {
    pub attacker_net_id: u32,
}

impl SBuildingDie {
    pub open spec fn wire(self) -> Seq<u8> {
        wire_u32(self.attacker_net_id)
    }

    pub open spec fn parse(s: Seq<u8>, i: int) -> Option<(Self, int)> {
        match parse_u32(s, i) {
            Some((v0, j0)) =>
            Some((SBuildingDie { attacker_net_id: v0 }, j0)),
            None => None,
        }
    }

    /// Parsing an encoded record restores it.
    pub proof fn lemma_parse_wire(self, s: Seq<u8>, pre: Seq<u8>, post: Seq<u8>)
        requires
            s == pre + self.wire() + post,
        ensures
            Self::parse(s, pre.len() as int) == Some((self, (pre.len() + self.wire().len()) as int)),
    {
        vstd::bytes::lemma_auto_spec_u16_to_from_le_bytes();
        vstd::bytes::lemma_auto_spec_u32_to_from_le_bytes();
        vstd::bytes::lemma_auto_spec_u64_to_from_le_bytes();
        let w0 = wire_u32(self.attacker_net_id);
        let rest0 = post;
        assert(s =~= pre + w0 + rest0);
        lemma_parse_wire_u32(s, pre, self.attacker_net_id, rest0);
    }

    pub fn encode(&self, out: &mut Vec<u8>)
        ensures
            final(out)@ == old(out)@ + self.wire(),
    {
        let ghost base = out@;
        put_u32(out, self.attacker_net_id);
        assert(out@ =~= base + self.wire());
    }

    pub fn decode(s: &[u8], i: usize) -> (r: Option<(Self, usize)>)
        ensures
            parsed(Self::parse(s@, i as int), r),
    {
        let slen = s.len();
        assert(s@.len() == slen);
        match take_u32(s, i) {
            Some((v0, j0)) =>
            Some((SBuildingDie { attacker_net_id: v0 }, j0)),
            None => None,
        }
    }

    /// The full game frame carrying this packet.
    pub fn to_bytes(&self, sender_net_id: u32) -> (r: Vec<u8>)
        ensures
            r@ == game_frame(0x8E, sender_net_id, self.wire()),
    {
        let mut payload: Vec<u8> = Vec::new();
        self.encode(&mut payload);
        game_frame_bytes(0x8E, sender_net_id, &payload)
    }
}

/// Wire record `SServerGameSettings`.
#[derive(Clone, Copy, Debug, PartialEq, Eq, Structural)]
pub struct SServerGameSettings {
    pub fow_local_culling: bool,
    pub for_broadcast_everything: bool,
}

impl SServerGameSettings {
    pub open spec fn wire(self) -> Seq<u8> {
        wire_bool(self.fow_local_culling) + wire_bool(self.for_broadcast_everything)
    }

    pub open spec fn parse(s: Seq<u8>, i: int) -> Option<(Self, int)> {
        match parse_bool(s, i) {
            Some((v0, j0)) =>
            match parse_bool(s, j0) {
                Some((v1, j1)) =>
                Some((SServerGameSettings { fow_local_culling: v0, for_broadcast_everything: v1 }, j1)),
                None => None,
            },
            None => None,
        }
    }

    /// Parsing an encoded record restores it.
    pub proof fn lemma_parse_wire(self, s: Seq<u8>, pre: Seq<u8>, post: Seq<u8>)
        requires
            s == pre + self.wire() + post,
        ensures
            Self::parse(s, pre.len() as int) == Some((self, (pre.len() + self.wire().len()) as int)),
    {
        vstd::bytes::lemma_auto_spec_u16_to_from_le_bytes();
        vstd::bytes::lemma_auto_spec_u32_to_from_le_bytes();
        vstd::bytes::lemma_auto_spec_u64_to_from_le_bytes();
        let w0 = wire_bool(self.fow_local_culling);
        let w1 = wire_bool(self.for_broadcast_everything);
        let rest1 = post;
        let rest0 = w1 + rest1;
        assert(s =~= pre + w0 + rest0);
        lemma_parse_wire_bool(s, pre, self.fow_local_culling, rest0);
        let pre1 = pre + w0;
        assert(s =~= pre1 + w1 + rest1);
        lemma_parse_wire_bool(s, pre1, self.for_broadcast_everything, rest1);
    }

    pub fn encode(&self, out: &mut Vec<u8>)
        ensures
            final(out)@ == old(out)@ + self.wire(),
    {
        let ghost base = out@;
        put_bool(out, self.fow_local_culling);
        put_bool(out, self.for_broadcast_everything);
        assert(out@ =~= base + self.wire());
    }

    pub fn decode(s: &[u8], i: usize) -> (r: Option<(Self, usize)>)
        ensures
            parsed(Self::parse(s@, i as int), r),
    {
        let slen = s.len();
        assert(s@.len() == slen);
        match take_bool(s, i) {
            Some((v0, j0)) =>
            match take_bool(s, j0) {
                Some((v1, j1)) =>
                Some((SServerGameSettings { fow_local_culling: v0, for_broadcast_everything: v1 }, j1)),
                None => None,
            },
            None => None,
        }
    }

    /// The full game frame carrying this packet.
    pub fn to_bytes(&self, sender_net_id: u32) -> (r: Vec<u8>)
        ensures
            r@ == game_frame(0x95, sender_net_id, self.wire()),
    {
        let mut payload: Vec<u8> = Vec::new();
        self.encode(&mut payload);
        game_frame_bytes(0x95, sender_net_id, &payload)
    }
}

/// Wire record `SModifyDebugCircleColor`.
#[derive(Clone, Copy, Debug, PartialEq, Eq, Structural)]
pub struct SModifyDebugCircleColor {
    pub object_id: u32,
    pub color: Color,
}

impl SModifyDebugCircleColor {
    pub open spec fn wire(self) -> Seq<u8> {
        wire_u32(self.object_id) + self.color.wire()
    }

    pub open spec fn parse(s: Seq<u8>, i: int) -> Option<(Self, int)> {
        match parse_u32(s, i) {
            Some((v0, j0)) =>
            match Color::parse(s, j0) {
                Some((v1, j1)) =>
                Some((SModifyDebugCircleColor { object_id: v0, color: v1 }, j1)),
                None => None,
            },
            None => None,
        }
    }

    /// Parsing an encoded record restores it.
    pub proof fn lemma_parse_wire(self, s: Seq<u8>, pre: Seq<u8>, post: Seq<u8>)
        requires
            s == pre + self.wire() + post,
        ensures
            Self::parse(s, pre.len() as int) == Some((self, (pre.len() + self.wire().len()) as int)),
    {
        vstd::bytes::lemma_auto_spec_u16_to_from_le_bytes();
        vstd::bytes::lemma_auto_spec_u32_to_from_le_bytes();
        vstd::bytes::lemma_auto_spec_u64_to_from_le_bytes();
        let w0 = wire_u32(self.object_id);
        let w1 = self.color.wire();
        let rest1 = post;
        let rest0 = w1 + rest1;
        assert(s =~= pre + w0 + rest0);
        lemma_parse_wire_u32(s, pre, self.object_id, rest0);
        let pre1 = pre + w0;
        assert(s =~= pre1 + w1 + rest1);
        self.color.lemma_parse_wire(s, pre1, rest1);
    }

    pub fn encode(&self, out: &mut Vec<u8>)
        ensures
            final(out)@ == old(out)@ + self.wire(),
    {
        let ghost base = out@;
        put_u32(out, self.object_id);
        self.color.encode(out);
        assert(out@ =~= base + self.wire());
    }

    pub fn decode(s: &[u8], i: usize) -> (r: Option<(Self, usize)>)
        ensures
            parsed(Self::parse(s@, i as int), r),
    {
        let slen = s.len();
        assert(s@.len() == slen);
        match take_u32(s, i) {
            Some((v0, j0)) =>
            match Color::decode(s, j0) {
                Some((v1, j1)) =>
                Some((SModifyDebugCircleColor { object_id: v0, color: v1 }, j1)),
                None => None,
            },
            None => None,
        }
    }

    /// The full game frame carrying this packet.
    pub fn to_bytes(&self, sender_net_id: u32) -> (r: Vec<u8>)
        ensures
            r@ == game_frame(0x96, sender_net_id, self.wire()),
    {
        let mut payload: Vec<u8> = Vec::new();
        self.encode(&mut payload);
        game_frame_bytes(0x96, sender_net_id, &payload)
    }
}

/// Wire record `SChangeParColorOverride`.
#[derive(Clone, Copy, Debug, PartialEq, Eq, Structural)]
pub struct SChangeParColorOverride {
    pub unit_net_id: u32,
    pub enabled: bool,
    pub bar_color: Color,
    pub fade_color: Color,
}

impl SChangeParColorOverride {
    pub open spec fn wire(self) -> Seq<u8> {
        wire_u32(self.unit_net_id) + wire_bool(self.enabled) + self.bar_color.wire() + self.fade_color.wire()
    }

    pub open spec fn parse(s: Seq<u8>, i: int) -> Option<(Self, int)> {
        match parse_u32(s, i) {
            Some((v0, j0)) =>
            match parse_bool(s, j0) {
                Some((v1, j1)) =>
                match Color::parse(s, j1) {
                    Some((v2, j2)) =>
                    match Color::parse(s, j2) {
                        Some((v3, j3)) =>
                        Some((SChangeParColorOverride { unit_net_id: v0, enabled: v1, bar_color: v2, fade_color: v3 }, j3)),
                        None => None,
                    },
                    None => None,
                },
                None => None,
            },
            None => None,
        }
    }

    /// Parsing an encoded record restores it.
    pub proof fn lemma_parse_wire(self, s: Seq<u8>, pre: Seq<u8>, post: Seq<u8>)
        requires
            s == pre + self.wire() + post,
        ensures
            Self::parse(s, pre.len() as int) == Some((self, (pre.len() + self.wire().len()) as int)),
    {
        vstd::bytes::lemma_auto_spec_u16_to_from_le_bytes();
        vstd::bytes::lemma_auto_spec_u32_to_from_le_bytes();
        vstd::bytes::lemma_auto_spec_u64_to_from_le_bytes();
        let w0 = wire_u32(self.unit_net_id);
        let w1 = wire_bool(self.enabled);
        let w2 = self.bar_color.wire();
        let w3 = self.fade_color.wire();
        let rest3 = post;
        let rest2 = w3 + rest3;
        let rest1 = w2 + rest2;
        let rest0 = w1 + rest1;
        assert(s =~= pre + w0 + rest0);
        lemma_parse_wire_u32(s, pre, self.unit_net_id, rest0);
        let pre1 = pre + w0;
        assert(s =~= pre1 + w1 + rest1);
        lemma_parse_wire_bool(s, pre1, self.enabled, rest1);
        let pre2 = pre1 + w1;
        assert(s =~= pre2 + w2 + rest2);
        self.bar_color.lemma_parse_wire(s, pre2, rest2);
        let pre3 = pre2 + w2;
        assert(s =~= pre3 + w3 + rest3);
        self.fade_color.lemma_parse_wire(s, pre3, rest3);
    }

    pub fn encode(&self, out: &mut Vec<u8>)
        ensures
            final(out)@ == old(out)@ + self.wire(),
    {
        let ghost base = out@;
        put_u32(out, self.unit_net_id);
        put_bool(out, self.enabled);
        self.bar_color.encode(out);
        self.fade_color.encode(out);
        assert(out@ =~= base + self.wire());
    }

    pub fn decode(s: &[u8], i: usize) -> (r: Option<(Self, usize)>)
        ensures
            parsed(Self::parse(s@, i as int), r),
    {
        let slen = s.len();
        assert(s@.len() == slen);
        match take_u32(s, i) {
            Some((v0, j0)) =>
            match take_bool(s, j0) {
                Some((v1, j1)) =>
                match Color::decode(s, j1) {
                    Some((v2, j2)) =>
                    match Color::decode(s, j2) {
                        Some((v3, j3)) =>
                        Some((SChangeParColorOverride { unit_net_id: v0, enabled: v1, bar_color: v2, fade_color: v3 }, j3)),
                        None => None,
                    },
                    None => None,
                },
                None => None,
            },
            None => None,
        }
    }

    /// The full game frame carrying this packet.
    pub fn to_bytes(&self, sender_net_id: u32) -> (r: Vec<u8>)
        ensures
            r@ == game_frame(0x99, sender_net_id, self.wire()),
    {
        let mut payload: Vec<u8> = Vec::new();
        self.encode(&mut payload);
        game_frame_bytes(0x99, sender_net_id, &payload)
    }
}

/// Wire record `STurretFire`.
#[derive(Clone, Copy, Debug, PartialEq, Eq, Structural)]
pub struct STurretFire {
}

impl STurretFire {
    pub open spec fn wire(self) -> Seq<u8> {
        Seq::empty()
    }

    pub open spec fn parse(s: Seq<u8>, i: int) -> Option<(Self, int)> {
        if 0 <= i <= s.len() {
            Some((STurretFire {  }, i))
        } else {
            None
        }
    }

    /// Parsing an encoded record restores it.
    pub proof fn lemma_parse_wire(self, s: Seq<u8>, pre: Seq<u8>, post: Seq<u8>)
        requires
            s == pre + self.wire() + post,
        ensures
            Self::parse(s, pre.len() as int) == Some((self, (pre.len() + self.wire().len()) as int)),
    {
        vstd::bytes::lemma_auto_spec_u16_to_from_le_bytes();
        vstd::bytes::lemma_auto_spec_u32_to_from_le_bytes();
        vstd::bytes::lemma_auto_spec_u64_to_from_le_bytes();
    }

    pub fn encode(&self, out: &mut Vec<u8>)
        ensures
            final(out)@ == old(out)@ + self.wire(),
    {
        let ghost base = out@;
        assert(out@ =~= base + self.wire());
    }

    pub fn decode(s: &[u8], i: usize) -> (r: Option<(Self, usize)>)
        ensures
            parsed(Self::parse(s@, i as int), r),
    {
        let slen = s.len();
        assert(s@.len() == slen);
        if i <= slen {
            Some((STurretFire {  }, i))
        } else {
            None
        }
    }

    /// The full game frame carrying this packet.
    pub fn to_bytes(&self, sender_net_id: u32) -> (r: Vec<u8>)
        ensures
            r@ == game_frame(0x9C, sender_net_id, self.wire()),
    {
        let mut payload: Vec<u8> = Vec::new();
        self.encode(&mut payload);
        game_frame_bytes(0x9C, sender_net_id, &payload)
    }
}

/// Wire record `SExit`.
#[derive(Clone, Copy, Debug, PartialEq, Eq, Structural)]
pub struct SExit {
    pub client_id: u32,
}

impl SExit {
    pub open spec fn wire(self) -> Seq<u8> {
        wire_u32(self.client_id)
    }

    pub open spec fn parse(s: Seq<u8>, i: int) -> Option<(Self, int)> {
        match parse_u32(s, i) {
            Some((v0, j0)) =>
            Some((SExit { client_id: v0 }, j0)),
            None => None,
        }
    }

    /// Parsing an encoded record restores it.
    pub proof fn lemma_parse_wire(self, s: Seq<u8>, pre: Seq<u8>, post: Seq<u8>)
        requires
            s == pre + self.wire() + post,
        ensures
            Self::parse(s, pre.len() as int) == Some((self, (pre.len() + self.wire().len()) as int)),
    {
        vstd::bytes::lemma_auto_spec_u16_to_from_le_bytes();
        vstd::bytes::lemma_auto_spec_u32_to_from_le_bytes();
        vstd::bytes::lemma_auto_spec_u64_to_from_le_bytes();
        let w0 = wire_u32(self.client_id);
        let rest0 = post;
        assert(s =~= pre + w0 + rest0);
        lemma_parse_wire_u32(s, pre, self.client_id, rest0);
    }

    pub fn encode(&self, out: &mut Vec<u8>)
        ensures
            final(out)@ == old(out)@ + self.wire(),
    {
        let ghost base = out@;
        put_u32(out, self.client_id);
        assert(out@ =~= base + self.wire());
    }

    pub fn decode(s: &[u8], i: usize) -> (r: Option<(Self, usize)>)
        ensures
            parsed(Self::parse(s@, i as int), r),
    {
        let slen = s.len();
        assert(s@.len() == slen);
        match take_u32(s, i) {
            Some((v0, j0)) =>
            Some((SExit { client_id: v0 }, j0)),
            None => None,
        }
    }

    /// The full game frame carrying this packet.
    pub fn to_bytes(&self, sender_net_id: u32) -> (r: Vec<u8>)
        ensures
            r@ == game_frame(0xA0, sender_net_id, self.wire()),
    {
        let mut payload: Vec<u8> = Vec::new();
        self.encode(&mut payload);
        game_frame_bytes(0xA0, sender_net_id, &payload)
    }
}

/// Wire record `SToggleInputLockingFlag`.
#[derive(Clone, Copy, Debug, PartialEq, Eq, Structural)]
pub struct SToggleInputLockingFlag {
    pub input_locking_flags: u32,
}

impl SToggleInputLockingFlag {
    pub open spec fn wire(self) -> Seq<u8> {
        wire_u32(self.input_locking_flags)
    }

    pub open spec fn parse(s: Seq<u8>, i: int) -> Option<(Self, int)> {
        match parse_u32(s, i) {
            Some((v0, j0)) =>
            Some((SToggleInputLockingFlag { input_locking_flags: v0 }, j0)),
            None => None,
        }
    }

    /// Parsing an encoded record restores it.
    pub proof fn lemma_parse_wire(self, s: Seq<u8>, pre: Seq<u8>, post: Seq<u8>)
        requires
            s == pre + self.wire() + post,
        ensures
            Self::parse(s, pre.len() as int) == Some((self, (pre.len() + self.wire().len()) as int)),
    {
        vstd::bytes::lemma_auto_spec_u16_to_from_le_bytes();
        vstd::bytes::lemma_auto_spec_u32_to_from_le_bytes();
        vstd::bytes::lemma_auto_spec_u64_to_from_le_bytes();
        let w0 = wire_u32(self.input_locking_flags);
        let rest0 = post;
        assert(s =~= pre + w0 + rest0);
        lemma_parse_wire_u32(s, pre, self.input_locking_flags, rest0);
    }

    pub fn encode(&self, out: &mut Vec<u8>)
        ensures
            final(out)@ == old(out)@ + self.wire(),
    {
        let ghost base = out@;
        put_u32(out, self.input_locking_flags);
        assert(out@ =~= base + self.wire());
    }

    pub fn decode(s: &[u8], i: usize) -> (r: Option<(Self, usize)>)
        ensures
            parsed(Self::parse(s@, i as int), r),
    {
        let slen = s.len();
        assert(s@.len() == slen);
        match take_u32(s, i) {
            Some((v0, j0)) =>
            Some((SToggleInputLockingFlag { input_locking_flags: v0 }, j0)),
            None => None,
        }
    }

    /// The full game frame carrying this packet.
    pub fn to_bytes(&self, sender_net_id: u32) -> (r: Vec<u8>)
        ensures
            r@ == game_frame(0xA3, sender_net_id, self.wire()),
    {
        let mut payload: Vec<u8> = Vec::new();
        self.encode(&mut payload);
        game_frame_bytes(0xA3, sender_net_id, &payload)
    }
}

/// Wire record `SPausePacket`.
#[derive(Clone, Copy, Debug, PartialEq, Eq, Structural)]
pub struct SPausePacket {
    pub client_id: u32,
    pub pause_time_remaining: u32,
    pub tournament_pause: bool,
}

impl SPausePacket {
    pub open spec fn wire(self) -> Seq<u8> {
        wire_u32(self.client_id) + wire_u32(self.pause_time_remaining) + wire_bool(self.tournament_pause)
    }

    pub open spec fn parse(s: Seq<u8>, i: int) -> Option<(Self, int)> {
        match parse_u32(s, i) {
            Some((v0, j0)) =>
            match parse_u32(s, j0) {
                Some((v1, j1)) =>
                match parse_bool(s, j1) {
                    Some((v2, j2)) =>
                    Some((SPausePacket { client_id: v0, pause_time_remaining: v1, tournament_pause: v2 }, j2)),
                    None => None,
                },
                None => None,
            },
            None => None,
        }
    }

    /// Parsing an encoded record restores it.
    pub proof fn lemma_parse_wire(self, s: Seq<u8>, pre: Seq<u8>, post: Seq<u8>)
        requires
            s == pre + self.wire() + post,
        ensures
            Self::parse(s, pre.len() as int) == Some((self, (pre.len() + self.wire().len()) as int)),
    {
        vstd::bytes::lemma_auto_spec_u16_to_from_le_bytes();
        vstd::bytes::lemma_auto_spec_u32_to_from_le_bytes();
        vstd::bytes::lemma_auto_spec_u64_to_from_le_bytes();
        let w0 = wire_u32(self.client_id);
        let w1 = wire_u32(self.pause_time_remaining);
        let w2 = wire_bool(self.tournament_pause);
        let rest2 = post;
        let rest1 = w2 + rest2;
        let rest0 = w1 + rest1;
        assert(s =~= pre + w0 + rest0);
        lemma_parse_wire_u32(s, pre, self.client_id, rest0);
        let pre1 = pre + w0;
        assert(s =~= pre1 + w1 + rest1);
        lemma_parse_wire_u32(s, pre1, self.pause_time_remaining, rest1);
        let pre2 = pre1 + w1;
        assert(s =~= pre2 + w2 + rest2);
        lemma_parse_wire_bool(s, pre2, self.tournament_pause, rest2);
    }

    pub fn encode(&self, out: &mut Vec<u8>)
        ensures
            final(out)@ == old(out)@ + self.wire(),
    {
        let ghost base = out@;
        put_u32(out, self.client_id);
        put_u32(out, self.pause_time_remaining);
        put_bool(out, self.tournament_pause);
        assert(out@ =~= base + self.wire());
    }

    pub fn decode(s: &[u8], i: usize) -> (r: Option<(Self, usize)>)
        ensures
            parsed(Self::parse(s@, i as int), r),
    {
        let slen = s.len();
        assert(s@.len() == slen);
        match take_u32(s, i) {
            Some((v0, j0)) =>
            match take_u32(s, j0) {
                Some((v1, j1)) =>
                match take_bool(s, j1) {
                    Some((v2, j2)) =>
                    Some((SPausePacket { client_id: v0, pause_time_remaining: v1, tournament_pause: v2 }, j2)),
                    None => None,
                },
                None => None,
            },
            None => None,
        }
    }

    /// The full game frame carrying this packet.
    pub fn to_bytes(&self, sender_net_id: u32) -> (r: Vec<u8>)
        ensures
            r@ == game_frame(0xA9, sender_net_id, self.wire()),
    {
        let mut payload: Vec<u8> = Vec::new();
        self.encode(&mut payload);
        game_frame_bytes(0xA9, sender_net_id, &payload)
    }
}

/// Wire record `SHideObjectiveText`.
#[derive(Clone, Copy, Debug, PartialEq, Eq, Structural)]
pub struct SHideObjectiveText {
}

impl SHideObjectiveText {
    pub open spec fn wire(self) -> Seq<u8> {
        Seq::empty()
    }

    pub open spec fn parse(s: Seq<u8>, i: int) -> Option<(Self, int)> {
        if 0 <= i <= s.len() {
            Some((SHideObjectiveText {  }, i))
        } else {
            None
        }
    }

    /// Parsing an encoded record restores it.
    pub proof fn lemma_parse_wire(self, s: Seq<u8>, pre: Seq<u8>, post: Seq<u8>)
        requires
            s == pre + self.wire() + post,
        ensures
            Self::parse(s, pre.len() as int) == Some((self, (pre.len() + self.wire().len()) as int)),
    {
        vstd::bytes::lemma_auto_spec_u16_to_from_le_bytes();
        vstd::bytes::lemma_auto_spec_u32_to_from_le_bytes();
        vstd::bytes::lemma_auto_spec_u64_to_from_le_bytes();
    }

    pub fn encode(&self, out: &mut Vec<u8>)
        ensures
            final(out)@ == old(out)@ + self.wire(),
    {
        let ghost base = out@;
        assert(out@ =~= base + self.wire());
    }

    pub fn decode(s: &[u8], i: usize) -> (r: Option<(Self, usize)>)
        ensures
            parsed(Self::parse(s@, i as int), r),
    {
        let slen = s.len();
        assert(s@.len() == slen);
        if i <= slen {
            Some((SHideObjectiveText {  }, i))
        } else {
            None
        }
    }

    /// The full game frame carrying this packet.
    pub fn to_bytes(&self, sender_net_id: u32) -> (r: Vec<u8>)
        ensures
            r@ == game_frame(0xAA, sender_net_id, self.wire()),
    {
        let mut payload: Vec<u8> = Vec::new();
        self.encode(&mut payload);
        game_frame_bytes(0xAA, sender_net_id, &payload)
    }
}

/// Wire record `SOnEvent`.
#[derive(Clone, Copy, Debug, PartialEq, Eq, Structural)]
pub struct SOnEvent {
}

impl SOnEvent {
    pub open spec fn wire(self) -> Seq<u8> {
        Seq::empty()
    }

    pub open spec fn parse(s: Seq<u8>, i: int) -> Option<(Self, int)> {
        if 0 <= i <= s.len() {
            Some((SOnEvent {  }, i))
        } else {
            None
        }
    }

    /// Parsing an encoded record restores it.
    pub proof fn lemma_parse_wire(self, s: Seq<u8>, pre: Seq<u8>, post: Seq<u8>)
        requires
            s == pre + self.wire() + post,
        ensures
            Self::parse(s, pre.len() as int) == Some((self, (pre.len() + self.wire().len()) as int)),
    {
        vstd::bytes::lemma_auto_spec_u16_to_from_le_bytes();
        vstd::bytes::lemma_auto_spec_u32_to_from_le_bytes();
        vstd::bytes::lemma_auto_spec_u64_to_from_le_bytes();
    }

    pub fn encode(&self, out: &mut Vec<u8>)
        ensures
            final(out)@ == old(out)@ + self.wire(),
    {
        let ghost base = out@;
        assert(out@ =~= base + self.wire());
    }

    pub fn decode(s: &[u8], i: usize) -> (r: Option<(Self, usize)>)
        ensures
            parsed(Self::parse(s@, i as int), r),
    {
        let slen = s.len();
        assert(s@.len() == slen);
        if i <= slen {
            Some((SOnEvent {  }, i))
        } else {
            None
        }
    }

    /// The full game frame carrying this packet.
    pub fn to_bytes(&self, sender_net_id: u32) -> (r: Vec<u8>)
        ensures
            r@ == game_frame(0xAB, sender_net_id, self.wire()),
    {
        let mut payload: Vec<u8> = Vec::new();
        self.encode(&mut payload);
        game_frame_bytes(0xAB, sender_net_id, &payload)
    }
}

/// Wire record `STeamSurrenderStatus`.
#[derive(Clone, Copy, Debug, PartialEq, Eq, Structural)]
pub struct STeamSurrenderStatus {
    pub reason: u32,
    pub for_vote: u8,
    pub against_vote: u8,
    pub team_id: u32,
}

impl STeamSurrenderStatus {
    pub open spec fn wire(self) -> Seq<u8> {
        wire_u32(self.reason) + wire_u8(self.for_vote) + wire_u8(self.against_vote) + wire_u32(self.team_id)
    }

    pub open spec fn parse(s: Seq<u8>, i: int) -> Option<(Self, int)> {
        match parse_u32(s, i) {
            Some((v0, j0)) =>
            match parse_u8(s, j0) {
                Some((v1, j1)) =>
                match parse_u8(s, j1) {
                    Some((v2, j2)) =>
                    match parse_u32(s, j2) {
                        Some((v3, j3)) =>
                        Some((STeamSurrenderStatus { reason: v0, for_vote: v1, against_vote: v2, team_id: v3 }, j3)),
                        None => None,
                    },
                    None => None,
                },
                None => None,
            },
            None => None,
        }
    }

    /// Parsing an encoded record restores it.
    pub proof fn lemma_parse_wire(self, s: Seq<u8>, pre: Seq<u8>, post: Seq<u8>)
        requires
            s == pre + self.wire() + post,
        ensures
            Self::parse(s, pre.len() as int) == Some((self, (pre.len() + self.wire().len()) as int)),
    {
        vstd::bytes::lemma_auto_spec_u16_to_from_le_bytes();
        vstd::bytes::lemma_auto_spec_u32_to_from_le_bytes();
        vstd::bytes::lemma_auto_spec_u64_to_from_le_bytes();
        let w0 = wire_u32(self.reason);
        let w1 = wire_u8(self.for_vote);
        let w2 = wire_u8(self.against_vote);
        let w3 = wire_u32(self.team_id);
        let rest3 = post;
        let rest2 = w3 + rest3;
        let rest1 = w2 + rest2;
        let rest0 = w1 + rest1;
        assert(s =~= pre + w0 + rest0);
        lemma_parse_wire_u32(s, pre, self.reason, rest0);
        let pre1 = pre + w0;
        assert(s =~= pre1 + w1 + rest1);
        lemma_parse_wire_u8(s, pre1, self.for_vote, rest1);
        let pre2 = pre1 + w1;
        assert(s =~= pre2 + w2 + rest2);
        lemma_parse_wire_u8(s, pre2, self.against_vote, rest2);
        let pre3 = pre2 + w2;
        assert(s =~= pre3 + w3 + rest3);
        lemma_parse_wire_u32(s, pre3, self.team_id, rest3);
    }

    pub fn encode(&self, out: &mut Vec<u8>)
        ensures
            final(out)@ == old(out)@ + self.wire(),
    {
        let ghost base = out@;
        put_u32(out, self.reason);
        put_u8(out, self.for_vote);
        put_u8(out, self.against_vote);
        put_u32(out, self.team_id);
        assert(out@ =~= base + self.wire());
    }

    pub fn decode(s: &[u8], i: usize) -> (r: Option<(Self, usize)>)
        ensures
            parsed(Self::parse(s@, i as int), r),
    {
        let slen = s.len();
        assert(s@.len() == slen);
        match take_u32(s, i) {
            Some((v0, j0)) =>
            match take_u8(s, j0) {
                Some((v1, j1)) =>
                match take_u8(s, j1) {
                    Some((v2, j2)) =>
                    match take_u32(s, j2) {
                        Some((v3, j3)) =>
                        Some((STeamSurrenderStatus { reason: v0, for_vote: v1, against_vote: v2, team_id: v3 }, j3)),
                        None => None,
                    },
                    None => None,
                },
                None => None,
            },
            None => None,
        }
    }

    /// The full game frame carrying this packet.
    pub fn to_bytes(&self, sender_net_id: u32) -> (r: Vec<u8>)
        ensures
            r@ == game_frame(0xAD, sender_net_id, self.wire()),
    {
        let mut payload: Vec<u8> = Vec::new();
        self.encode(&mut payload);
        game_frame_bytes(0xAD, sender_net_id, &payload)
    }
}

/// Wire record `SHideAuxiliaryText`.
#[derive(Clone, Copy, Debug, PartialEq, Eq, Structural)]
pub struct SHideAuxiliaryText {
}

impl SHideAuxiliaryText {
    pub open spec fn wire(self) -> Seq<u8> {
        Seq::empty()
    }

    pub open spec fn parse(s: Seq<u8>, i: int) -> Option<(Self, int)> {
        if 0 <= i <= s.len() {
            Some((SHideAuxiliaryText {  }, i))
        } else {
            None
        }
    }

    /// Parsing an encoded record restores it.
    pub proof fn lemma_parse_wire(self, s: Seq<u8>, pre: Seq<u8>, post: Seq<u8>)
        requires
            s == pre + self.wire() + post,
        ensures
            Self::parse(s, pre.len() as int) == Some((self, (pre.len() + self.wire().len()) as int)),
    {
        vstd::bytes::lemma_auto_spec_u16_to_from_le_bytes();
        vstd::bytes::lemma_auto_spec_u32_to_from_le_bytes();
        vstd::bytes::lemma_auto_spec_u64_to_from_le_bytes();
    }

    pub fn encode(&self, out: &mut Vec<u8>)
        ensures
            final(out)@ == old(out)@ + self.wire(),
    {
        let ghost base = out@;
        assert(out@ =~= base + self.wire());
    }

    pub fn decode(s: &[u8], i: usize) -> (r: Option<(Self, usize)>)
        ensures
            parsed(Self::parse(s@, i as int), r),
    {
        let slen = s.len();
        assert(s@.len() == slen);
        if i <= slen {
            Some((SHideAuxiliaryText {  }, i))
        } else {
            None
        }
    }

    /// The full game frame carrying this packet.
    pub fn to_bytes(&self, sender_net_id: u32) -> (r: Vec<u8>)
        ensures
            r@ == game_frame(0xAF, sender_net_id, self.wire()),
    {
        let mut payload: Vec<u8> = Vec::new();
        self.encode(&mut payload);
        game_frame_bytes(0xAF, sender_net_id, &payload)
    }
}

/// Wire record `SOnReplicationAcc`.
#[derive(Clone, Copy, Debug, PartialEq, Eq, Structural)]
pub struct SOnReplicationAcc {
    pub sync_id: i32,
}

impl SOnReplicationAcc {
    pub open spec fn wire(self) -> Seq<u8> {
        wire_i32(self.sync_id)
    }

    pub open spec fn parse(s: Seq<u8>, i: int) -> Option<(Self, int)> {
        match parse_i32(s, i) {
            Some((v0, j0)) =>
            Some((SOnReplicationAcc { sync_id: v0 }, j0)),
            None => None,
        }
    }

    /// Parsing an encoded record restores it.
    pub proof fn lemma_parse_wire(self, s: Seq<u8>, pre: Seq<u8>, post: Seq<u8>)
        requires
            s == pre + self.wire() + post,
        ensures
            Self::parse(s, pre.len() as int) == Some((self, (pre.len() + self.wire().len()) as int)),
    {
        vstd::bytes::lemma_auto_spec_u16_to_from_le_bytes();
        vstd::bytes::lemma_auto_spec_u32_to_from_le_bytes();
        vstd::bytes::lemma_auto_spec_u64_to_from_le_bytes();
        let w0 = wire_i32(self.sync_id);
        let rest0 = post;
        assert(s =~= pre + w0 + rest0);
        lemma_parse_wire_i32(s, pre, self.sync_id, rest0);
    }

    pub fn encode(&self, out: &mut Vec<u8>)
        ensures
            final(out)@ == old(out)@ + self.wire(),
    {
        let ghost base = out@;
        put_i32(out, self.sync_id);
        assert(out@ =~= base + self.wire());
    }

    pub fn decode(s: &[u8], i: usize) -> (r: Option<(Self, usize)>)
        ensures
            parsed(Self::parse(s@, i as int), r),
    {
        let slen = s.len();
        assert(s@.len() == slen);
        match take_i32(s, i) {
            Some((v0, j0)) =>
            Some((SOnReplicationAcc { sync_id: v0 }, j0)),
            None => None,
        }
    }

    /// The full game frame carrying this packet.
    pub fn to_bytes(&self, sender_net_id: u32) -> (r: Vec<u8>)
        ensures
            r@ == game_frame(0xB0, sender_net_id, self.wire()),
    {
        let mut payload: Vec<u8> = Vec::new();
        self.encode(&mut payload);
        game_frame_bytes(0xB0, sender_net_id, &payload)
    }
}

/// Wire record `SOnDisconnected`.
#[derive(Clone, Copy, Debug, PartialEq, Eq, Structural)]
pub struct SOnDisconnected {
}

impl SOnDisconnected {
    pub open spec fn wire(self) -> Seq<u8> {
        Seq::empty()
    }

    pub open spec fn parse(s: Seq<u8>, i: int) -> Option<(Self, int)> {
        if 0 <= i <= s.len() {
            Some((SOnDisconnected {  }, i))
        } else {
            None
        }
    }

    /// Parsing an encoded record restores it.
    pub proof fn lemma_parse_wire(self, s: Seq<u8>, pre: Seq<u8>, post: Seq<u8>)
        requires
            s == pre + self.wire() + post,
        ensures
            Self::parse(s, pre.len() as int) == Some((self, (pre.len() + self.wire().len()) as int)),
    {
        vstd::bytes::lemma_auto_spec_u16_to_from_le_bytes();
        vstd::bytes::lemma_auto_spec_u32_to_from_le_bytes();
        vstd::bytes::lemma_auto_spec_u64_to_from_le_bytes();
    }

    pub fn encode(&self, out: &mut Vec<u8>)
        ensures
            final(out)@ == old(out)@ + self.wire(),
    {
        let ghost base = out@;
        assert(out@ =~= base + self.wire());
    }

    pub fn decode(s: &[u8], i: usize) -> (r: Option<(Self, usize)>)
        ensures
            parsed(Self::parse(s@, i as int), r),
    {
        let slen = s.len();
        assert(s@.len() == slen);
        if i <= slen {
            Some((SOnDisconnected {  }, i))
        } else {
            None
        }
    }

    /// The full game frame carrying this packet.
    pub fn to_bytes(&self, sender_net_id: u32) -> (r: Vec<u8>)
        ensures
            r@ == game_frame(0xB1, sender_net_id, self.wire()),
    {
        let mut payload: Vec<u8> = Vec::new();
        self.encode(&mut payload);
        game_frame_bytes(0xB1, sender_net_id, &payload)
    }
}

/// Wire record `SSetGreyscaleEnabledWhenDead`.
#[derive(Clone, Copy, Debug, PartialEq, Eq, Structural)]
pub struct SSetGreyscaleEnabledWhenDead {
    pub enabled: bool,
}

impl SSetGreyscaleEnabledWhenDead {
    pub open spec fn wire(self) -> Seq<u8> {
        wire_bool(self.enabled)
    }

    pub open spec fn parse(s: Seq<u8>, i: int) -> Option<(Self, int)> {
        match parse_bool(s, i) {
            Some((v0, j0)) =>
            Some((SSetGreyscaleEnabledWhenDead { enabled: v0 }, j0)),
            None => None,
        }
    }

    /// Parsing an encoded record restores it.
    pub proof fn lemma_parse_wire(self, s: Seq<u8>, pre: Seq<u8>, post: Seq<u8>)
        requires
            s == pre + self.wire() + post,
        ensures
            Self::parse(s, pre.len() as int) == Some((self, (pre.len() + self.wire().len()) as int)),
    {
        vstd::bytes::lemma_auto_spec_u16_to_from_le_bytes();
        vstd::bytes::lemma_auto_spec_u32_to_from_le_bytes();
        vstd::bytes::lemma_auto_spec_u64_to_from_le_bytes();
        let w0 = wire_bool(self.enabled);
        let rest0 = post;
        assert(s =~= pre + w0 + rest0);
        lemma_parse_wire_bool(s, pre, self.enabled, rest0);
    }

    pub fn encode(&self, out: &mut Vec<u8>)
        ensures
            final(out)@ == old(out)@ + self.wire(),
    {
        let ghost base = out@;
        put_bool(out, self.enabled);
        assert(out@ =~= base + self.wire());
    }

    pub fn decode(s: &[u8], i: usize) -> (r: Option<(Self, usize)>)
        ensures
            parsed(Self::parse(s@, i as int), r),
    {
        let slen = s.len();
        assert(s@.len() == slen);
        match take_bool(s, i) {
            Some((v0, j0)) =>
            Some((SSetGreyscaleEnabledWhenDead { enabled: v0 }, j0)),
            None => None,
        }
    }

    /// The full game frame carrying this packet.
    pub fn to_bytes(&self, sender_net_id: u32) -> (r: Vec<u8>)
        ensures
            r@ == game_frame(0xB2, sender_net_id, self.wire()),
    {
        let mut payload: Vec<u8> = Vec::new();
        self.encode(&mut payload);
        game_frame_bytes(0xB2, sender_net_id, &payload)
    }
}

/// Wire record `SAiState`.
#[derive(Clone, Copy, Debug, PartialEq, Eq, Structural)]
pub struct SAiState {
    pub ai_state: u32,
}

impl SAiState {
    pub open spec fn wire(self) -> Seq<u8> {
        wire_u32(self.ai_state)
    }

    pub open spec fn parse(s: Seq<u8>, i: int) -> Option<(Self, int)> {
        match parse_u32(s, i) {
            Some((v0, j0)) =>
            Some((SAiState { ai_state: v0 }, j0)),
            None => None,
        }
    }

    /// Parsing an encoded record restores it.
    pub proof fn lemma_parse_wire(self, s: Seq<u8>, pre: Seq<u8>, post: Seq<u8>)
        requires
            s == pre + self.wire() + post,
        ensures
            Self::parse(s, pre.len() as int) == Some((self, (pre.len() + self.wire().len()) as int)),
    {
        vstd::bytes::lemma_auto_spec_u16_to_from_le_bytes();
        vstd::bytes::lemma_auto_spec_u32_to_from_le_bytes();
        vstd::bytes::lemma_auto_spec_u64_to_from_le_bytes();
        let w0 = wire_u32(self.ai_state);
        let rest0 = post;
        assert(s =~= pre + w0 + rest0);
        lemma_parse_wire_u32(s, pre, self.ai_state, rest0);
    }

    pub fn encode(&self, out: &mut Vec<u8>)
        ensures
            final(out)@ == old(out)@ + self.wire(),
    {
        let ghost base = out@;
        put_u32(out, self.ai_state);
        assert(out@ =~= base + self.wire());
    }

    pub fn decode(s: &[u8], i: usize) -> (r: Option<(Self, usize)>)
        ensures
            parsed(Self::parse(s@, i as int), r),
    {
        let slen = s.len();
        assert(s@.len() == slen);
        match take_u32(s, i) {
            Some((v0, j0)) =>
            Some((SAiState { ai_state: v0 }, j0)),
            None => None,
        }
    }

    /// The full game frame carrying this packet.
    pub fn to_bytes(&self, sender_net_id: u32) -> (r: Vec<u8>)
        ensures
            r@ == game_frame(0xB3, sender_net_id, self.wire()),
    {
        let mut payload: Vec<u8> = Vec::new();
        self.encode(&mut payload);
        game_frame_bytes(0xB3, sender_net_id, &payload)
    }
}

/// Wire record `SSetFoWStatus`.
#[derive(Clone, Copy, Debug, PartialEq, Eq, Structural)]
pub struct SSetFoWStatus {
    pub enabled: bool,
}

impl SSetFoWStatus {
    pub open spec fn wire(self) -> Seq<u8> {
        wire_bool(self.enabled)
    }

    pub open spec fn parse(s: Seq<u8>, i: int) -> Option<(Self, int)> {
        match parse_bool(s, i) {
            Some((v0, j0)) =>
            Some((SSetFoWStatus { enabled: v0 }, j0)),
            None => None,
        }
    }

    /// Parsing an encoded record restores it.
    pub proof fn lemma_parse_wire(self, s: Seq<u8>, pre: Seq<u8>, post: Seq<u8>)
        requires
            s == pre + self.wire() + post,
        ensures
            Self::parse(s, pre.len() as int) == Some((self, (pre.len() + self.wire().len()) as int)),
    {
        vstd::bytes::lemma_auto_spec_u16_to_from_le_bytes();
        vstd::bytes::lemma_auto_spec_u32_to_from_le_bytes();
        vstd::bytes::lemma_auto_spec_u64_to_from_le_bytes();
        let w0 = wire_bool(self.enabled);
        let rest0 = post;
        assert(s =~= pre + w0 + rest0);
        lemma_parse_wire_bool(s, pre, self.enabled, rest0);
    }

    pub fn encode(&self, out: &mut Vec<u8>)
        ensures
            final(out)@ == old(out)@ + self.wire(),
    {
        let ghost base = out@;
        put_bool(out, self.enabled);
        assert(out@ =~= base + self.wire());
    }

    pub fn decode(s: &[u8], i: usize) -> (r: Option<(Self, usize)>)
        ensures
            parsed(Self::parse(s@, i as int), r),
    {
        let slen = s.len();
        assert(s@.len() == slen);
        match take_bool(s, i) {
            Some((v0, j0)) =>
            Some((SSetFoWStatus { enabled: v0 }, j0)),
            None => None,
        }
    }

    /// The full game frame carrying this packet.
    pub fn to_bytes(&self, sender_net_id: u32) -> (r: Vec<u8>)
        ensures
            r@ == game_frame(0xB4, sender_net_id, self.wire()),
    {
        let mut payload: Vec<u8> = Vec::new();
        self.encode(&mut payload);
        game_frame_bytes(0xB4, sender_net_id, &payload)
    }
}

/// Wire record `SHighlightShopElement`.
#[derive(Clone, Copy, Debug, PartialEq, Eq, Structural)]
pub struct SHighlightShopElement {
    pub element_type: u8,
    pub element_number: u8,
    pub element_sub_category: u8,
}

impl SHighlightShopElement {
    pub open spec fn wire(self) -> Seq<u8> {
        wire_u8(self.element_type) + wire_u8(self.element_number) + wire_u8(self.element_sub_category)
    }

    pub open spec fn parse(s: Seq<u8>, i: int) -> Option<(Self, int)> {
        match parse_u8(s, i) {
            Some((v0, j0)) =>
            match parse_u8(s, j0) {
                Some((v1, j1)) =>
                match parse_u8(s, j1) {
                    Some((v2, j2)) =>
                    Some((SHighlightShopElement { element_type: v0, element_number: v1, element_sub_category: v2 }, j2)),
                    None => None,
                },
                None => None,
            },
            None => None,
        }
    }

    /// Parsing an encoded record restores it.
    pub proof fn lemma_parse_wire(self, s: Seq<u8>, pre: Seq<u8>, post: Seq<u8>)
        requires
            s == pre + self.wire() + post,
        ensures
            Self::parse(s, pre.len() as int) == Some((self, (pre.len() + self.wire().len()) as int)),
    {
        vstd::bytes::lemma_auto_spec_u16_to_from_le_bytes();
        vstd::bytes::lemma_auto_spec_u32_to_from_le_bytes();
        vstd::bytes::lemma_auto_spec_u64_to_from_le_bytes();
        let w0 = wire_u8(self.element_type);
        let w1 = wire_u8(self.element_number);
        let w2 = wire_u8(self.element_sub_category);
        let rest2 = post;
        let rest1 = w2 + rest2;
        let rest0 = w1 + rest1;
        assert(s =~= pre + w0 + rest0);
        lemma_parse_wire_u8(s, pre, self.element_type, rest0);
        let pre1 = pre + w0;
        assert(s =~= pre1 + w1 + rest1);
        lemma_parse_wire_u8(s, pre1, self.element_number, rest1);
        let pre2 = pre1 + w1;
        assert(s =~= pre2 + w2 + rest2);
        lemma_parse_wire_u8(s, pre2, self.element_sub_category, rest2);
    }

    pub fn encode(&self, out: &mut Vec<u8>)
        ensures
            final(out)@ == old(out)@ + self.wire(),
    {
        let ghost base = out@;
        put_u8(out, self.element_type);
        put_u8(out, self.element_number);
        put_u8(out, self.element_sub_category);
        assert(out@ =~= base + self.wire());
    }

    pub fn decode(s: &[u8], i: usize) -> (r: Option<(Self, usize)>)
        ensures
            parsed(Self::parse(s@, i as int), r),
    {
        let slen = s.len();
        assert(s@.len() == slen);
        match take_u8(s, i) {
            Some((v0, j0)) =>
            match take_u8(s, j0) {
                Some((v1, j1)) =>
                match take_u8(s, j1) {
                    Some((v2, j2)) =>
                    Some((SHighlightShopElement { element_type: v0, element_number: v1, element_sub_category: v2 }, j2)),
                    None => None,
                },
                None => None,
            },
            None => None,
        }
    }

    /// The full game frame carrying this packet.
    pub fn to_bytes(&self, sender_net_id: u32) -> (r: Vec<u8>)
        ensures
            r@ == game_frame(0xB6, sender_net_id, self.wire()),
    {
        let mut payload: Vec<u8> = Vec::new();
        self.encode(&mut payload);
        game_frame_bytes(0xB6, sender_net_id, &payload)
    }
}

/// Wire record `SRemoveUnitHighlight`.
#[derive(Clone, Copy, Debug, PartialEq, Eq, Structural)]
pub struct SRemoveUnitHighlight {
    pub unit_net_id: u32,
}

impl SRemoveUnitHighlight {
    pub open spec fn wire(self) -> Seq<u8> {
        wire_u32(self.unit_net_id)
    }

    pub open spec fn parse(s: Seq<u8>, i: int) -> Option<(Self, int)> {
        match parse_u32(s, i) {
            Some((v0, j0)) =>
            Some((SRemoveUnitHighlight { unit_net_id: v0 }, j0)),
            None => None,
        }
    }

    /// Parsing an encoded record restores it.
    pub proof fn lemma_parse_wire(self, s: Seq<u8>, pre: Seq<u8>, post: Seq<u8>)
        requires
            s == pre + self.wire() + post,
        ensures
            Self::parse(s, pre.len() as int) == Some((self, (pre.len() + self.wire().len()) as int)),
    {
        vstd::bytes::lemma_auto_spec_u16_to_from_le_bytes();
        vstd::bytes::lemma_auto_spec_u32_to_from_le_bytes();
        vstd::bytes::lemma_auto_spec_u64_to_from_le_bytes();
        let w0 = wire_u32(self.unit_net_id);
        let rest0 = post;
        assert(s =~= pre + w0 + rest0);
        lemma_parse_wire_u32(s, pre, self.unit_net_id, rest0);
    }

    pub fn encode(&self, out: &mut Vec<u8>)
        ensures
            final(out)@ == old(out)@ + self.wire(),
    {
        let ghost base = out@;
        put_u32(out, self.unit_net_id);
        assert(out@ =~= base + self.wire());
    }

    pub fn decode(s: &[u8], i: usize) -> (r: Option<(Self, usize)>)
        ensures
            parsed(Self::parse(s@, i as int), r),
    {
        let slen = s.len();
        assert(s@.len() == slen);
        match take_u32(s, i) {
            Some((v0, j0)) =>
            Some((SRemoveUnitHighlight { unit_net_id: v0 }, j0)),
            None => None,
        }
    }

    /// The full game frame carrying this packet.
    pub fn to_bytes(&self, sender_net_id: u32) -> (r: Vec<u8>)
        ensures
            r@ == game_frame(0xBC, sender_net_id, self.wire()),
    {
        let mut payload: Vec<u8> = Vec::new();
        self.encode(&mut payload);
        game_frame_bytes(0xBC, sender_net_id, &payload)
    }
}

/// Wire record `SDisableHUDForEndOfGame`.
#[derive(Clone, Copy, Debug, PartialEq, Eq, Structural)]
pub struct SDisableHUDForEndOfGame {
}

impl SDisableHUDForEndOfGame {
    pub open spec fn wire(self) -> Seq<u8> {
        Seq::empty()
    }

    pub open spec fn parse(s: Seq<u8>, i: int) -> Option<(Self, int)> {
        if 0 <= i <= s.len() {
            Some((SDisableHUDForEndOfGame {  }, i))
        } else {
            None
        }
    }

    /// Parsing an encoded record restores it.
    pub proof fn lemma_parse_wire(self, s: Seq<u8>, pre: Seq<u8>, post: Seq<u8>)
        requires
            s == pre + self.wire() + post,
        ensures
            Self::parse(s, pre.len() as int) == Some((self, (pre.len() + self.wire().len()) as int)),
    {
        vstd::bytes::lemma_auto_spec_u16_to_from_le_bytes();
        vstd::bytes::lemma_auto_spec_u32_to_from_le_bytes();
        vstd::bytes::lemma_auto_spec_u64_to_from_le_bytes();
    }

    pub fn encode(&self, out: &mut Vec<u8>)
        ensures
            final(out)@ == old(out)@ + self.wire(),
    {
        let ghost base = out@;
        assert(out@ =~= base + self.wire());
    }

    pub fn decode(s: &[u8], i: usize) -> (r: Option<(Self, usize)>)
        ensures
            parsed(Self::parse(s@, i as int), r),
    {
        let slen = s.len();
        assert(s@.len() == slen);
        if i <= slen {
            Some((SDisableHUDForEndOfGame {  }, i))
        } else {
            None
        }
    }

    /// The full game frame carrying this packet.
    pub fn to_bytes(&self, sender_net_id: u32) -> (r: Vec<u8>)
        ensures
            r@ == game_frame(0xC4, sender_net_id, self.wire()),
    {
        let mut payload: Vec<u8> = Vec::new();
        self.encode(&mut payload);
        game_frame_bytes(0xC4, sender_net_id, &payload)
    }
}

/// Wire record `SAiTargetHero`.
#[derive(Clone, Copy, Debug, PartialEq, Eq, Structural)]
pub struct SAiTargetHero {
    pub target_net_id: u32,
}

impl SAiTargetHero {
    pub open spec fn wire(self) -> Seq<u8> {
        wire_u32(self.target_net_id)
    }

    pub open spec fn parse(s: Seq<u8>, i: int) -> Option<(Self, int)> {
        match parse_u32(s, i) {
            Some((v0, j0)) =>
            Some((SAiTargetHero { target_net_id: v0 }, j0)),
            None => None,
        }
    }

    /// Parsing an encoded record restores it.
    pub proof fn lemma_parse_wire(self, s: Seq<u8>, pre: Seq<u8>, post: Seq<u8>)
        requires
            s == pre + self.wire() + post,
        ensures
            Self::parse(s, pre.len() as int) == Some((self, (pre.len() + self.wire().len()) as int)),
    {
        vstd::bytes::lemma_auto_spec_u16_to_from_le_bytes();
        vstd::bytes::lemma_auto_spec_u32_to_from_le_bytes();
        vstd::bytes::lemma_auto_spec_u64_to_from_le_bytes();
        let w0 = wire_u32(self.target_net_id);
        let rest0 = post;
        assert(s =~= pre + w0 + rest0);
        lemma_parse_wire_u32(s, pre, self.target_net_id, rest0);
    }

    pub fn encode(&self, out: &mut Vec<u8>)
        ensures
            final(out)@ == old(out)@ + self.wire(),
    {
        let ghost base = out@;
        put_u32(out, self.target_net_id);
        assert(out@ =~= base + self.wire());
    }

    pub fn decode(s: &[u8], i: usize) -> (r: Option<(Self, usize)>)
        ensures
            parsed(Self::parse(s@, i as int), r),
    {
        let slen = s.len();
        assert(s@.len() == slen);
        match take_u32(s, i) {
            Some((v0, j0)) =>
            Some((SAiTargetHero { target_net_id: v0 }, j0)),
            None => None,
        }
    }

    /// The full game frame carrying this packet.
    pub fn to_bytes(&self, sender_net_id: u32) -> (r: Vec<u8>)
        ensures
            r@ == game_frame(0xC8, sender_net_id, self.wire()),
    {
        let mut payload: Vec<u8> = Vec::new();
        self.encode(&mut payload);
        game_frame_bytes(0xC8, sender_net_id, &payload)
    }
}

/// Wire record `SOpenAFKWarningMessage`.
#[derive(Clone, Copy, Debug, PartialEq, Eq, Structural)]
pub struct SOpenAFKWarningMessage {
}

impl SOpenAFKWarningMessage {
    pub open spec fn wire(self) -> Seq<u8> {
        Seq::empty()
    }

    pub open spec fn parse(s: Seq<u8>, i: int) -> Option<(Self, int)> {
        if 0 <= i <= s.len() {
            Some((SOpenAFKWarningMessage {  }, i))
        } else {
            None
        }
    }

    /// Parsing an encoded record restores it.
    pub proof fn lemma_parse_wire(self, s: Seq<u8>, pre: Seq<u8>, post: Seq<u8>)
        requires
            s == pre + self.wire() + post,
        ensures
            Self::parse(s, pre.len() as int) == Some((self, (pre.len() + self.wire().len()) as int)),
    {
        vstd::bytes::lemma_auto_spec_u16_to_from_le_bytes();
        vstd::bytes::lemma_auto_spec_u32_to_from_le_bytes();
        vstd::bytes::lemma_auto_spec_u64_to_from_le_bytes();
    }

    pub fn encode(&self, out: &mut Vec<u8>)
        ensures
            final(out)@ == old(out)@ + self.wire(),
    {
        let ghost base = out@;
        assert(out@ =~= base + self.wire());
    }

    pub fn decode(s: &[u8], i: usize) -> (r: Option<(Self, usize)>)
        ensures
            parsed(Self::parse(s@, i as int), r),
    {
        let slen = s.len();
        assert(s@.len() == slen);
        if i <= slen {
            Some((SOpenAFKWarningMessage {  }, i))
        } else {
            None
        }
    }

    /// The full game frame carrying this packet.
    pub fn to_bytes(&self, sender_net_id: u32) -> (r: Vec<u8>)
        ensures
            r@ == game_frame(0xC0, sender_net_id, self.wire()),
    {
        let mut payload: Vec<u8> = Vec::new();
        self.encode(&mut payload);
        game_frame_bytes(0xC0, sender_net_id, &payload)
    }
}

/// Wire record `SNeutralCampEmpty`.
#[derive(Clone, Copy, Debug, PartialEq, Eq, Structural)]
pub struct SNeutralCampEmpty {
    pub player_net_id: u32,
    pub camp_index: u32,
    pub state: bool,
}

impl SNeutralCampEmpty {
    pub open spec fn wire(self) -> Seq<u8> {
        wire_u32(self.player_net_id) + wire_u32(self.camp_index) + wire_bool(self.state)
    }

    pub open spec fn parse(s: Seq<u8>, i: int) -> Option<(Self, int)> {
        match parse_u32(s, i) {
            Some((v0, j0)) =>
            match parse_u32(s, j0) {
                Some((v1, j1)) =>
                match parse_bool(s, j1) {
                    Some((v2, j2)) =>
                    Some((SNeutralCampEmpty { player_net_id: v0, camp_index: v1, state: v2 }, j2)),
                    None => None,
                },
                None => None,
            },
            None => None,
        }
    }

    /// Parsing an encoded record restores it.
    pub proof fn lemma_parse_wire(self, s: Seq<u8>, pre: Seq<u8>, post: Seq<u8>)
        requires
            s == pre + self.wire() + post,
        ensures
            Self::parse(s, pre.len() as int) == Some((self, (pre.len() + self.wire().len()) as int)),
    {
        vstd::bytes::lemma_auto_spec_u16_to_from_le_bytes();
        vstd::bytes::lemma_auto_spec_u32_to_from_le_bytes();
        vstd::bytes::lemma_auto_spec_u64_to_from_le_bytes();
        let w0 = wire_u32(self.player_net_id);
        let w1 = wire_u32(self.camp_index);
        let w2 = wire_bool(self.state);
        let rest2 = post;
        let rest1 = w2 + rest2;
        let rest0 = w1 + rest1;
        assert(s =~= pre + w0 + rest0);
        lemma_parse_wire_u32(s, pre, self.player_net_id, rest0);
        let pre1 = pre + w0;
        assert(s =~= pre1 + w1 + rest1);
        lemma_parse_wire_u32(s, pre1, self.camp_index, rest1);
        let pre2 = pre1 + w1;
        assert(s =~= pre2 + w2 + rest2);
        lemma_parse_wire_bool(s, pre2, self.state, rest2);
    }

    pub fn encode(&self, out: &mut Vec<u8>)
        ensures
            final(out)@ == old(out)@ + self.wire(),
    {
        let ghost base = out@;
        put_u32(out, self.player_net_id);
        put_u32(out, self.camp_index);
        put_bool(out, self.state);
        assert(out@ =~= base + self.wire());
    }

    pub fn decode(s: &[u8], i: usize) -> (r: Option<(Self, usize)>)
        ensures
            parsed(Self::parse(s@, i as int), r),
    {
        let slen = s.len();
        assert(s@.len() == slen);
        match take_u32(s, i) {
            Some((v0, j0)) =>
            match take_u32(s, j0) {
                Some((v1, j1)) =>
                match take_bool(s, j1) {
                    Some((v2, j2)) =>
                    Some((SNeutralCampEmpty { player_net_id: v0, camp_index: v1, state: v2 }, j2)),
                    None => None,
                },
                None => None,
            },
            None => None,
        }
    }

    /// The full game frame carrying this packet.
    pub fn to_bytes(&self, sender_net_id: u32) -> (r: Vec<u8>)
        ensures
            r@ == game_frame(0xCB, sender_net_id, self.wire()),
    {
        let mut payload: Vec<u8> = Vec::new();
        self.encode(&mut payload);
        game_frame_bytes(0xCB, sender_net_id, &payload)
    }
}

/// Wire record `SEndOfGameEvent`.
#[derive(Clone, Copy, Debug, PartialEq, Eq, Structural)]
pub struct SEndOfGameEvent {
    pub team_is_order: bool,
}

impl SEndOfGameEvent {
    pub open spec fn wire(self) -> Seq<u8> {
        wire_bool(self.team_is_order)
    }

    pub open spec fn parse(s: Seq<u8>, i: int) -> Option<(Self, int)> {
        match parse_bool(s, i) {
            Some((v0, j0)) =>
            Some((SEndOfGameEvent { team_is_order: v0 }, j0)),
            None => None,
        }
    }

    /// Parsing an encoded record restores it.
    pub proof fn lemma_parse_wire(self, s: Seq<u8>, pre: Seq<u8>, post: Seq<u8>)
        requires
            s == pre + self.wire() + post,
        ensures
            Self::parse(s, pre.len() as int) == Some((self, (pre.len() + self.wire().len()) as int)),
    {
        vstd::bytes::lemma_auto_spec_u16_to_from_le_bytes();
        vstd::bytes::lemma_auto_spec_u32_to_from_le_bytes();
        vstd::bytes::lemma_auto_spec_u64_to_from_le_bytes();
        let w0 = wire_bool(self.team_is_order);
        let rest0 = post;
        assert(s =~= pre + w0 + rest0);
        lemma_parse_wire_bool(s, pre, self.team_is_order, rest0);
    }

    pub fn encode(&self, out: &mut Vec<u8>)
        ensures
            final(out)@ == old(out)@ + self.wire(),
    {
        let ghost base = out@;
        put_bool(out, self.team_is_order);
        assert(out@ =~= base + self.wire());
    }

    pub fn decode(s: &[u8], i: usize) -> (r: Option<(Self, usize)>)
        ensures
            parsed(Self::parse(s@, i as int), r),
    {
        let slen = s.len();
        assert(s@.len() == slen);
        match take_bool(s, i) {
            Some((v0, j0)) =>
            Some((SEndOfGameEvent { team_is_order: v0 }, j0)),
            None => None,
        }
    }

    /// The full game frame carrying this packet.
    pub fn to_bytes(&self, sender_net_id: u32) -> (r: Vec<u8>)
        ensures
            r@ == game_frame(0xCD, sender_net_id, self.wire()),
    {
        let mut payload: Vec<u8> = Vec::new();
        self.encode(&mut payload);
        game_frame_bytes(0xCD, sender_net_id, &payload)
    }
}

/// Wire record `SPopAllCharacterData`.
#[derive(Clone, Copy, Debug, PartialEq, Eq, Structural)]
pub struct SPopAllCharacterData {
}

impl SPopAllCharacterData {
    pub open spec fn wire(self) -> Seq<u8> {
        Seq::empty()
    }

    pub open spec fn parse(s: Seq<u8>, i: int) -> Option<(Self, int)> {
        if 0 <= i <= s.len() {
            Some((SPopAllCharacterData {  }, i))
        } else {
            None
        }
    }

    /// Parsing an encoded record restores it.
    pub proof fn lemma_parse_wire(self, s: Seq<u8>, pre: Seq<u8>, post: Seq<u8>)
        requires
            s == pre + self.wire() + post,
        ensures
            Self::parse(s, pre.len() as int) == Some((self, (pre.len() + self.wire().len()) as int)),
    {
        vstd::bytes::lemma_auto_spec_u16_to_from_le_bytes();
        vstd::bytes::lemma_auto_spec_u32_to_from_le_bytes();
        vstd::bytes::lemma_auto_spec_u64_to_from_le_bytes();
    }

    pub fn encode(&self, out: &mut Vec<u8>)
        ensures
            final(out)@ == old(out)@ + self.wire(),
    {
        let ghost base = out@;
        assert(out@ =~= base + self.wire());
    }

    pub fn decode(s: &[u8], i: usize) -> (r: Option<(Self, usize)>)
        ensures
            parsed(Self::parse(s@, i as int), r),
    {
        let slen = s.len();
        assert(s@.len() == slen);
        if i <= slen {
            Some((SPopAllCharacterData {  }, i))
        } else {
            None
        }
    }

    /// The full game frame carrying this packet.
    pub fn to_bytes(&self, sender_net_id: u32) -> (r: Vec<u8>)
        ensures
            r@ == game_frame(0xD1, sender_net_id, self.wire()),
    {
        let mut payload: Vec<u8> = Vec::new();
        self.encode(&mut payload);
        game_frame_bytes(0xD1, sender_net_id, &payload)
    }
}

/// Wire record `SHandleUiHighlight`.
#[derive(Clone, Copy, Debug, PartialEq, Eq, Structural)]
pub struct SHandleUiHighlight {
    pub ui_highlight_command: u8,
    pub ui_element: u8,
}

impl SHandleUiHighlight {
    pub open spec fn wire(self) -> Seq<u8> {
        wire_u8(self.ui_highlight_command) + wire_u8(self.ui_element)
    }

    pub open spec fn parse(s: Seq<u8>, i: int) -> Option<(Self, int)> {
        match parse_u8(s, i) {
            Some((v0, j0)) =>
            match parse_u8(s, j0) {
                Some((v1, j1)) =>
                Some((SHandleUiHighlight { ui_highlight_command: v0, ui_element: v1 }, j1)),
                None => None,
            },
            None => None,
        }
    }

    /// Parsing an encoded record restores it.
    pub proof fn lemma_parse_wire(self, s: Seq<u8>, pre: Seq<u8>, post: Seq<u8>)
        requires
            s == pre + self.wire() + post,
        ensures
            Self::parse(s, pre.len() as int) == Some((self, (pre.len() + self.wire().len()) as int)),
    {
        vstd::bytes::lemma_auto_spec_u16_to_from_le_bytes();
        vstd::bytes::lemma_auto_spec_u32_to_from_le_bytes();
        vstd::bytes::lemma_auto_spec_u64_to_from_le_bytes();
        let w0 = wire_u8(self.ui_highlight_command);
        let w1 = wire_u8(self.ui_element);
        let rest1 = post;
        let rest0 = w1 + rest1;
        assert(s =~= pre + w0 + rest0);
        lemma_parse_wire_u8(s, pre, self.ui_highlight_command, rest0);
        let pre1 = pre + w0;
        assert(s =~= pre1 + w1 + rest1);
        lemma_parse_wire_u8(s, pre1, self.ui_element, rest1);
    }

    pub fn encode(&self, out: &mut Vec<u8>)
        ensures
            final(out)@ == old(out)@ + self.wire(),
    {
        let ghost base = out@;
        put_u8(out, self.ui_highlight_command);
        put_u8(out, self.ui_element);
        assert(out@ =~= base + self.wire());
    }

    pub fn decode(s: &[u8], i: usize) -> (r: Option<(Self, usize)>)
        ensures
            parsed(Self::parse(s@, i as int), r),
    {
        let slen = s.len();
        assert(s@.len() == slen);
        match take_u8(s, i) {
            Some((v0, j0)) =>
            match take_u8(s, j0) {
                Some((v1, j1)) =>
                Some((SHandleUiHighlight { ui_highlight_command: v0, ui_element: v1 }, j1)),
                None => None,
            },
            None => None,
        }
    }

    /// The full game frame carrying this packet.
    pub fn to_bytes(&self, sender_net_id: u32) -> (r: Vec<u8>)
        ensures
            r@ == game_frame(0xD3, sender_net_id, self.wire()),
    {
        let mut payload: Vec<u8> = Vec::new();
        self.encode(&mut payload);
        game_frame_bytes(0xD3, sender_net_id, &payload)
    }
}

/// Wire record `SShowHealthBar`.
#[derive(Clone, Copy, Debug, PartialEq, Eq, Structural)]
pub struct SShowHealthBar {
    pub show: bool,
}

impl SShowHealthBar {
    pub open spec fn wire(self) -> Seq<u8> {
        wire_bool(self.show)
    }

    pub open spec fn parse(s: Seq<u8>, i: int) -> Option<(Self, int)> {
        match parse_bool(s, i) {
            Some((v0, j0)) =>
            Some((SShowHealthBar { show: v0 }, j0)),
            None => None,
        }
    }

    /// Parsing an encoded record restores it.
    pub proof fn lemma_parse_wire(self, s: Seq<u8>, pre: Seq<u8>, post: Seq<u8>)
        requires
            s == pre + self.wire() + post,
        ensures
            Self::parse(s, pre.len() as int) == Some((self, (pre.len() + self.wire().len()) as int)),
    {
        vstd::bytes::lemma_auto_spec_u16_to_from_le_bytes();
        vstd::bytes::lemma_auto_spec_u32_to_from_le_bytes();
        vstd::bytes::lemma_auto_spec_u64_to_from_le_bytes();
        let w0 = wire_bool(self.show);
        let rest0 = post;
        assert(s =~= pre + w0 + rest0);
        lemma_parse_wire_bool(s, pre, self.show, rest0);
    }

    pub fn encode(&self, out: &mut Vec<u8>)
        ensures
            final(out)@ == old(out)@ + self.wire(),
    {
        let ghost base = out@;
        put_bool(out, self.show);
        assert(out@ =~= base + self.wire());
    }

    pub fn decode(s: &[u8], i: usize) -> (r: Option<(Self, usize)>)
        ensures
            parsed(Self::parse(s@, i as int), r),
    {
        let slen = s.len();
        assert(s@.len() == slen);
        match take_bool(s, i) {
            Some((v0, j0)) =>
            Some((SShowHealthBar { show: v0 }, j0)),
            None => None,
        }
    }

    /// The full game frame carrying this packet.
    pub fn to_bytes(&self, sender_net_id: u32) -> (r: Vec<u8>)
        ensures
            r@ == game_frame(0xD7, sender_net_id, self.wire()),
    {
        let mut payload: Vec<u8> = Vec::new();
        self.encode(&mut payload);
        game_frame_bytes(0xD7, sender_net_id, &payload)
    }
}

/// Wire record `SSpawnBot`.
#[derive(Clone, Copy, Debug, PartialEq, Eq, Structural)]
pub struct SSpawnBot {
}

impl SSpawnBot {
    pub open spec fn wire(self) -> Seq<u8> {
        Seq::empty()
    }

    pub open spec fn parse(s: Seq<u8>, i: int) -> Option<(Self, int)> {
        if 0 <= i <= s.len() {
            Some((SSpawnBot {  }, i))
        } else {
            None
        }
    }

    /// Parsing an encoded record restores it.
    pub proof fn lemma_parse_wire(self, s: Seq<u8>, pre: Seq<u8>, post: Seq<u8>)
        requires
            s == pre + self.wire() + post,
        ensures
            Self::parse(s, pre.len() as int) == Some((self, (pre.len() + self.wire().len()) as int)),
    {
        vstd::bytes::lemma_auto_spec_u16_to_from_le_bytes();
        vstd::bytes::lemma_auto_spec_u32_to_from_le_bytes();
        vstd::bytes::lemma_auto_spec_u64_to_from_le_bytes();
    }

    pub fn encode(&self, out: &mut Vec<u8>)
        ensures
            final(out)@ == old(out)@ + self.wire(),
    {
        let ghost base = out@;
        assert(out@ =~= base + self.wire());
    }

    pub fn decode(s: &[u8], i: usize) -> (r: Option<(Self, usize)>)
        ensures
            parsed(Self::parse(s@, i as int), r),
    {
        let slen = s.len();
        assert(s@.len() == slen);
        if i <= slen {
            Some((SSpawnBot {  }, i))
        } else {
            None
        }
    }

    /// The full game frame carrying this packet.
    pub fn to_bytes(&self, sender_net_id: u32) -> (r: Vec<u8>)
        ensures
            r@ == game_frame(0xD8, sender_net_id, self.wire()),
    {
        let mut payload: Vec<u8> = Vec::new();
        self.encode(&mut payload);
        game_frame_bytes(0xD8, sender_net_id, &payload)
    }
}

/// Wire record `SAttachFlexParticle`.
#[derive(Clone, Copy, Debug, PartialEq, Eq, Structural)]
pub struct SAttachFlexParticle {
    pub unit_net_id: u32,
    pub flex_id: u8,
    pub cp_index: u8,
    pub attach_type: u8,
}

impl SAttachFlexParticle {
    pub open spec fn wire(self) -> Seq<u8> {
        wire_u32(self.unit_net_id) + wire_u8(self.flex_id) + wire_u8(self.cp_index) + wire_u8(self.attach_type)
    }

    pub open spec fn parse(s: Seq<u8>, i: int) -> Option<(Self, int)> {
        match parse_u32(s, i) {
            Some((v0, j0)) =>
            match parse_u8(s, j0) {
                Some((v1, j1)) =>
                match parse_u8(s, j1) {
                    Some((v2, j2)) =>
                    match parse_u8(s, j2) {
                        Some((v3, j3)) =>
                        Some((SAttachFlexParticle { unit_net_id: v0, flex_id: v1, cp_index: v2, attach_type: v3 }, j3)),
                        None => None,
                    },
                    None => None,
                },
                None => None,
            },
            None => None,
        }
    }

    /// Parsing an encoded record restores it.
    pub proof fn lemma_parse_wire(self, s: Seq<u8>, pre: Seq<u8>, post: Seq<u8>)
        requires
            s == pre + self.wire() + post,
        ensures
            Self::parse(s, pre.len() as int) == Some((self, (pre.len() + self.wire().len()) as int)),
    {
        vstd::bytes::lemma_auto_spec_u16_to_from_le_bytes();
        vstd::bytes::lemma_auto_spec_u32_to_from_le_bytes();
        vstd::bytes::lemma_auto_spec_u64_to_from_le_bytes();
        let w0 = wire_u32(self.unit_net_id);
        let w1 = wire_u8(self.flex_id);
        let w2 = wire_u8(self.cp_index);
        let w3 = wire_u8(self.attach_type);
        let rest3 = post;
        let rest2 = w3 + rest3;
        let rest1 = w2 + rest2;
        let rest0 = w1 + rest1;
        assert(s =~= pre + w0 + rest0);
        lemma_parse_wire_u32(s, pre, self.unit_net_id, rest0);
        let pre1 = pre + w0;
        assert(s =~= pre1 + w1 + rest1);
        lemma_parse_wire_u8(s, pre1, self.flex_id, rest1);
        let pre2 = pre1 + w1;
        assert(s =~= pre2 + w2 + rest2);
        lemma_parse_wire_u8(s, pre2, self.cp_index, rest2);
        let pre3 = pre2 + w2;
        assert(s =~= pre3 + w3 + rest3);
        lemma_parse_wire_u8(s, pre3, self.attach_type, rest3);
    }

    pub fn encode(&self, out: &mut Vec<u8>)
        ensures
            final(out)@ == old(out)@ + self.wire(),
    {
        let ghost base = out@;
        put_u32(out, self.unit_net_id);
        put_u8(out, self.flex_id);
        put_u8(out, self.cp_index);
        put_u8(out, self.attach_type);
        assert(out@ =~= base + self.wire());
    }

    pub fn decode(s: &[u8], i: usize) -> (r: Option<(Self, usize)>)
        ensures
            parsed(Self::parse(s@, i as int), r),
    {
        let slen = s.len();
        assert(s@.len() == slen);
        match take_u32(s, i) {
            Some((v0, j0)) =>
            match take_u8(s, j0) {
                Some((v1, j1)) =>
                match take_u8(s, j1) {
                    Some((v2, j2)) =>
                    match take_u8(s, j2) {
                        Some((v3, j3)) =>
                        Some((SAttachFlexParticle { unit_net_id: v0, flex_id: v1, cp_index: v2, attach_type: v3 }, j3)),
                        None => None,
                    },
                    None => None,
                },
                None => None,
            },
            None => None,
        }
    }

    /// The full game frame carrying this packet.
    pub fn to_bytes(&self, sender_net_id: u32) -> (r: Vec<u8>)
        ensures
            r@ == game_frame(0xDB, sender_net_id, self.wire()),
    {
        let mut payload: Vec<u8> = Vec::new();
        self.encode(&mut payload);
        game_frame_bytes(0xDB, sender_net_id, &payload)
    }
}

/// Wire record `SHandleCapturePointUpdate`.
#[derive(Clone, Copy, Debug, PartialEq, Eq, Structural)]
pub struct SHandleCapturePointUpdate {
    pub cp_index: u8,
    pub other_net_id: u32,
    pub par_type: u8,
    pub attack_team: u32,
    pub command: u8,
}

impl SHandleCapturePointUpdate {
    pub open spec fn wire(self) -> Seq<u8> {
        wire_u8(self.cp_index) + wire_u32(self.other_net_id) + wire_u8(self.par_type) + wire_u32(self.attack_team) + wire_u8(self.command)
    }

    pub open spec fn parse(s: Seq<u8>, i: int) -> Option<(Self, int)> {
        match parse_u8(s, i) {
            Some((v0, j0)) =>
            match parse_u32(s, j0) {
                Some((v1, j1)) =>
                match parse_u8(s, j1) {
                    Some((v2, j2)) =>
                    match parse_u32(s, j2) {
                        Some((v3, j3)) =>
                        match parse_u8(s, j3) {
                            Some((v4, j4)) =>
                            Some((SHandleCapturePointUpdate { cp_index: v0, other_net_id: v1, par_type: v2, attack_team: v3, command: v4 }, j4)),
                            None => None,
                        },
                        None => None,
                    },
                    None => None,
                },
                None => None,
            },
            None => None,
        }
    }

    /// Parsing an encoded record restores it.
    pub proof fn lemma_parse_wire(self, s: Seq<u8>, pre: Seq<u8>, post: Seq<u8>)
        requires
            s == pre + self.wire() + post,
        ensures
            Self::parse(s, pre.len() as int) == Some((self, (pre.len() + self.wire().len()) as int)),
    {
        vstd::bytes::lemma_auto_spec_u16_to_from_le_bytes();
        vstd::bytes::lemma_auto_spec_u32_to_from_le_bytes();
        vstd::bytes::lemma_auto_spec_u64_to_from_le_bytes();
        let w0 = wire_u8(self.cp_index);
        let w1 = wire_u32(self.other_net_id);
        let w2 = wire_u8(self.par_type);
        let w3 = wire_u32(self.attack_team);
        let w4 = wire_u8(self.command);
        let rest4 = post;
        let rest3 = w4 + rest4;
        let rest2 = w3 + rest3;
        let rest1 = w2 + rest2;
        let rest0 = w1 + rest1;
        assert(s =~= pre + w0 + rest0);
        lemma_parse_wire_u8(s, pre, self.cp_index, rest0);
        let pre1 = pre + w0;
        assert(s =~= pre1 + w1 + rest1);
        lemma_parse_wire_u32(s, pre1, self.other_net_id, rest1);
        let pre2 = pre1 + w1;
        assert(s =~= pre2 + w2 + rest2);
        lemma_parse_wire_u8(s, pre2, self.par_type, rest2);
        let pre3 = pre2 + w2;
        assert(s =~= pre3 + w3 + rest3);
        lemma_parse_wire_u32(s, pre3, self.attack_team, rest3);
        let pre4 = pre3 + w3;
        assert(s =~= pre4 + w4 + rest4);
        lemma_parse_wire_u8(s, pre4, self.command, rest4);
    }

    pub fn encode(&self, out: &mut Vec<u8>)
        ensures
            final(out)@ == old(out)@ + self.wire(),
    {
        let ghost base = out@;
        put_u8(out, self.cp_index);
        put_u32(out, self.other_net_id);
        put_u8(out, self.par_type);
        put_u32(out, self.attack_team);
        put_u8(out, self.command);
        assert(out@ =~= base + self.wire());
    }

    pub fn decode(s: &[u8], i: usize) -> (r: Option<(Self, usize)>)
        ensures
            parsed(Self::parse(s@, i as int), r),
    {
        let slen = s.len();
        assert(s@.len() == slen);
        match take_u8(s, i) {
            Some((v0, j0)) =>
            match take_u32(s, j0) {
                Some((v1, j1)) =>
                match take_u8(s, j1) {
                    Some((v2, j2)) =>
                    match take_u32(s, j2) {
                        Some((v3, j3)) =>
                        match take_u8(s, j3) {
                            Some((v4, j4)) =>
                            Some((SHandleCapturePointUpdate { cp_index: v0, other_net_id: v1, par_type: v2, attack_team: v3, command: v4 }, j4)),
                            None => None,
                        },
                        None => None,
                    },
                    None => None,
                },
                None => None,
            },
            None => None,
        }
    }

    /// The full game frame carrying this packet.
    pub fn to_bytes(&self, sender_net_id: u32) -> (r: Vec<u8>)
        ensures
            r@ == game_frame(0xDC, sender_net_id, self.wire()),
    {
        let mut payload: Vec<u8> = Vec::new();
        self.encode(&mut payload);
        game_frame_bytes(0xDC, sender_net_id, &payload)
    }
}

/// Wire record `SHandleGameScore`.
#[derive(Clone, Copy, Debug, PartialEq, Eq, Structural)]
pub struct SHandleGameScore {
    pub team_id: u32,
    pub score: i32,
}

impl SHandleGameScore {
    pub open spec fn wire(self) -> Seq<u8> {
        wire_u32(self.team_id) + wire_i32(self.score)
    }

    pub open spec fn parse(s: Seq<u8>, i: int) -> Option<(Self, int)> {
        match parse_u32(s, i) {
            Some((v0, j0)) =>
            match parse_i32(s, j0) {
                Some((v1, j1)) =>
                Some((SHandleGameScore { team_id: v0, score: v1 }, j1)),
                None => None,
            },
            None => None,
        }
    }

    /// Parsing an encoded record restores it.
    pub proof fn lemma_parse_wire(self, s: Seq<u8>, pre: Seq<u8>, post: Seq<u8>)
        requires
            s == pre + self.wire() + post,
        ensures
            Self::parse(s, pre.len() as int) == Some((self, (pre.len() + self.wire().len()) as int)),
    {
        vstd::bytes::lemma_auto_spec_u16_to_from_le_bytes();
        vstd::bytes::lemma_auto_spec_u32_to_from_le_bytes();
        vstd::bytes::lemma_auto_spec_u64_to_from_le_bytes();
        let w0 = wire_u32(self.team_id);
        let w1 = wire_i32(self.score);
        let rest1 = post;
        let rest0 = w1 + rest1;
        assert(s =~= pre + w0 + rest0);
        lemma_parse_wire_u32(s, pre, self.team_id, rest0);
        let pre1 = pre + w0;
        assert(s =~= pre1 + w1 + rest1);
        lemma_parse_wire_i32(s, pre1, self.score, rest1);
    }

    pub fn encode(&self, out: &mut Vec<u8>)
        ensures
            final(out)@ == old(out)@ + self.wire(),
    {
        let ghost base = out@;
        put_u32(out, self.team_id);
        put_i32(out, self.score);
        assert(out@ =~= base + self.wire());
    }

    pub fn decode(s: &[u8], i: usize) -> (r: Option<(Self, usize)>)
        ensures
            parsed(Self::parse(s@, i as int), r),
    {
        let slen = s.len();
        assert(s@.len() == slen);
        match take_u32(s, i) {
            Some((v0, j0)) =>
            match take_i32(s, j0) {
                Some((v1, j1)) =>
                Some((SHandleGameScore { team_id: v0, score: v1 }, j1)),
                None => None,
            },
            None => None,
        }
    }

    /// The full game frame carrying this packet.
    pub fn to_bytes(&self, sender_net_id: u32) -> (r: Vec<u8>)
        ensures
            r@ == game_frame(0xDD, sender_net_id, self.wire()),
    {
        let mut payload: Vec<u8> = Vec::new();
        self.encode(&mut payload);
        game_frame_bytes(0xDD, sender_net_id, &payload)
    }
}

/// Wire record `SUnitChangeTeam`.
#[derive(Clone, Copy, Debug, PartialEq, Eq, Structural)]
pub struct SUnitChangeTeam {
    pub unit_net_id: u32,
    pub team_id: u32,
}

impl SUnitChangeTeam {
    pub open spec fn wire(self) -> Seq<u8> {
        wire_u32(self.unit_net_id) + wire_u32(self.team_id)
    }

    pub open spec fn parse(s: Seq<u8>, i: int) -> Option<(Self, int)> {
        match parse_u32(s, i) {
            Some((v0, j0)) =>
            match parse_u32(s, j0) {
                Some((v1, j1)) =>
                Some((SUnitChangeTeam { unit_net_id: v0, team_id: v1 }, j1)),
                None => None,
            },
            None => None,
        }
    }

    /// Parsing an encoded record restores it.
    pub proof fn lemma_parse_wire(self, s: Seq<u8>, pre: Seq<u8>, post: Seq<u8>)
        requires
            s == pre + self.wire() + post,
        ensures
            Self::parse(s, pre.len() as int) == Some((self, (pre.len() + self.wire().len()) as int)),
    {
        vstd::bytes::lemma_auto_spec_u16_to_from_le_bytes();
        vstd::bytes::lemma_auto_spec_u32_to_from_le_bytes();
        vstd::bytes::lemma_auto_spec_u64_to_from_le_bytes();
        let w0 = wire_u32(self.unit_net_id);
        let w1 = wire_u32(self.team_id);
        let rest1 = post;
        let rest0 = w1 + rest1;
        assert(s =~= pre + w0 + rest0);
        lemma_parse_wire_u32(s, pre, self.unit_net_id, rest0);
        let pre1 = pre + w0;
        assert(s =~= pre1 + w1 + rest1);
        lemma_parse_wire_u32(s, pre1, self.team_id, rest1);
    }

    pub fn encode(&self, out: &mut Vec<u8>)
        ensures
            final(out)@ == old(out)@ + self.wire(),
    {
        let ghost base = out@;
        put_u32(out, self.unit_net_id);
        put_u32(out, self.team_id);
        assert(out@ =~= base + self.wire());
    }

    pub fn decode(s: &[u8], i: usize) -> (r: Option<(Self, usize)>)
        ensures
            parsed(Self::parse(s@, i as int), r),
    {
        let slen = s.len();
        assert(s@.len() == slen);
        match take_u32(s, i) {
            Some((v0, j0)) =>
            match take_u32(s, j0) {
                Some((v1, j1)) =>
                Some((SUnitChangeTeam { unit_net_id: v0, team_id: v1 }, j1)),
                None => None,
            },
            None => None,
        }
    }

    /// The full game frame carrying this packet.
    pub fn to_bytes(&self, sender_net_id: u32) -> (r: Vec<u8>)
        ensures
            r@ == game_frame(0xE0, sender_net_id, self.wire()),
    {
        let mut payload: Vec<u8> = Vec::new();
        self.encode(&mut payload);
        game_frame_bytes(0xE0, sender_net_id, &payload)
    }
}

/// Wire record `SIncrementPlayerStat`.
#[derive(Clone, Copy, Debug, PartialEq, Eq, Structural)]
pub struct SIncrementPlayerStat {
    pub player_net_id: u32,
    pub stat_event: u8,
}

impl SIncrementPlayerStat {
    pub open spec fn wire(self) -> Seq<u8> {
        wire_u32(self.player_net_id) + wire_u8(self.stat_event)
    }

    pub open spec fn parse(s: Seq<u8>, i: int) -> Option<(Self, int)> {
        match parse_u32(s, i) {
            Some((v0, j0)) =>
            match parse_u8(s, j0) {
                Some((v1, j1)) =>
                Some((SIncrementPlayerStat { player_net_id: v0, stat_event: v1 }, j1)),
                None => None,
            },
            None => None,
        }
    }

    /// Parsing an encoded record restores it.
    pub proof fn lemma_parse_wire(self, s: Seq<u8>, pre: Seq<u8>, post: Seq<u8>)
        requires
            s == pre + self.wire() + post,
        ensures
            Self::parse(s, pre.len() as int) == Some((self, (pre.len() + self.wire().len()) as int)),
    {
        vstd::bytes::lemma_auto_spec_u16_to_from_le_bytes();
        vstd::bytes::lemma_auto_spec_u32_to_from_le_bytes();
        vstd::bytes::lemma_auto_spec_u64_to_from_le_bytes();
        let w0 = wire_u32(self.player_net_id);
        let w1 = wire_u8(self.stat_event);
        let rest1 = post;
        let rest0 = w1 + rest1;
        assert(s =~= pre + w0 + rest0);
        lemma_parse_wire_u32(s, pre, self.player_net_id, rest0);
        let pre1 = pre + w0;
        assert(s =~= pre1 + w1 + rest1);
        lemma_parse_wire_u8(s, pre1, self.stat_event, rest1);
    }

    pub fn encode(&self, out: &mut Vec<u8>)
        ensures
            final(out)@ == old(out)@ + self.wire(),
    {
        let ghost base = out@;
        put_u32(out, self.player_net_id);
        put_u8(out, self.stat_event);
        assert(out@ =~= base + self.wire());
    }

    pub fn decode(s: &[u8], i: usize) -> (r: Option<(Self, usize)>)
        ensures
            parsed(Self::parse(s@, i as int), r),
    {
        let slen = s.len();
        assert(s@.len() == slen);
        match take_u32(s, i) {
            Some((v0, j0)) =>
            match take_u8(s, j0) {
                Some((v1, j1)) =>
                Some((SIncrementPlayerStat { player_net_id: v0, stat_event: v1 }, j1)),
                None => None,
            },
            None => None,
        }
    }

    /// The full game frame carrying this packet.
    pub fn to_bytes(&self, sender_net_id: u32) -> (r: Vec<u8>)
        ensures
            r@ == game_frame(0xE3, sender_net_id, self.wire()),
    {
        let mut payload: Vec<u8> = Vec::new();
        self.encode(&mut payload);
        game_frame_bytes(0xE3, sender_net_id, &payload)
    }
}

/// Wire record `SMusicCueCommand`.
#[derive(Clone, Copy, Debug, PartialEq, Eq, Structural)]
pub struct SMusicCueCommand {
    pub music_cue_command: u8,
    pub cue_id: u32,
}

impl SMusicCueCommand {
    pub open spec fn wire(self) -> Seq<u8> {
        wire_u8(self.music_cue_command) + wire_u32(self.cue_id)
    }

    pub open spec fn parse(s: Seq<u8>, i: int) -> Option<(Self, int)> {
        match parse_u8(s, i) {
            Some((v0, j0)) =>
            match parse_u32(s, j0) {
                Some((v1, j1)) =>
                Some((SMusicCueCommand { music_cue_command: v0, cue_id: v1 }, j1)),
                None => None,
            },
            None => None,
        }
    }

    /// Parsing an encoded record restores it.
    pub proof fn lemma_parse_wire(self, s: Seq<u8>, pre: Seq<u8>, post: Seq<u8>)
        requires
            s == pre + self.wire() + post,
        ensures
            Self::parse(s, pre.len() as int) == Some((self, (pre.len() + self.wire().len()) as int)),
    {
        vstd::bytes::lemma_auto_spec_u16_to_from_le_bytes();
        vstd::bytes::lemma_auto_spec_u32_to_from_le_bytes();
        vstd::bytes::lemma_auto_spec_u64_to_from_le_bytes();
        let w0 = wire_u8(self.music_cue_command);
        let w1 = wire_u32(self.cue_id);
        let rest1 = post;
        let rest0 = w1 + rest1;
        assert(s =~= pre + w0 + rest0);
        lemma_parse_wire_u8(s, pre, self.music_cue_command, rest0);
        let pre1 = pre + w0;
        assert(s =~= pre1 + w1 + rest1);
        lemma_parse_wire_u32(s, pre1, self.cue_id, rest1);
    }

    pub fn encode(&self, out: &mut Vec<u8>)
        ensures
            final(out)@ == old(out)@ + self.wire(),
    {
        let ghost base = out@;
        put_u8(out, self.music_cue_command);
        put_u32(out, self.cue_id);
        assert(out@ =~= base + self.wire());
    }

    pub fn decode(s: &[u8], i: usize) -> (r: Option<(Self, usize)>)
        ensures
            parsed(Self::parse(s@, i as int), r),
    {
        let slen = s.len();
        assert(s@.len() == slen);
        match take_u8(s, i) {
            Some((v0, j0)) =>
            match take_u32(s, j0) {
                Some((v1, j1)) =>
                Some((SMusicCueCommand { music_cue_command: v0, cue_id: v1 }, j1)),
                None => None,
            },
            None => None,
        }
    }

    /// The full game frame carrying this packet.
    pub fn to_bytes(&self, sender_net_id: u32) -> (r: Vec<u8>)
        ensures
            r@ == game_frame(0xE5, sender_net_id, self.wire()),
    {
        let mut payload: Vec<u8> = Vec::new();
        self.encode(&mut payload);
        game_frame_bytes(0xE5, sender_net_id, &payload)
    }
}

/// Wire record `SOnEnterTeamVisibility`.
#[derive(Clone, Copy, Debug, PartialEq, Eq, Structural)]
pub struct SOnEnterTeamVisibility {
    pub visibility_team: u8,
}

impl SOnEnterTeamVisibility {
    pub open spec fn wire(self) -> Seq<u8> {
        wire_u8(self.visibility_team)
    }

    pub open spec fn parse(s: Seq<u8>, i: int) -> Option<(Self, int)> {
        match parse_u8(s, i) {
            Some((v0, j0)) =>
            Some((SOnEnterTeamVisibility { visibility_team: v0 }, j0)),
            None => None,
        }
    }

    /// Parsing an encoded record restores it.
    pub proof fn lemma_parse_wire(self, s: Seq<u8>, pre: Seq<u8>, post: Seq<u8>)
        requires
            s == pre + self.wire() + post,
        ensures
            Self::parse(s, pre.len() as int) == Some((self, (pre.len() + self.wire().len()) as int)),
    {
        vstd::bytes::lemma_auto_spec_u16_to_from_le_bytes();
        vstd::bytes::lemma_auto_spec_u32_to_from_le_bytes();
        vstd::bytes::lemma_auto_spec_u64_to_from_le_bytes();
        let w0 = wire_u8(self.visibility_team);
        let rest0 = post;
        assert(s =~= pre + w0 + rest0);
        lemma_parse_wire_u8(s, pre, self.visibility_team, rest0);
    }

    pub fn encode(&self, out: &mut Vec<u8>)
        ensures
            final(out)@ == old(out)@ + self.wire(),
    {
        let ghost base = out@;
        put_u8(out, self.visibility_team);
        assert(out@ =~= base + self.wire());
    }

    pub fn decode(s: &[u8], i: usize) -> (r: Option<(Self, usize)>)
        ensures
            parsed(Self::parse(s@, i as int), r),
    {
        let slen = s.len();
        assert(s@.len() == slen);
        match take_u8(s, i) {
            Some((v0, j0)) =>
            Some((SOnEnterTeamVisibility { visibility_team: v0 }, j0)),
            None => None,
        }
    }

    /// The full game frame carrying this packet.
    pub fn to_bytes(&self, sender_net_id: u32) -> (r: Vec<u8>)
        ensures
            r@ == game_frame(0xEE, sender_net_id, self.wire()),
    {
        let mut payload: Vec<u8> = Vec::new();
        self.encode(&mut payload);
        game_frame_bytes(0xEE, sender_net_id, &payload)
    }
}

/// Wire record `SOnLeaveTeamVisibility`.
#[derive(Clone, Copy, Debug, PartialEq, Eq, Structural)]
pub struct SOnLeaveTeamVisibility {
    pub visibility_team: u8,
}

impl SOnLeaveTeamVisibility {
    pub open spec fn wire(self) -> Seq<u8> {
        wire_u8(self.visibility_team)
    }

    pub open spec fn parse(s: Seq<u8>, i: int) -> Option<(Self, int)> {
        match parse_u8(s, i) {
            Some((v0, j0)) =>
            Some((SOnLeaveTeamVisibility { visibility_team: v0 }, j0)),
            None => None,
        }
    }

    /// Parsing an encoded record restores it.
    pub proof fn lemma_parse_wire(self, s: Seq<u8>, pre: Seq<u8>, post: Seq<u8>)
        requires
            s == pre + self.wire() + post,
        ensures
            Self::parse(s, pre.len() as int) == Some((self, (pre.len() + self.wire().len()) as int)),
    {
        vstd::bytes::lemma_auto_spec_u16_to_from_le_bytes();
        vstd::bytes::lemma_auto_spec_u32_to_from_le_bytes();
        vstd::bytes::lemma_auto_spec_u64_to_from_le_bytes();
        let w0 = wire_u8(self.visibility_team);
        let rest0 = post;
        assert(s =~= pre + w0 + rest0);
        lemma_parse_wire_u8(s, pre, self.visibility_team, rest0);
    }

    pub fn encode(&self, out: &mut Vec<u8>)
        ensures
            final(out)@ == old(out)@ + self.wire(),
    {
        let ghost base = out@;
        put_u8(out, self.visibility_team);
        assert(out@ =~= base + self.wire());
    }

    pub fn decode(s: &[u8], i: usize) -> (r: Option<(Self, usize)>)
        ensures
            parsed(Self::parse(s@, i as int), r),
    {
        let slen = s.len();
        assert(s@.len() == slen);
        match take_u8(s, i) {
            Some((v0, j0)) =>
            Some((SOnLeaveTeamVisibility { visibility_team: v0 }, j0)),
            None => None,
        }
    }

    /// The full game frame carrying this packet.
    pub fn to_bytes(&self, sender_net_id: u32) -> (r: Vec<u8>)
        ensures
            r@ == game_frame(0xEF, sender_net_id, self.wire()),
    {
        let mut payload: Vec<u8> = Vec::new();
        self.encode(&mut payload);
        game_frame_bytes(0xEF, sender_net_id, &payload)
    }
}

/// Wire record `SFxOnEnterTeamVisibility`.
#[derive(Clone, Copy, Debug, PartialEq, Eq, Structural)]
pub struct SFxOnEnterTeamVisibility {
    pub visibility_team: u8,
}

impl SFxOnEnterTeamVisibility {
    pub open spec fn wire(self) -> Seq<u8> {
        wire_u8(self.visibility_team)
    }

    pub open spec fn parse(s: Seq<u8>, i: int) -> Option<(Self, int)> {
        match parse_u8(s, i) {
            Some((v0, j0)) =>
            Some((SFxOnEnterTeamVisibility { visibility_team: v0 }, j0)),
            None => None,
        }
    }

    /// Parsing an encoded record restores it.
    pub proof fn lemma_parse_wire(self, s: Seq<u8>, pre: Seq<u8>, post: Seq<u8>)
        requires
            s == pre + self.wire() + post,
        ensures
            Self::parse(s, pre.len() as int) == Some((self, (pre.len() + self.wire().len()) as int)),
    {
        vstd::bytes::lemma_auto_spec_u16_to_from_le_bytes();
        vstd::bytes::lemma_auto_spec_u32_to_from_le_bytes();
        vstd::bytes::lemma_auto_spec_u64_to_from_le_bytes();
        let w0 = wire_u8(self.visibility_team);
        let rest0 = post;
        assert(s =~= pre + w0 + rest0);
        lemma_parse_wire_u8(s, pre, self.visibility_team, rest0);
    }

    pub fn encode(&self, out: &mut Vec<u8>)
        ensures
            final(out)@ == old(out)@ + self.wire(),
    {
        let ghost base = out@;
        put_u8(out, self.visibility_team);
        assert(out@ =~= base + self.wire());
    }

    pub fn decode(s: &[u8], i: usize) -> (r: Option<(Self, usize)>)
        ensures
            parsed(Self::parse(s@, i as int), r),
    {
        let slen = s.len();
        assert(s@.len() == slen);
        match take_u8(s, i) {
            Some((v0, j0)) =>
            Some((SFxOnEnterTeamVisibility { visibility_team: v0 }, j0)),
            None => None,
        }
    }

    /// The full game frame carrying this packet.
    pub fn to_bytes(&self, sender_net_id: u32) -> (r: Vec<u8>)
        ensures
            r@ == game_frame(0xF0, sender_net_id, self.wire()),
    {
        let mut payload: Vec<u8> = Vec::new();
        self.encode(&mut payload);
        game_frame_bytes(0xF0, sender_net_id, &payload)
    }
}

/// Wire record `SFxOnLeaveTeamVisibility`.
#[derive(Clone, Copy, Debug, PartialEq, Eq, Structural)]
pub struct SFxOnLeaveTeamVisibility {
    pub visibility_team: u8,
}

impl SFxOnLeaveTeamVisibility {
    pub open spec fn wire(self) -> Seq<u8> {
        wire_u8(self.visibility_team)
    }

    pub open spec fn parse(s: Seq<u8>, i: int) -> Option<(Self, int)> {
        match parse_u8(s, i) {
            Some((v0, j0)) =>
            Some((SFxOnLeaveTeamVisibility { visibility_team: v0 }, j0)),
            None => None,
        }
    }

    /// Parsing an encoded record restores it.
    pub proof fn lemma_parse_wire(self, s: Seq<u8>, pre: Seq<u8>, post: Seq<u8>)
        requires
            s == pre + self.wire() + post,
        ensures
            Self::parse(s, pre.len() as int) == Some((self, (pre.len() + self.wire().len()) as int)),
    {
        vstd::bytes::lemma_auto_spec_u16_to_from_le_bytes();
        vstd::bytes::lemma_auto_spec_u32_to_from_le_bytes();
        vstd::bytes::lemma_auto_spec_u64_to_from_le_bytes();
        let w0 = wire_u8(self.visibility_team);
        let rest0 = post;
        assert(s =~= pre + w0 + rest0);
        lemma_parse_wire_u8(s, pre, self.visibility_team, rest0);
    }

    pub fn encode(&self, out: &mut Vec<u8>)
        ensures
            final(out)@ == old(out)@ + self.wire(),
    {
        let ghost base = out@;
        put_u8(out, self.visibility_team);
        assert(out@ =~= base + self.wire());
    }

    pub fn decode(s: &[u8], i: usize) -> (r: Option<(Self, usize)>)
        ensures
            parsed(Self::parse(s@, i as int), r),
    {
        let slen = s.len();
        assert(s@.len() == slen);
        match take_u8(s, i) {
            Some((v0, j0)) =>
            Some((SFxOnLeaveTeamVisibility { visibility_team: v0 }, j0)),
            None => None,
        }
    }

    /// The full game frame carrying this packet.
    pub fn to_bytes(&self, sender_net_id: u32) -> (r: Vec<u8>)
        ensures
            r@ == game_frame(0xF1, sender_net_id, self.wire()),
    {
        let mut payload: Vec<u8> = Vec::new();
        self.encode(&mut payload);
        game_frame_bytes(0xF1, sender_net_id, &payload)
    }
}

/// Wire record `CTutorialAudioEventFinished`.
#[derive(Clone, Copy, Debug, PartialEq, Eq, Structural)]
pub struct CTutorialAudioEventFinished {
    pub audio_event_net_id: u32,
}

impl CTutorialAudioEventFinished {
    pub open spec fn wire(self) -> Seq<u8> {
        wire_u32(self.audio_event_net_id)
    }

    pub open spec fn parse(s: Seq<u8>, i: int) -> Option<(Self, int)> {
        match parse_u32(s, i) {
            Some((v0, j0)) =>
            Some((CTutorialAudioEventFinished { audio_event_net_id: v0 }, j0)),
            None => None,
        }
    }

    /// Parsing an encoded record restores it.
    pub proof fn lemma_parse_wire(self, s: Seq<u8>, pre: Seq<u8>, post: Seq<u8>)
        requires
            s == pre + self.wire() + post,
        ensures
            Self::parse(s, pre.len() as int) == Some((self, (pre.len() + self.wire().len()) as int)),
    {
        vstd::bytes::lemma_auto_spec_u16_to_from_le_bytes();
        vstd::bytes::lemma_auto_spec_u32_to_from_le_bytes();
        vstd::bytes::lemma_auto_spec_u64_to_from_le_bytes();
        let w0 = wire_u32(self.audio_event_net_id);
        let rest0 = post;
        assert(s =~= pre + w0 + rest0);
        lemma_parse_wire_u32(s, pre, self.audio_event_net_id, rest0);
    }

    pub fn encode(&self, out: &mut Vec<u8>)
        ensures
            final(out)@ == old(out)@ + self.wire(),
    {
        let ghost base = out@;
        put_u32(out, self.audio_event_net_id);
        assert(out@ =~= base + self.wire());
    }

    pub fn decode(s: &[u8], i: usize) -> (r: Option<(Self, usize)>)
        ensures
            parsed(Self::parse(s@, i as int), r),
    {
        let slen = s.len();
        assert(s@.len() == slen);
        match take_u32(s, i) {
            Some((v0, j0)) =>
            Some((CTutorialAudioEventFinished { audio_event_net_id: v0 }, j0)),
            None => None,
        }
    }

    /// The full game frame carrying this packet.
    pub fn to_bytes(&self, sender_net_id: u32) -> (r: Vec<u8>)
        ensures
            r@ == game_frame(0x05, sender_net_id, self.wire()),
    {
        let mut payload: Vec<u8> = Vec::new();
        self.encode(&mut payload);
        game_frame_bytes(0x05, sender_net_id, &payload)
    }
}

/// Wire record `CWriteNavFlagsAcc`.
#[derive(Clone, Copy, Debug, PartialEq, Eq, Structural)]
pub struct CWriteNavFlagsAcc {
    pub sync_id: i32,
}

impl CWriteNavFlagsAcc {
    pub open spec fn wire(self) -> Seq<u8> {
        wire_i32(self.sync_id)
    }

    pub open spec fn parse(s: Seq<u8>, i: int) -> Option<(Self, int)> {
        match parse_i32(s, i) {
            Some((v0, j0)) =>
            Some((CWriteNavFlagsAcc { sync_id: v0 }, j0)),
            None => None,
        }
    }

    /// Parsing an encoded record restores it.
    pub proof fn lemma_parse_wire(self, s: Seq<u8>, pre: Seq<u8>, post: Seq<u8>)
        requires
            s == pre + self.wire() + post,
        ensures
            Self::parse(s, pre.len() as int) == Some((self, (pre.len() + self.wire().len()) as int)),
    {
        vstd::bytes::lemma_auto_spec_u16_to_from_le_bytes();
        vstd::bytes::lemma_auto_spec_u32_to_from_le_bytes();
        vstd::bytes::lemma_auto_spec_u64_to_from_le_bytes();
        let w0 = wire_i32(self.sync_id);
        let rest0 = post;
        assert(s =~= pre + w0 + rest0);
        lemma_parse_wire_i32(s, pre, self.sync_id, rest0);
    }

    pub fn encode(&self, out: &mut Vec<u8>)
        ensures
            final(out)@ == old(out)@ + self.wire(),
    {
        let ghost base = out@;
        put_i32(out, self.sync_id);
        assert(out@ =~= base + self.wire());
    }

    pub fn decode(s: &[u8], i: usize) -> (r: Option<(Self, usize)>)
        ensures
            parsed(Self::parse(s@, i as int), r),
    {
        let slen = s.len();
        assert(s@.len() == slen);
        match take_i32(s, i) {
            Some((v0, j0)) =>
            Some((CWriteNavFlagsAcc { sync_id: v0 }, j0)),
            None => None,
        }
    }

    /// The full game frame carrying this packet.
    pub fn to_bytes(&self, sender_net_id: u32) -> (r: Vec<u8>)
        ensures
            r@ == game_frame(0x20, sender_net_id, self.wire()),
    {
        let mut payload: Vec<u8> = Vec::new();
        self.encode(&mut payload);
        game_frame_bytes(0x20, sender_net_id, &payload)
    }
}

/// Wire record `CUseObject`.
#[derive(Clone, Copy, Debug, PartialEq, Eq, Structural)]
pub struct CUseObject {
    pub target_net_id: u32,
}

impl CUseObject {
    pub open spec fn wire(self) -> Seq<u8> {
        wire_u32(self.target_net_id)
    }

    pub open spec fn parse(s: Seq<u8>, i: int) -> Option<(Self, int)> {
        match parse_u32(s, i) {
            Some((v0, j0)) =>
            Some((CUseObject { target_net_id: v0 }, j0)),
            None => None,
        }
    }

    /// Parsing an encoded record restores it.
    pub proof fn lemma_parse_wire(self, s: Seq<u8>, pre: Seq<u8>, post: Seq<u8>)
        requires
            s == pre + self.wire() + post,
        ensures
            Self::parse(s, pre.len() as int) == Some((self, (pre.len() + self.wire().len()) as int)),
    {
        vstd::bytes::lemma_auto_spec_u16_to_from_le_bytes();
        vstd::bytes::lemma_auto_spec_u32_to_from_le_bytes();
        vstd::bytes::lemma_auto_spec_u64_to_from_le_bytes();
        let w0 = wire_u32(self.target_net_id);
        let rest0 = post;
        assert(s =~= pre + w0 + rest0);
        lemma_parse_wire_u32(s, pre, self.target_net_id, rest0);
    }

    pub fn encode(&self, out: &mut Vec<u8>)
        ensures
            final(out)@ == old(out)@ + self.wire(),
    {
        let ghost base = out@;
        put_u32(out, self.target_net_id);
        assert(out@ =~= base + self.wire());
    }

    pub fn decode(s: &[u8], i: usize) -> (r: Option<(Self, usize)>)
        ensures
            parsed(Self::parse(s@, i as int), r),
    {
        let slen = s.len();
        assert(s@.len() == slen);
        match take_u32(s, i) {
            Some((v0, j0)) =>
            Some((CUseObject { target_net_id: v0 }, j0)),
            None => None,
        }
    }

    /// The full game frame carrying this packet.
    pub fn to_bytes(&self, sender_net_id: u32) -> (r: Vec<u8>)
        ensures
            r@ == game_frame(0x3F, sender_net_id, self.wire()),
    {
        let mut payload: Vec<u8> = Vec::new();
        self.encode(&mut payload);
        game_frame_bytes(0x3F, sender_net_id, &payload)
    }
}

/// Wire record `CScoreBoardOpened`.
#[derive(Clone, Copy, Debug, PartialEq, Eq, Structural)]
pub struct CScoreBoardOpened {
}

impl CScoreBoardOpened {
    pub open spec fn wire(self) -> Seq<u8> {
        Seq::empty()
    }

    pub open spec fn parse(s: Seq<u8>, i: int) -> Option<(Self, int)> {
        if 0 <= i <= s.len() {
            Some((CScoreBoardOpened {  }, i))
        } else {
            None
        }
    }

    /// Parsing an encoded record restores it.
    pub proof fn lemma_parse_wire(self, s: Seq<u8>, pre: Seq<u8>, post: Seq<u8>)
        requires
            s == pre + self.wire() + post,
        ensures
            Self::parse(s, pre.len() as int) == Some((self, (pre.len() + self.wire().len()) as int)),
    {
        vstd::bytes::lemma_auto_spec_u16_to_from_le_bytes();
        vstd::bytes::lemma_auto_spec_u32_to_from_le_bytes();
        vstd::bytes::lemma_auto_spec_u64_to_from_le_bytes();
    }

    pub fn encode(&self, out: &mut Vec<u8>)
        ensures
            final(out)@ == old(out)@ + self.wire(),
    {
        let ghost base = out@;
        assert(out@ =~= base + self.wire());
    }

    pub fn decode(s: &[u8], i: usize) -> (r: Option<(Self, usize)>)
        ensures
            parsed(Self::parse(s@, i as int), r),
    {
        let slen = s.len();
        assert(s@.len() == slen);
        if i <= slen {
            Some((CScoreBoardOpened {  }, i))
        } else {
            None
        }
    }

    /// The full game frame carrying this packet.
    pub fn to_bytes(&self, sender_net_id: u32) -> (r: Vec<u8>)
        ensures
            r@ == game_frame(0x4E, sender_net_id, self.wire()),
    {
        let mut payload: Vec<u8> = Vec::new();
        self.encode(&mut payload);
        game_frame_bytes(0x4E, sender_net_id, &payload)
    }
}

/// Wire record `CPlayEmote`.
#[derive(Clone, Copy, Debug, PartialEq, Eq, Structural)]
pub struct CPlayEmote {
    pub emote_id: u32,
}

impl CPlayEmote {
    pub open spec fn wire(self) -> Seq<u8> {
        wire_u32(self.emote_id)
    }

    pub open spec fn parse(s: Seq<u8>, i: int) -> Option<(Self, int)> {
        match parse_u32(s, i) {
            Some((v0, j0)) =>
            Some((CPlayEmote { emote_id: v0 }, j0)),
            None => None,
        }
    }

    /// Parsing an encoded record restores it.
    pub proof fn lemma_parse_wire(self, s: Seq<u8>, pre: Seq<u8>, post: Seq<u8>)
        requires
            s == pre + self.wire() + post,
        ensures
            Self::parse(s, pre.len() as int) == Some((self, (pre.len() + self.wire().len()) as int)),
    {
        vstd::bytes::lemma_auto_spec_u16_to_from_le_bytes();
        vstd::bytes::lemma_auto_spec_u32_to_from_le_bytes();
        vstd::bytes::lemma_auto_spec_u64_to_from_le_bytes();
        let w0 = wire_u32(self.emote_id);
        let rest0 = post;
        assert(s =~= pre + w0 + rest0);
        lemma_parse_wire_u32(s, pre, self.emote_id, rest0);
    }

    pub fn encode(&self, out: &mut Vec<u8>)
        ensures
            final(out)@ == old(out)@ + self.wire(),
    {
        let ghost base = out@;
        put_u32(out, self.emote_id);
        assert(out@ =~= base + self.wire());
    }

    pub fn decode(s: &[u8], i: usize) -> (r: Option<(Self, usize)>)
        ensures
            parsed(Self::parse(s@, i as int), r),
    {
        let slen = s.len();
        assert(s@.len() == slen);
        match take_u32(s, i) {
            Some((v0, j0)) =>
            Some((CPlayEmote { emote_id: v0 }, j0)),
            None => None,
        }
    }

    /// The full game frame carrying this packet.
    pub fn to_bytes(&self, sender_net_id: u32) -> (r: Vec<u8>)
        ensures
            r@ == game_frame(0x4C, sender_net_id, self.wire()),
    {
        let mut payload: Vec<u8> = Vec::new();
        self.encode(&mut payload);
        game_frame_bytes(0x4C, sender_net_id, &payload)
    }
}

/// Wire record `CShopOpened`.
#[derive(Clone, Copy, Debug, PartialEq, Eq, Structural)]
pub struct CShopOpened {
}

impl CShopOpened {
    pub open spec fn wire(self) -> Seq<u8> {
        Seq::empty()
    }

    pub open spec fn parse(s: Seq<u8>, i: int) -> Option<(Self, int)> {
        if 0 <= i <= s.len() {
            Some((CShopOpened {  }, i))
        } else {
            None
        }
    }

    /// Parsing an encoded record restores it.
    pub proof fn lemma_parse_wire(self, s: Seq<u8>, pre: Seq<u8>, post: Seq<u8>)
        requires
            s == pre + self.wire() + post,
        ensures
            Self::parse(s, pre.len() as int) == Some((self, (pre.len() + self.wire().len()) as int)),
    {
        vstd::bytes::lemma_auto_spec_u16_to_from_le_bytes();
        vstd::bytes::lemma_auto_spec_u32_to_from_le_bytes();
        vstd::bytes::lemma_auto_spec_u64_to_from_le_bytes();
    }

    pub fn encode(&self, out: &mut Vec<u8>)
        ensures
            final(out)@ == old(out)@ + self.wire(),
    {
        let ghost base = out@;
        assert(out@ =~= base + self.wire());
    }

    pub fn decode(s: &[u8], i: usize) -> (r: Option<(Self, usize)>)
        ensures
            parsed(Self::parse(s@, i as int), r),
    {
        let slen = s.len();
        assert(s@.len() == slen);
        if i <= slen {
            Some((CShopOpened {  }, i))
        } else {
            None
        }
    }

    /// The full game frame carrying this packet.
    pub fn to_bytes(&self, sender_net_id: u32) -> (r: Vec<u8>)
        ensures
            r@ == game_frame(0x60, sender_net_id, self.wire()),
    {
        let mut payload: Vec<u8> = Vec::new();
        self.encode(&mut payload);
        game_frame_bytes(0x60, sender_net_id, &payload)
    }
}

/// Wire record `CTipEvent`.
#[derive(Clone, Copy, Debug, PartialEq, Eq, Structural)]
pub struct CTipEvent {
    pub tip_command: u8,
    pub tip_id: u32,
}

impl CTipEvent {
    pub open spec fn wire(self) -> Seq<u8> {
        wire_u8(self.tip_command) + wire_u32(self.tip_id)
    }

    pub open spec fn parse(s: Seq<u8>, i: int) -> Option<(Self, int)> {
        match parse_u8(s, i) {
            Some((v0, j0)) =>
            match parse_u32(s, j0) {
                Some((v1, j1)) =>
                Some((CTipEvent { tip_command: v0, tip_id: v1 }, j1)),
                None => None,
            },
            None => None,
        }
    }

    /// Parsing an encoded record restores it.
    pub proof fn lemma_parse_wire(self, s: Seq<u8>, pre: Seq<u8>, post: Seq<u8>)
        requires
            s == pre + self.wire() + post,
        ensures
            Self::parse(s, pre.len() as int) == Some((self, (pre.len() + self.wire().len()) as int)),
    {
        vstd::bytes::lemma_auto_spec_u16_to_from_le_bytes();
        vstd::bytes::lemma_auto_spec_u32_to_from_le_bytes();
        vstd::bytes::lemma_auto_spec_u64_to_from_le_bytes();
        let w0 = wire_u8(self.tip_command);
        let w1 = wire_u32(self.tip_id);
        let rest1 = post;
        let rest0 = w1 + rest1;
        assert(s =~= pre + w0 + rest0);
        lemma_parse_wire_u8(s, pre, self.tip_command, rest0);
        let pre1 = pre + w0;
        assert(s =~= pre1 + w1 + rest1);
        lemma_parse_wire_u32(s, pre1, self.tip_id, rest1);
    }

    pub fn encode(&self, out: &mut Vec<u8>)
        ensures
            final(out)@ == old(out)@ + self.wire(),
    {
        let ghost base = out@;
        put_u8(out, self.tip_command);
        put_u32(out, self.tip_id);
        assert(out@ =~= base + self.wire());
    }

    pub fn decode(s: &[u8], i: usize) -> (r: Option<(Self, usize)>)
        ensures
            parsed(Self::parse(s@, i as int), r),
    {
        let slen = s.len();
        assert(s@.len() == slen);
        match take_u8(s, i) {
            Some((v0, j0)) =>
            match take_u32(s, j0) {
                Some((v1, j1)) =>
                Some((CTipEvent { tip_command: v0, tip_id: v1 }, j1)),
                None => None,
            },
            None => None,
        }
    }

    /// The full game frame carrying this packet.
    pub fn to_bytes(&self, sender_net_id: u32) -> (r: Vec<u8>)
        ensures
            r@ == game_frame(0x70, sender_net_id, self.wire()),
    {
        let mut payload: Vec<u8> = Vec::new();
        self.encode(&mut payload);
        game_frame_bytes(0x70, sender_net_id, &payload)
    }
}

/// Wire record `CClientFinished`.
#[derive(Clone, Copy, Debug, PartialEq, Eq, Structural)]
pub struct CClientFinished {
}

impl CClientFinished {
    pub open spec fn wire(self) -> Seq<u8> {
        Seq::empty()
    }

    pub open spec fn parse(s: Seq<u8>, i: int) -> Option<(Self, int)> {
        if 0 <= i <= s.len() {
            Some((CClientFinished {  }, i))
        } else {
            None
        }
    }

    /// Parsing an encoded record restores it.
    pub proof fn lemma_parse_wire(self, s: Seq<u8>, pre: Seq<u8>, post: Seq<u8>)
        requires
            s == pre + self.wire() + post,
        ensures
            Self::parse(s, pre.len() as int) == Some((self, (pre.len() + self.wire().len()) as int)),
    {
        vstd::bytes::lemma_auto_spec_u16_to_from_le_bytes();
        vstd::bytes::lemma_auto_spec_u32_to_from_le_bytes();
        vstd::bytes::lemma_auto_spec_u64_to_from_le_bytes();
    }

    pub fn encode(&self, out: &mut Vec<u8>)
        ensures
            final(out)@ == old(out)@ + self.wire(),
    {
        let ghost base = out@;
        assert(out@ =~= base + self.wire());
    }

    pub fn decode(s: &[u8], i: usize) -> (r: Option<(Self, usize)>)
        ensures
            parsed(Self::parse(s@, i as int), r),
    {
        let slen = s.len();
        assert(s@.len() == slen);
        if i <= slen {
            Some((CClientFinished {  }, i))
        } else {
            None
        }
    }

    /// The full game frame carrying this packet.
    pub fn to_bytes(&self, sender_net_id: u32) -> (r: Vec<u8>)
        ensures
            r@ == game_frame(0x91, sender_net_id, self.wire()),
    {
        let mut payload: Vec<u8> = Vec::new();
        self.encode(&mut payload);
        game_frame_bytes(0x91, sender_net_id, &payload)
    }
}

/// Wire record `CClientConnectNamedPipe`.
#[derive(Clone, Copy, Debug, PartialEq, Eq, Structural)]
pub struct CClientConnectNamedPipe {
}

impl CClientConnectNamedPipe {
    pub open spec fn wire(self) -> Seq<u8> {
        Seq::empty()
    }

    pub open spec fn parse(s: Seq<u8>, i: int) -> Option<(Self, int)> {
        if 0 <= i <= s.len() {
            Some((CClientConnectNamedPipe {  }, i))
        } else {
            None
        }
    }

    /// Parsing an encoded record restores it.
    pub proof fn lemma_parse_wire(self, s: Seq<u8>, pre: Seq<u8>, post: Seq<u8>)
        requires
            s == pre + self.wire() + post,
        ensures
            Self::parse(s, pre.len() as int) == Some((self, (pre.len() + self.wire().len()) as int)),
    {
        vstd::bytes::lemma_auto_spec_u16_to_from_le_bytes();
        vstd::bytes::lemma_auto_spec_u32_to_from_le_bytes();
        vstd::bytes::lemma_auto_spec_u64_to_from_le_bytes();
    }

    pub fn encode(&self, out: &mut Vec<u8>)
        ensures
            final(out)@ == old(out)@ + self.wire(),
    {
        let ghost base = out@;
        assert(out@ =~= base + self.wire());
    }

    pub fn decode(s: &[u8], i: usize) -> (r: Option<(Self, usize)>)
        ensures
            parsed(Self::parse(s@, i as int), r),
    {
        let slen = s.len();
        assert(s@.len() == slen);
        if i <= slen {
            Some((CClientConnectNamedPipe {  }, i))
        } else {
            None
        }
    }

    /// The full game frame carrying this packet.
    pub fn to_bytes(&self, sender_net_id: u32) -> (r: Vec<u8>)
        ensures
            r@ == game_frame(0x9A, sender_net_id, self.wire()),
    {
        let mut payload: Vec<u8> = Vec::new();
        self.encode(&mut payload);
        game_frame_bytes(0x9A, sender_net_id, &payload)
    }
}

/// Wire record `CTeamSurrenderVote`.
#[derive(Clone, Copy, Debug, PartialEq, Eq, Structural)]
pub struct CTeamSurrenderVote {
    pub voted_yes: bool,
}

impl CTeamSurrenderVote {
    pub open spec fn wire(self) -> Seq<u8> {
        wire_bool(self.voted_yes)
    }

    pub open spec fn parse(s: Seq<u8>, i: int) -> Option<(Self, int)> {
        match parse_bool(s, i) {
            Some((v0, j0)) =>
            Some((CTeamSurrenderVote { voted_yes: v0 }, j0)),
            None => None,
        }
    }

    /// Parsing an encoded record restores it.
    pub proof fn lemma_parse_wire(self, s: Seq<u8>, pre: Seq<u8>, post: Seq<u8>)
        requires
            s == pre + self.wire() + post,
        ensures
            Self::parse(s, pre.len() as int) == Some((self, (pre.len() + self.wire().len()) as int)),
    {
        vstd::bytes::lemma_auto_spec_u16_to_from_le_bytes();
        vstd::bytes::lemma_auto_spec_u32_to_from_le_bytes();
        vstd::bytes::lemma_auto_spec_u64_to_from_le_bytes();
        let w0 = wire_bool(self.voted_yes);
        let rest0 = post;
        assert(s =~= pre + w0 + rest0);
        lemma_parse_wire_bool(s, pre, self.voted_yes, rest0);
    }

    pub fn encode(&self, out: &mut Vec<u8>)
        ensures
            final(out)@ == old(out)@ + self.wire(),
    {
        let ghost base = out@;
        put_bool(out, self.voted_yes);
        assert(out@ =~= base + self.wire());
    }

    pub fn decode(s: &[u8], i: usize) -> (r: Option<(Self, usize)>)
        ensures
            parsed(Self::parse(s@, i as int), r),
    {
        let slen = s.len();
        assert(s@.len() == slen);
        match take_bool(s, i) {
            Some((v0, j0)) =>
            Some((CTeamSurrenderVote { voted_yes: v0 }, j0)),
            None => None,
        }
    }

    /// The full game frame carrying this packet.
    pub fn to_bytes(&self, sender_net_id: u32) -> (r: Vec<u8>)
        ensures
            r@ == game_frame(0xA4, sender_net_id, self.wire()),
    {
        let mut payload: Vec<u8> = Vec::new();
        self.encode(&mut payload);
        game_frame_bytes(0xA4, sender_net_id, &payload)
    }
}

/// Wire record `CTutorialPopupClosed`.
#[derive(Clone, Copy, Debug, PartialEq, Eq, Structural)]
pub struct CTutorialPopupClosed {
}

impl CTutorialPopupClosed {
    pub open spec fn wire(self) -> Seq<u8> {
        Seq::empty()
    }

    pub open spec fn parse(s: Seq<u8>, i: int) -> Option<(Self, int)> {
        if 0 <= i <= s.len() {
            Some((CTutorialPopupClosed {  }, i))
        } else {
            None
        }
    }

    /// Parsing an encoded record restores it.
    pub proof fn lemma_parse_wire(self, s: Seq<u8>, pre: Seq<u8>, post: Seq<u8>)
        requires
            s == pre + self.wire() + post,
        ensures
            Self::parse(s, pre.len() as int) == Some((self, (pre.len() + self.wire().len()) as int)),
    {
        vstd::bytes::lemma_auto_spec_u16_to_from_le_bytes();
        vstd::bytes::lemma_auto_spec_u32_to_from_le_bytes();
        vstd::bytes::lemma_auto_spec_u64_to_from_le_bytes();
    }

    pub fn encode(&self, out: &mut Vec<u8>)
        ensures
            final(out)@ == old(out)@ + self.wire(),
    {
        let ghost base = out@;
        assert(out@ =~= base + self.wire());
    }

    pub fn decode(s: &[u8], i: usize) -> (r: Option<(Self, usize)>)
        ensures
            parsed(Self::parse(s@, i as int), r),
    {
        let slen = s.len();
        assert(s@.len() == slen);
        if i <= slen {
            Some((CTutorialPopupClosed {  }, i))
        } else {
            None
        }
    }

    /// The full game frame carrying this packet.
    pub fn to_bytes(&self, sender_net_id: u32) -> (r: Vec<u8>)
        ensures
            r@ == game_frame(0xD5, sender_net_id, self.wire()),
    {
        let mut payload: Vec<u8> = Vec::new();
        self.encode(&mut payload);
        game_frame_bytes(0xD5, sender_net_id, &payload)
    }
}

/// Wire record `CQuestEvent`.
#[derive(Clone, Copy, Debug, PartialEq, Eq, Structural)]
pub struct CQuestEvent {
    pub quest_event: u8,
    pub quest_id: u32,
}

impl CQuestEvent {
    pub open spec fn wire(self) -> Seq<u8> {
        wire_u8(self.quest_event) + wire_u32(self.quest_id)
    }

    pub open spec fn parse(s: Seq<u8>, i: int) -> Option<(Self, int)> {
        match parse_u8(s, i) {
            Some((v0, j0)) =>
            match parse_u32(s, j0) {
                Some((v1, j1)) =>
                Some((CQuestEvent { quest_event: v0, quest_id: v1 }, j1)),
                None => None,
            },
            None => None,
        }
    }

    /// Parsing an encoded record restores it.
    pub proof fn lemma_parse_wire(self, s: Seq<u8>, pre: Seq<u8>, post: Seq<u8>)
        requires
            s == pre + self.wire() + post,
        ensures
            Self::parse(s, pre.len() as int) == Some((self, (pre.len() + self.wire().len()) as int)),
    {
        vstd::bytes::lemma_auto_spec_u16_to_from_le_bytes();
        vstd::bytes::lemma_auto_spec_u32_to_from_le_bytes();
        vstd::bytes::lemma_auto_spec_u64_to_from_le_bytes();
        let w0 = wire_u8(self.quest_event);
        let w1 = wire_u32(self.quest_id);
        let rest1 = post;
        let rest0 = w1 + rest1;
        assert(s =~= pre + w0 + rest0);
        lemma_parse_wire_u8(s, pre, self.quest_event, rest0);
        let pre1 = pre + w0;
        assert(s =~= pre1 + w1 + rest1);
        lemma_parse_wire_u32(s, pre1, self.quest_id, rest1);
    }

    pub fn encode(&self, out: &mut Vec<u8>)
        ensures
            final(out)@ == old(out)@ + self.wire(),
    {
        let ghost base = out@;
        put_u8(out, self.quest_event);
        put_u32(out, self.quest_id);
        assert(out@ =~= base + self.wire());
    }

    pub fn decode(s: &[u8], i: usize) -> (r: Option<(Self, usize)>)
        ensures
            parsed(Self::parse(s@, i as int), r),
    {
        let slen = s.len();
        assert(s@.len() == slen);
        match take_u8(s, i) {
            Some((v0, j0)) =>
            match take_u32(s, j0) {
                Some((v1, j1)) =>
                Some((CQuestEvent { quest_event: v0, quest_id: v1 }, j1)),
                None => None,
            },
            None => None,
        }
    }

    /// The full game frame carrying this packet.
    pub fn to_bytes(&self, sender_net_id: u32) -> (r: Vec<u8>)
        ensures
            r@ == game_frame(0xD6, sender_net_id, self.wire()),
    {
        let mut payload: Vec<u8> = Vec::new();
        self.encode(&mut payload);
        game_frame_bytes(0xD6, sender_net_id, &payload)
    }
}

/// Wire record `CRespawnPointEvent`.
#[derive(Clone, Copy, Debug, PartialEq, Eq, Structural)]
pub struct CRespawnPointEvent {
    pub respawn_point_event: u8,
    pub respawn_point_ui_element_id: u8,
}

impl CRespawnPointEvent {
    pub open spec fn wire(self) -> Seq<u8> {
        wire_u8(self.respawn_point_event) + wire_u8(self.respawn_point_ui_element_id)
    }

    pub open spec fn parse(s: Seq<u8>, i: int) -> Option<(Self, int)> {
        match parse_u8(s, i) {
            Some((v0, j0)) =>
            match parse_u8(s, j0) {
                Some((v1, j1)) =>
                Some((CRespawnPointEvent { respawn_point_event: v0, respawn_point_ui_element_id: v1 }, j1)),
                None => None,
            },
            None => None,
        }
    }

    /// Parsing an encoded record restores it.
    pub proof fn lemma_parse_wire(self, s: Seq<u8>, pre: Seq<u8>, post: Seq<u8>)
        requires
            s == pre + self.wire() + post,
        ensures
            Self::parse(s, pre.len() as int) == Some((self, (pre.len() + self.wire().len()) as int)),
    {
        vstd::bytes::lemma_auto_spec_u16_to_from_le_bytes();
        vstd::bytes::lemma_auto_spec_u32_to_from_le_bytes();
        vstd::bytes::lemma_auto_spec_u64_to_from_le_bytes();
        let w0 = wire_u8(self.respawn_point_event);
        let w1 = wire_u8(self.respawn_point_ui_element_id);
        let rest1 = post;
        let rest0 = w1 + rest1;
        assert(s =~= pre + w0 + rest0);
        lemma_parse_wire_u8(s, pre, self.respawn_point_event, rest0);
        let pre1 = pre + w0;
        assert(s =~= pre1 + w1 + rest1);
        lemma_parse_wire_u8(s, pre1, self.respawn_point_ui_element_id, rest1);
    }

    pub fn encode(&self, out: &mut Vec<u8>)
        ensures
            final(out)@ == old(out)@ + self.wire(),
    {
        let ghost base = out@;
        put_u8(out, self.respawn_point_event);
        put_u8(out, self.respawn_point_ui_element_id);
        assert(out@ =~= base + self.wire());
    }

    pub fn decode(s: &[u8], i: usize) -> (r: Option<(Self, usize)>)
        ensures
            parsed(Self::parse(s@, i as int), r),
    {
        let slen = s.len();
        assert(s@.len() == slen);
        match take_u8(s, i) {
            Some((v0, j0)) =>
            match take_u8(s, j0) {
                Some((v1, j1)) =>
                Some((CRespawnPointEvent { respawn_point_event: v0, respawn_point_ui_element_id: v1 }, j1)),
                None => None,
            },
            None => None,
        }
    }

    /// The full game frame carrying this packet.
    pub fn to_bytes(&self, sender_net_id: u32) -> (r: Vec<u8>)
        ensures
            r@ == game_frame(0xDF, sender_net_id, self.wire()),
    {
        let mut payload: Vec<u8> = Vec::new();
        self.encode(&mut payload);
        game_frame_bytes(0xDF, sender_net_id, &payload)
    }
}

/// Wire record `SRemoveItemAns`.
#[derive(Clone, Copy, Debug, PartialEq, Eq, Structural)]
pub struct SRemoveItemAns {
    pub slot: u8,
    pub items_in_slit: u8,
}

impl SRemoveItemAns {
    pub open spec fn wire(self) -> Seq<u8> {
        wire_u8(self.slot) + wire_u8(self.items_in_slit)
    }

    pub open spec fn parse(s: Seq<u8>, i: int) -> Option<(Self, int)> {
        match parse_u8(s, i) {
            Some((v0, j0)) =>
            match parse_u8(s, j0) {
                Some((v1, j1)) =>
                Some((SRemoveItemAns { slot: v0, items_in_slit: v1 }, j1)),
                None => None,
            },
            None => None,
        }
    }

    /// Parsing an encoded record restores it.
    pub proof fn lemma_parse_wire(self, s: Seq<u8>, pre: Seq<u8>, post: Seq<u8>)
        requires
            s == pre + self.wire() + post,
        ensures
            Self::parse(s, pre.len() as int) == Some((self, (pre.len() + self.wire().len()) as int)),
    {
        vstd::bytes::lemma_auto_spec_u16_to_from_le_bytes();
        vstd::bytes::lemma_auto_spec_u32_to_from_le_bytes();
        vstd::bytes::lemma_auto_spec_u64_to_from_le_bytes();
        let w0 = wire_u8(self.slot);
        let w1 = wire_u8(self.items_in_slit);
        let rest1 = post;
        let rest0 = w1 + rest1;
        assert(s =~= pre + w0 + rest0);
        lemma_parse_wire_u8(s, pre, self.slot, rest0);
        let pre1 = pre + w0;
        assert(s =~= pre1 + w1 + rest1);
        lemma_parse_wire_u8(s, pre1, self.items_in_slit, rest1);
    }

    pub fn encode(&self, out: &mut Vec<u8>)
        ensures
            final(out)@ == old(out)@ + self.wire(),
    {
        let ghost base = out@;
        put_u8(out, self.slot);
        put_u8(out, self.items_in_slit);
        assert(out@ =~= base + self.wire());
    }

    pub fn decode(s: &[u8], i: usize) -> (r: Option<(Self, usize)>)
        ensures
            parsed(Self::parse(s@, i as int), r),
    {
        let slen = s.len();
        assert(s@.len() == slen);
        match take_u8(s, i) {
            Some((v0, j0)) =>
            match take_u8(s, j0) {
                Some((v1, j1)) =>
                Some((SRemoveItemAns { slot: v0, items_in_slit: v1 }, j1)),
                None => None,
            },
            None => None,
        }
    }

    /// The full game frame carrying this packet.
    pub fn to_bytes(&self, sender_net_id: u32) -> (r: Vec<u8>)
        ensures
            r@ == game_frame(0x0B, sender_net_id, self.wire()),
    {
        let mut payload: Vec<u8> = Vec::new();
        self.encode(&mut payload);
        game_frame_bytes(0x0B, sender_net_id, &payload)
    }
}

/// Wire record `SNpcUpgradeSpellAns`.
#[derive(Clone, Copy, Debug, PartialEq, Eq, Structural)]
pub struct SNpcUpgradeSpellAns {
    pub slot: u8,
    pub spell_level: u8,
    pub skill_points: u8,
}

impl SNpcUpgradeSpellAns {
    pub open spec fn wire(self) -> Seq<u8> {
        wire_u8(self.slot) + wire_u8(self.spell_level) + wire_u8(self.skill_points)
    }

    pub open spec fn parse(s: Seq<u8>, i: int) -> Option<(Self, int)> {
        match parse_u8(s, i) {
            Some((v0, j0)) =>
            match parse_u8(s, j0) {
                Some((v1, j1)) =>
                match parse_u8(s, j1) {
                    Some((v2, j2)) =>
                    Some((SNpcUpgradeSpellAns { slot: v0, spell_level: v1, skill_points: v2 }, j2)),
                    None => None,
                },
                None => None,
            },
            None => None,
        }
    }

    /// Parsing an encoded record restores it.
    pub proof fn lemma_parse_wire(self, s: Seq<u8>, pre: Seq<u8>, post: Seq<u8>)
        requires
            s == pre + self.wire() + post,
        ensures
            Self::parse(s, pre.len() as int) == Some((self, (pre.len() + self.wire().len()) as int)),
    {
        vstd::bytes::lemma_auto_spec_u16_to_from_le_bytes();
        vstd::bytes::lemma_auto_spec_u32_to_from_le_bytes();
        vstd::bytes::lemma_auto_spec_u64_to_from_le_bytes();
        let w0 = wire_u8(self.slot);
        let w1 = wire_u8(self.spell_level);
        let w2 = wire_u8(self.skill_points);
        let rest2 = post;
        let rest1 = w2 + rest2;
        let rest0 = w1 + rest1;
        assert(s =~= pre + w0 + rest0);
        lemma_parse_wire_u8(s, pre, self.slot, rest0);
        let pre1 = pre + w0;
        assert(s =~= pre1 + w1 + rest1);
        lemma_parse_wire_u8(s, pre1, self.spell_level, rest1);
        let pre2 = pre1 + w1;
        assert(s =~= pre2 + w2 + rest2);
        lemma_parse_wire_u8(s, pre2, self.skill_points, rest2);
    }

    pub fn encode(&self, out: &mut Vec<u8>)
        ensures
            final(out)@ == old(out)@ + self.wire(),
    {
        let ghost base = out@;
        put_u8(out, self.slot);
        put_u8(out, self.spell_level);
        put_u8(out, self.skill_points);
        assert(out@ =~= base + self.wire());
    }

    pub fn decode(s: &[u8], i: usize) -> (r: Option<(Self, usize)>)
        ensures
            parsed(Self::parse(s@, i as int), r),
    {
        let slen = s.len();
        assert(s@.len() == slen);
        match take_u8(s, i) {
            Some((v0, j0)) =>
            match take_u8(s, j0) {
                Some((v1, j1)) =>
                match take_u8(s, j1) {
                    Some((v2, j2)) =>
                    Some((SNpcUpgradeSpellAns { slot: v0, spell_level: v1, skill_points: v2 }, j2)),
                    None => None,
                },
                None => None,
            },
            None => None,
        }
    }

    /// The full game frame carrying this packet.
    pub fn to_bytes(&self, sender_net_id: u32) -> (r: Vec<u8>)
        ensures
            r@ == game_frame(0x18, sender_net_id, self.wire()),
    {
        let mut payload: Vec<u8> = Vec::new();
        self.encode(&mut payload);
        game_frame_bytes(0x18, sender_net_id, &payload)
    }
}

/// Wire record `CSwapItemAns`.
#[derive(Clone, Copy, Debug, PartialEq, Eq, Structural)]
pub struct CSwapItemAns {
    pub source: u8,
    pub destination: u8,
}

impl CSwapItemAns {
    pub open spec fn wire(self) -> Seq<u8> {
        wire_u8(self.source) + wire_u8(self.destination)
    }

    pub open spec fn parse(s: Seq<u8>, i: int) -> Option<(Self, int)> {
        match parse_u8(s, i) {
            Some((v0, j0)) =>
            match parse_u8(s, j0) {
                Some((v1, j1)) =>
                Some((CSwapItemAns { source: v0, destination: v1 }, j1)),
                None => None,
            },
            None => None,
        }
    }

    /// Parsing an encoded record restores it.
    pub proof fn lemma_parse_wire(self, s: Seq<u8>, pre: Seq<u8>, post: Seq<u8>)
        requires
            s == pre + self.wire() + post,
        ensures
            Self::parse(s, pre.len() as int) == Some((self, (pre.len() + self.wire().len()) as int)),
    {
        vstd::bytes::lemma_auto_spec_u16_to_from_le_bytes();
        vstd::bytes::lemma_auto_spec_u32_to_from_le_bytes();
        vstd::bytes::lemma_auto_spec_u64_to_from_le_bytes();
        let w0 = wire_u8(self.source);
        let w1 = wire_u8(self.destination);
        let rest1 = post;
        let rest0 = w1 + rest1;
        assert(s =~= pre + w0 + rest0);
        lemma_parse_wire_u8(s, pre, self.source, rest0);
        let pre1 = pre + w0;
        assert(s =~= pre1 + w1 + rest1);
        lemma_parse_wire_u8(s, pre1, self.destination, rest1);
    }

    pub fn encode(&self, out: &mut Vec<u8>)
        ensures
            final(out)@ == old(out)@ + self.wire(),
    {
        let ghost base = out@;
        put_u8(out, self.source);
        put_u8(out, self.destination);
        assert(out@ =~= base + self.wire());
    }

    pub fn decode(s: &[u8], i: usize) -> (r: Option<(Self, usize)>)
        ensures
            parsed(Self::parse(s@, i as int), r),
    {
        let slen = s.len();
        assert(s@.len() == slen);
        match take_u8(s, i) {
            Some((v0, j0)) =>
            match take_u8(s, j0) {
                Some((v1, j1)) =>
                Some((CSwapItemAns { source: v0, destination: v1 }, j1)),
                None => None,
            },
            None => None,
        }
    }

    /// The full game frame carrying this packet.
    pub fn to_bytes(&self, sender_net_id: u32) -> (r: Vec<u8>)
        ensures
            r@ == game_frame(0x44, sender_net_id, self.wire()),
    {
        let mut payload: Vec<u8> = Vec::new();
        self.encode(&mut payload);
        game_frame_bytes(0x44, sender_net_id, &payload)
    }
}

/// Wire record `SBuyItemAns`.
#[derive(Clone, Copy, Debug, PartialEq, Eq, Structural)]
pub struct SBuyItemAns {
    pub slot: u8,
    pub item_id: u32,
    pub items_in_slot: u8,
    pub use_on_bought: bool,
}

impl SBuyItemAns {
    pub open spec fn wire(self) -> Seq<u8> {
        wire_u8(self.slot) + wire_u32(self.item_id) + wire_u8(self.items_in_slot) + wire_bool(self.use_on_bought)
    }

    pub open spec fn parse(s: Seq<u8>, i: int) -> Option<(Self, int)> {
        match parse_u8(s, i) {
            Some((v0, j0)) =>
            match parse_u32(s, j0) {
                Some((v1, j1)) =>
                match parse_u8(s, j1) {
                    Some((v2, j2)) =>
                    match parse_bool(s, j2) {
                        Some((v3, j3)) =>
                        Some((SBuyItemAns { slot: v0, item_id: v1, items_in_slot: v2, use_on_bought: v3 }, j3)),
                        None => None,
                    },
                    None => None,
                },
                None => None,
            },
            None => None,
        }
    }

    /// Parsing an encoded record restores it.
    pub proof fn lemma_parse_wire(self, s: Seq<u8>, pre: Seq<u8>, post: Seq<u8>)
        requires
            s == pre + self.wire() + post,
        ensures
            Self::parse(s, pre.len() as int) == Some((self, (pre.len() + self.wire().len()) as int)),
    {
        vstd::bytes::lemma_auto_spec_u16_to_from_le_bytes();
        vstd::bytes::lemma_auto_spec_u32_to_from_le_bytes();
        vstd::bytes::lemma_auto_spec_u64_to_from_le_bytes();
        let w0 = wire_u8(self.slot);
        let w1 = wire_u32(self.item_id);
        let w2 = wire_u8(self.items_in_slot);
        let w3 = wire_bool(self.use_on_bought);
        let rest3 = post;
        let rest2 = w3 + rest3;
        let rest1 = w2 + rest2;
        let rest0 = w1 + rest1;
        assert(s =~= pre + w0 + rest0);
        lemma_parse_wire_u8(s, pre, self.slot, rest0);
        let pre1 = pre + w0;
        assert(s =~= pre1 + w1 + rest1);
        lemma_parse_wire_u32(s, pre1, self.item_id, rest1);
        let pre2 = pre1 + w1;
        assert(s =~= pre2 + w2 + rest2);
        lemma_parse_wire_u8(s, pre2, self.items_in_slot, rest2);
        let pre3 = pre2 + w2;
        assert(s =~= pre3 + w3 + rest3);
        lemma_parse_wire_bool(s, pre3, self.use_on_bought, rest3);
    }

    pub fn encode(&self, out: &mut Vec<u8>)
        ensures
            final(out)@ == old(out)@ + self.wire(),
    {
        let ghost base = out@;
        put_u8(out, self.slot);
        put_u32(out, self.item_id);
        put_u8(out, self.items_in_slot);
        put_bool(out, self.use_on_bought);
        assert(out@ =~= base + self.wire());
    }

    pub fn decode(s: &[u8], i: usize) -> (r: Option<(Self, usize)>)
        ensures
            parsed(Self::parse(s@, i as int), r),
    {
        let slen = s.len();
        assert(s@.len() == slen);
        match take_u8(s, i) {
            Some((v0, j0)) =>
            match take_u32(s, j0) {
                Some((v1, j1)) =>
                match take_u8(s, j1) {
                    Some((v2, j2)) =>
                    match take_bool(s, j2) {
                        Some((v3, j3)) =>
                        Some((SBuyItemAns { slot: v0, item_id: v1, items_in_slot: v2, use_on_bought: v3 }, j3)),
                        None => None,
                    },
                    None => None,
                },
                None => None,
            },
            None => None,
        }
    }

    /// The full game frame carrying this packet.
    pub fn to_bytes(&self, sender_net_id: u32) -> (r: Vec<u8>)
        ensures
            r@ == game_frame(0x72, sender_net_id, self.wire()),
    {
        let mut payload: Vec<u8> = Vec::new();
        self.encode(&mut payload);
        game_frame_bytes(0x72, sender_net_id, &payload)
    }
}

/// Wire record `CUseItemAns`.
#[derive(Clone, Copy, Debug, PartialEq, Eq, Structural)]
pub struct CUseItemAns {
    pub target_net_id: u32,
}

impl CUseItemAns {
    pub open spec fn wire(self) -> Seq<u8> {
        wire_u32(self.target_net_id)
    }

    pub open spec fn parse(s: Seq<u8>, i: int) -> Option<(Self, int)> {
        match parse_u32(s, i) {
            Some((v0, j0)) =>
            Some((CUseItemAns { target_net_id: v0 }, j0)),
            None => None,
        }
    }

    /// Parsing an encoded record restores it.
    pub proof fn lemma_parse_wire(self, s: Seq<u8>, pre: Seq<u8>, post: Seq<u8>)
        requires
            s == pre + self.wire() + post,
        ensures
            Self::parse(s, pre.len() as int) == Some((self, (pre.len() + self.wire().len()) as int)),
    {
        vstd::bytes::lemma_auto_spec_u16_to_from_le_bytes();
        vstd::bytes::lemma_auto_spec_u32_to_from_le_bytes();
        vstd::bytes::lemma_auto_spec_u64_to_from_le_bytes();
        let w0 = wire_u32(self.target_net_id);
        let rest0 = post;
        assert(s =~= pre + w0 + rest0);
        lemma_parse_wire_u32(s, pre, self.target_net_id, rest0);
    }

    pub fn encode(&self, out: &mut Vec<u8>)
        ensures
            final(out)@ == old(out)@ + self.wire(),
    {
        let ghost base = out@;
        put_u32(out, self.target_net_id);
        assert(out@ =~= base + self.wire());
    }

    pub fn decode(s: &[u8], i: usize) -> (r: Option<(Self, usize)>)
        ensures
            parsed(Self::parse(s@, i as int), r),
    {
        let slen = s.len();
        assert(s@.len() == slen);
        match take_u32(s, i) {
            Some((v0, j0)) =>
            Some((CUseItemAns { target_net_id: v0 }, j0)),
            None => None,
        }
    }

    /// The full game frame carrying this packet.
    pub fn to_bytes(&self, sender_net_id: u32) -> (r: Vec<u8>)
        ensures
            r@ == game_frame(0xA7, sender_net_id, self.wire()),
    {
        let mut payload: Vec<u8> = Vec::new();
        self.encode(&mut payload);
        game_frame_bytes(0xA7, sender_net_id, &payload)
    }
}

/// Wire record `CSwapItemReq`.
#[derive(Clone, Copy, Debug, PartialEq, Eq, Structural)]
pub struct CSwapItemReq {
    pub source: u8,
    pub destination: u8,
}

impl CSwapItemReq {
    pub open spec fn wire(self) -> Seq<u8> {
        wire_u8(self.source) + wire_u8(self.destination)
    }

    pub open spec fn parse(s: Seq<u8>, i: int) -> Option<(Self, int)> {
        match parse_u8(s, i) {
            Some((v0, j0)) =>
            match parse_u8(s, j0) {
                Some((v1, j1)) =>
                Some((CSwapItemReq { source: v0, destination: v1 }, j1)),
                None => None,
            },
            None => None,
        }
    }

    /// Parsing an encoded record restores it.
    pub proof fn lemma_parse_wire(self, s: Seq<u8>, pre: Seq<u8>, post: Seq<u8>)
        requires
            s == pre + self.wire() + post,
        ensures
            Self::parse(s, pre.len() as int) == Some((self, (pre.len() + self.wire().len()) as int)),
    {
        vstd::bytes::lemma_auto_spec_u16_to_from_le_bytes();
        vstd::bytes::lemma_auto_spec_u32_to_from_le_bytes();
        vstd::bytes::lemma_auto_spec_u64_to_from_le_bytes();
        let w0 = wire_u8(self.source);
        let w1 = wire_u8(self.destination);
        let rest1 = post;
        let rest0 = w1 + rest1;
        assert(s =~= pre + w0 + rest0);
        lemma_parse_wire_u8(s, pre, self.source, rest0);
        let pre1 = pre + w0;
        assert(s =~= pre1 + w1 + rest1);
        lemma_parse_wire_u8(s, pre1, self.destination, rest1);
    }

    pub fn encode(&self, out: &mut Vec<u8>)
        ensures
            final(out)@ == old(out)@ + self.wire(),
    {
        let ghost base = out@;
        put_u8(out, self.source);
        put_u8(out, self.destination);
        assert(out@ =~= base + self.wire());
    }

    pub fn decode(s: &[u8], i: usize) -> (r: Option<(Self, usize)>)
        ensures
            parsed(Self::parse(s@, i as int), r),
    {
        let slen = s.len();
        assert(s@.len() == slen);
        match take_u8(s, i) {
            Some((v0, j0)) =>
            match take_u8(s, j0) {
                Some((v1, j1)) =>
                Some((CSwapItemReq { source: v0, destination: v1 }, j1)),
                None => None,
            },
            None => None,
        }
    }

    /// The full game frame carrying this packet.
    pub fn to_bytes(&self, sender_net_id: u32) -> (r: Vec<u8>)
        ensures
            r@ == game_frame(0x23, sender_net_id, self.wire()),
    {
        let mut payload: Vec<u8> = Vec::new();
        self.encode(&mut payload);
        game_frame_bytes(0x23, sender_net_id, &payload)
    }
}

/// Wire record `CNpcUpgradeSpellReq`.
#[derive(Clone, Copy, Debug, PartialEq, Eq, Structural)]
pub struct CNpcUpgradeSpellReq {
    pub slot: u8,
}

impl CNpcUpgradeSpellReq {
    pub open spec fn wire(self) -> Seq<u8> {
        wire_u8(self.slot)
    }

    pub open spec fn parse(s: Seq<u8>, i: int) -> Option<(Self, int)> {
        match parse_u8(s, i) {
            Some((v0, j0)) =>
            Some((CNpcUpgradeSpellReq { slot: v0 }, j0)),
            None => None,
        }
    }

    /// Parsing an encoded record restores it.
    pub proof fn lemma_parse_wire(self, s: Seq<u8>, pre: Seq<u8>, post: Seq<u8>)
        requires
            s == pre + self.wire() + post,
        ensures
            Self::parse(s, pre.len() as int) == Some((self, (pre.len() + self.wire().len()) as int)),
    {
        vstd::bytes::lemma_auto_spec_u16_to_from_le_bytes();
        vstd::bytes::lemma_auto_spec_u32_to_from_le_bytes();
        vstd::bytes::lemma_auto_spec_u64_to_from_le_bytes();
        let w0 = wire_u8(self.slot);
        let rest0 = post;
        assert(s =~= pre + w0 + rest0);
        lemma_parse_wire_u8(s, pre, self.slot, rest0);
    }

    pub fn encode(&self, out: &mut Vec<u8>)
        ensures
            final(out)@ == old(out)@ + self.wire(),
    {
        let ghost base = out@;
        put_u8(out, self.slot);
        assert(out@ =~= base + self.wire());
    }

    pub fn decode(s: &[u8], i: usize) -> (r: Option<(Self, usize)>)
        ensures
            parsed(Self::parse(s@, i as int), r),
    {
        let slen = s.len();
        assert(s@.len() == slen);
        match take_u8(s, i) {
            Some((v0, j0)) =>
            Some((CNpcUpgradeSpellReq { slot: v0 }, j0)),
            None => None,
        }
    }

    /// The full game frame carrying this packet.
    pub fn to_bytes(&self, sender_net_id: u32) -> (r: Vec<u8>)
        ensures
            r@ == game_frame(0x3E, sender_net_id, self.wire()),
    {
        let mut payload: Vec<u8> = Vec::new();
        self.encode(&mut payload);
        game_frame_bytes(0x3E, sender_net_id, &payload)
    }
}

/// Wire record `CStatsUpdateReq`.
#[derive(Clone, Copy, Debug, PartialEq, Eq, Structural)]
pub struct CStatsUpdateReq {
}

impl CStatsUpdateReq {
    pub open spec fn wire(self) -> Seq<u8> {
        Seq::empty()
    }

    pub open spec fn parse(s: Seq<u8>, i: int) -> Option<(Self, int)> {
        if 0 <= i <= s.len() {
            Some((CStatsUpdateReq {  }, i))
        } else {
            None
        }
    }

    /// Parsing an encoded record restores it.
    pub proof fn lemma_parse_wire(self, s: Seq<u8>, pre: Seq<u8>, post: Seq<u8>)
        requires
            s == pre + self.wire() + post,
        ensures
            Self::parse(s, pre.len() as int) == Some((self, (pre.len() + self.wire().len()) as int)),
    {
        vstd::bytes::lemma_auto_spec_u16_to_from_le_bytes();
        vstd::bytes::lemma_auto_spec_u32_to_from_le_bytes();
        vstd::bytes::lemma_auto_spec_u64_to_from_le_bytes();
    }

    pub fn encode(&self, out: &mut Vec<u8>)
        ensures
            final(out)@ == old(out)@ + self.wire(),
    {
        let ghost base = out@;
        assert(out@ =~= base + self.wire());
    }

    pub fn decode(s: &[u8], i: usize) -> (r: Option<(Self, usize)>)
        ensures
            parsed(Self::parse(s@, i as int), r),
    {
        let slen = s.len();
        assert(s@.len() == slen);
        if i <= slen {
            Some((CStatsUpdateReq {  }, i))
        } else {
            None
        }
    }

    /// The full game frame carrying this packet.
    pub fn to_bytes(&self, sender_net_id: u32) -> (r: Vec<u8>)
        ensures
            r@ == game_frame(0x59, sender_net_id, self.wire()),
    {
        let mut payload: Vec<u8> = Vec::new();
        self.encode(&mut payload);
        game_frame_bytes(0x59, sender_net_id, &payload)
    }
}

/// Wire record `CBuyItemReq`.
#[derive(Clone, Copy, Debug, PartialEq, Eq, Structural)]
pub struct CBuyItemReq {
    pub item_id: u32,
}

impl CBuyItemReq {
    pub open spec fn wire(self) -> Seq<u8> {
        wire_u32(self.item_id)
    }

    pub open spec fn parse(s: Seq<u8>, i: int) -> Option<(Self, int)> {
        match parse_u32(s, i) {
            Some((v0, j0)) =>
            Some((CBuyItemReq { item_id: v0 }, j0)),
            None => None,
        }
    }

    /// Parsing an encoded record restores it.
    pub proof fn lemma_parse_wire(self, s: Seq<u8>, pre: Seq<u8>, post: Seq<u8>)
        requires
            s == pre + self.wire() + post,
        ensures
            Self::parse(s, pre.len() as int) == Some((self, (pre.len() + self.wire().len()) as int)),
    {
        vstd::bytes::lemma_auto_spec_u16_to_from_le_bytes();
        vstd::bytes::lemma_auto_spec_u32_to_from_le_bytes();
        vstd::bytes::lemma_auto_spec_u64_to_from_le_bytes();
        let w0 = wire_u32(self.item_id);
        let rest0 = post;
        assert(s =~= pre + w0 + rest0);
        lemma_parse_wire_u32(s, pre, self.item_id, rest0);
    }

    pub fn encode(&self, out: &mut Vec<u8>)
        ensures
            final(out)@ == old(out)@ + self.wire(),
    {
        let ghost base = out@;
        put_u32(out, self.item_id);
        assert(out@ =~= base + self.wire());
    }

    pub fn decode(s: &[u8], i: usize) -> (r: Option<(Self, usize)>)
        ensures
            parsed(Self::parse(s@, i as int), r),
    {
        let slen = s.len();
        assert(s@.len() == slen);
        match take_u32(s, i) {
            Some((v0, j0)) =>
            Some((CBuyItemReq { item_id: v0 }, j0)),
            None => None,
        }
    }

    /// The full game frame carrying this packet.
    pub fn to_bytes(&self, sender_net_id: u32) -> (r: Vec<u8>)
        ensures
            r@ == game_frame(0x87, sender_net_id, self.wire()),
    {
        let mut payload: Vec<u8> = Vec::new();
        self.encode(&mut payload);
        game_frame_bytes(0x87, sender_net_id, &payload)
    }
}

/// Wire record `BaseEvent`.
#[derive(Clone, Copy, Debug, PartialEq, Eq, Structural)]
pub struct BaseEvent {
}

impl BaseEvent {
    pub open spec fn wire(self) -> Seq<u8> {
        Seq::empty()
    }

    pub open spec fn parse(s: Seq<u8>, i: int) -> Option<(Self, int)> {
        if 0 <= i <= s.len() {
            Some((BaseEvent {  }, i))
        } else {
            None
        }
    }

    /// Parsing an encoded record restores it.
    pub proof fn lemma_parse_wire(self, s: Seq<u8>, pre: Seq<u8>, post: Seq<u8>)
        requires
            s == pre + self.wire() + post,
        ensures
            Self::parse(s, pre.len() as int) == Some((self, (pre.len() + self.wire().len()) as int)),
    {
        vstd::bytes::lemma_auto_spec_u16_to_from_le_bytes();
        vstd::bytes::lemma_auto_spec_u32_to_from_le_bytes();
        vstd::bytes::lemma_auto_spec_u64_to_from_le_bytes();
    }

    pub fn encode(&self, out: &mut Vec<u8>)
        ensures
            final(out)@ == old(out)@ + self.wire(),
    {
        let ghost base = out@;
        assert(out@ =~= base + self.wire());
    }

    pub fn decode(s: &[u8], i: usize) -> (r: Option<(Self, usize)>)
        ensures
            parsed(Self::parse(s@, i as int), r),
    {
        let slen = s.len();
        assert(s@.len() == slen);
        if i <= slen {
            Some((BaseEvent {  }, i))
        } else {
            None
        }
    }
}

/// Wire record `BuffAddGroupEntry`.
#[derive(Clone, Copy, Debug, PartialEq, Eq, Structural)]
pub struct BuffAddGroupEntry {
    pub unit_net_id: u32,
    pub caster_net_id: u32,
    pub buff_slot: u8,
    pub count: u8,
    pub is_hidden: bool,
}

impl BuffAddGroupEntry {
    pub open spec fn wire(self) -> Seq<u8> {
        wire_u32(self.unit_net_id) + wire_u32(self.caster_net_id) + wire_u8(self.buff_slot) + wire_u8(self.count) + wire_bool(self.is_hidden)
    }

    pub open spec fn parse(s: Seq<u8>, i: int) -> Option<(Self, int)> {
        match parse_u32(s, i) {
            Some((v0, j0)) =>
            match parse_u32(s, j0) {
                Some((v1, j1)) =>
                match parse_u8(s, j1) {
                    Some((v2, j2)) =>
                    match parse_u8(s, j2) {
                        Some((v3, j3)) =>
                        match parse_bool(s, j3) {
                            Some((v4, j4)) =>
                            Some((BuffAddGroupEntry { unit_net_id: v0, caster_net_id: v1, buff_slot: v2, count: v3, is_hidden: v4 }, j4)),
                            None => None,
                        },
                        None => None,
                    },
                    None => None,
                },
                None => None,
            },
            None => None,
        }
    }

    /// Parsing an encoded record restores it.
    pub proof fn lemma_parse_wire(self, s: Seq<u8>, pre: Seq<u8>, post: Seq<u8>)
        requires
            s == pre + self.wire() + post,
        ensures
            Self::parse(s, pre.len() as int) == Some((self, (pre.len() + self.wire().len()) as int)),
    {
        vstd::bytes::lemma_auto_spec_u16_to_from_le_bytes();
        vstd::bytes::lemma_auto_spec_u32_to_from_le_bytes();
        vstd::bytes::lemma_auto_spec_u64_to_from_le_bytes();
        let w0 = wire_u32(self.unit_net_id);
        let w1 = wire_u32(self.caster_net_id);
        let w2 = wire_u8(self.buff_slot);
        let w3 = wire_u8(self.count);
        let w4 = wire_bool(self.is_hidden);
        let rest4 = post;
        let rest3 = w4 + rest4;
        let rest2 = w3 + rest3;
        let rest1 = w2 + rest2;
        let rest0 = w1 + rest1;
        assert(s =~= pre + w0 + rest0);
        lemma_parse_wire_u32(s, pre, self.unit_net_id, rest0);
        let pre1 = pre + w0;
        assert(s =~= pre1 + w1 + rest1);
        lemma_parse_wire_u32(s, pre1, self.caster_net_id, rest1);
        let pre2 = pre1 + w1;
        assert(s =~= pre2 + w2 + rest2);
        lemma_parse_wire_u8(s, pre2, self.buff_slot, rest2);
        let pre3 = pre2 + w2;
        assert(s =~= pre3 + w3 + rest3);
        lemma_parse_wire_u8(s, pre3, self.count, rest3);
        let pre4 = pre3 + w3;
        assert(s =~= pre4 + w4 + rest4);
        lemma_parse_wire_bool(s, pre4, self.is_hidden, rest4);
    }

    pub fn encode(&self, out: &mut Vec<u8>)
        ensures
            final(out)@ == old(out)@ + self.wire(),
    {
        let ghost base = out@;
        put_u32(out, self.unit_net_id);
        put_u32(out, self.caster_net_id);
        put_u8(out, self.buff_slot);
        put_u8(out, self.count);
        put_bool(out, self.is_hidden);
        assert(out@ =~= base + self.wire());
    }

    pub fn decode(s: &[u8], i: usize) -> (r: Option<(Self, usize)>)
        ensures
            parsed(Self::parse(s@, i as int), r),
    {
        let slen = s.len();
        assert(s@.len() == slen);
        match take_u32(s, i) {
            Some((v0, j0)) =>
            match take_u32(s, j0) {
                Some((v1, j1)) =>
                match take_u8(s, j1) {
                    Some((v2, j2)) =>
                    match take_u8(s, j2) {
                        Some((v3, j3)) =>
                        match take_bool(s, j3) {
                            Some((v4, j4)) =>
                            Some((BuffAddGroupEntry { unit_net_id: v0, caster_net_id: v1, buff_slot: v2, count: v3, is_hidden: v4 }, j4)),
                            None => None,
                        },
                        None => None,
                    },
                    None => None,
                },
                None => None,
            },
            None => None,
        }
    }
}

/// Wire record `BuffRemoveGroupEntry`.
#[derive(Clone, Copy, Debug, PartialEq, Eq, Structural)]
pub struct BuffRemoveGroupEntry {
    pub unit_net_id: u32,
    pub buff_slot: u8,
}

impl BuffRemoveGroupEntry {
    pub open spec fn wire(self) -> Seq<u8> {
        wire_u32(self.unit_net_id) + wire_u8(self.buff_slot)
    }

    pub open spec fn parse(s: Seq<u8>, i: int) -> Option<(Self, int)> {
        match parse_u32(s, i) {
            Some((v0, j0)) =>
            match parse_u8(s, j0) {
                Some((v1, j1)) =>
                Some((BuffRemoveGroupEntry { unit_net_id: v0, buff_slot: v1 }, j1)),
                None => None,
            },
            None => None,
        }
    }

    /// Parsing an encoded record restores it.
    pub proof fn lemma_parse_wire(self, s: Seq<u8>, pre: Seq<u8>, post: Seq<u8>)
        requires
            s == pre + self.wire() + post,
        ensures
            Self::parse(s, pre.len() as int) == Some((self, (pre.len() + self.wire().len()) as int)),
    {
        vstd::bytes::lemma_auto_spec_u16_to_from_le_bytes();
        vstd::bytes::lemma_auto_spec_u32_to_from_le_bytes();
        vstd::bytes::lemma_auto_spec_u64_to_from_le_bytes();
        let w0 = wire_u32(self.unit_net_id);
        let w1 = wire_u8(self.buff_slot);
        let rest1 = post;
        let rest0 = w1 + rest1;
        assert(s =~= pre + w0 + rest0);
        lemma_parse_wire_u32(s, pre, self.unit_net_id, rest0);
        let pre1 = pre + w0;
        assert(s =~= pre1 + w1 + rest1);
        lemma_parse_wire_u8(s, pre1, self.buff_slot, rest1);
    }

    pub fn encode(&self, out: &mut Vec<u8>)
        ensures
            final(out)@ == old(out)@ + self.wire(),
    {
        let ghost base = out@;
        put_u32(out, self.unit_net_id);
        put_u8(out, self.buff_slot);
        assert(out@ =~= base + self.wire());
    }

    pub fn decode(s: &[u8], i: usize) -> (r: Option<(Self, usize)>)
        ensures
            parsed(Self::parse(s@, i as int), r),
    {
        let slen = s.len();
        assert(s@.len() == slen);
        match take_u32(s, i) {
            Some((v0, j0)) =>
            match take_u8(s, j0) {
                Some((v1, j1)) =>
                Some((BuffRemoveGroupEntry { unit_net_id: v0, buff_slot: v1 }, j1)),
                None => None,
            },
            None => None,
        }
    }
}

/// Wire record `BuffReplaceGroupEntry`.
#[derive(Clone, Copy, Debug, PartialEq, Eq, Structural)]
pub struct BuffReplaceGroupEntry {
    pub unit_net_id: u32,
    pub caster_net_id: u32,
    pub buff_slot: u8,
}

impl BuffReplaceGroupEntry {
    pub open spec fn wire(self) -> Seq<u8> {
        wire_u32(self.unit_net_id) + wire_u32(self.caster_net_id) + wire_u8(self.buff_slot)
    }

    pub open spec fn parse(s: Seq<u8>, i: int) -> Option<(Self, int)> {
        match parse_u32(s, i) {
            Some((v0, j0)) =>
            match parse_u32(s, j0) {
                Some((v1, j1)) =>
                match parse_u8(s, j1) {
                    Some((v2, j2)) =>
                    Some((BuffReplaceGroupEntry { unit_net_id: v0, caster_net_id: v1, buff_slot: v2 }, j2)),
                    None => None,
                },
                None => None,
            },
            None => None,
        }
    }

    /// Parsing an encoded record restores it.
    pub proof fn lemma_parse_wire(self, s: Seq<u8>, pre: Seq<u8>, post: Seq<u8>)
        requires
            s == pre + self.wire() + post,
        ensures
            Self::parse(s, pre.len() as int) == Some((self, (pre.len() + self.wire().len()) as int)),
    {
        vstd::bytes::lemma_auto_spec_u16_to_from_le_bytes();
        vstd::bytes::lemma_auto_spec_u32_to_from_le_bytes();
        vstd::bytes::lemma_auto_spec_u64_to_from_le_bytes();
        let w0 = wire_u32(self.unit_net_id);
        let w1 = wire_u32(self.caster_net_id);
        let w2 = wire_u8(self.buff_slot);
        let rest2 = post;
        let rest1 = w2 + rest2;
        let rest0 = w1 + rest1;
        assert(s =~= pre + w0 + rest0);
        lemma_parse_wire_u32(s, pre, self.unit_net_id, rest0);
        let pre1 = pre + w0;
        assert(s =~= pre1 + w1 + rest1);
        lemma_parse_wire_u32(s, pre1, self.caster_net_id, rest1);
        let pre2 = pre1 + w1;
        assert(s =~= pre2 + w2 + rest2);
        lemma_parse_wire_u8(s, pre2, self.buff_slot, rest2);
    }

    pub fn encode(&self, out: &mut Vec<u8>)
        ensures
            final(out)@ == old(out)@ + self.wire(),
    {
        let ghost base = out@;
        put_u32(out, self.unit_net_id);
        put_u32(out, self.caster_net_id);
        put_u8(out, self.buff_slot);
        assert(out@ =~= base + self.wire());
    }

    pub fn decode(s: &[u8], i: usize) -> (r: Option<(Self, usize)>)
        ensures
            parsed(Self::parse(s@, i as int), r),
    {
        let slen = s.len();
        assert(s@.len() == slen);
        match take_u32(s, i) {
            Some((v0, j0)) =>
            match take_u32(s, j0) {
                Some((v1, j1)) =>
                match take_u8(s, j1) {
                    Some((v2, j2)) =>
                    Some((BuffReplaceGroupEntry { unit_net_id: v0, caster_net_id: v1, buff_slot: v2 }, j2)),
                    None => None,
                },
                None => None,
            },
            None => None,
        }
    }
}

/// Wire record `BuffUpdateCountGroupEntry`.
#[derive(Clone, Copy, Debug, PartialEq, Eq, Structural)]
pub struct BuffUpdateCountGroupEntry {
    pub unit_net_id: u32,
    pub caster_net_id: u32,
    pub buff_slot: u8,
    pub count: u8,
}

impl BuffUpdateCountGroupEntry {
    pub open spec fn wire(self) -> Seq<u8> {
        wire_u32(self.unit_net_id) + wire_u32(self.caster_net_id) + wire_u8(self.buff_slot) + wire_u8(self.count)
    }

    pub open spec fn parse(s: Seq<u8>, i: int) -> Option<(Self, int)> {
        match parse_u32(s, i) {
            Some((v0, j0)) =>
            match parse_u32(s, j0) {
                Some((v1, j1)) =>
                match parse_u8(s, j1) {
                    Some((v2, j2)) =>
                    match parse_u8(s, j2) {
                        Some((v3, j3)) =>
                        Some((BuffUpdateCountGroupEntry { unit_net_id: v0, caster_net_id: v1, buff_slot: v2, count: v3 }, j3)),
                        None => None,
                    },
                    None => None,
                },
                None => None,
            },
            None => None,
        }
    }

    /// Parsing an encoded record restores it.
    pub proof fn lemma_parse_wire(self, s: Seq<u8>, pre: Seq<u8>, post: Seq<u8>)
        requires
            s == pre + self.wire() + post,
        ensures
            Self::parse(s, pre.len() as int) == Some((self, (pre.len() + self.wire().len()) as int)),
    {
        vstd::bytes::lemma_auto_spec_u16_to_from_le_bytes();
        vstd::bytes::lemma_auto_spec_u32_to_from_le_bytes();
        vstd::bytes::lemma_auto_spec_u64_to_from_le_bytes();
        let w0 = wire_u32(self.unit_net_id);
        let w1 = wire_u32(self.caster_net_id);
        let w2 = wire_u8(self.buff_slot);
        let w3 = wire_u8(self.count);
        let rest3 = post;
        let rest2 = w3 + rest3;
        let rest1 = w2 + rest2;
        let rest0 = w1 + rest1;
        assert(s =~= pre + w0 + rest0);
        lemma_parse_wire_u32(s, pre, self.unit_net_id, rest0);
        let pre1 = pre + w0;
        assert(s =~= pre1 + w1 + rest1);
        lemma_parse_wire_u32(s, pre1, self.caster_net_id, rest1);
        let pre2 = pre1 + w1;
        assert(s =~= pre2 + w2 + rest2);
        lemma_parse_wire_u8(s, pre2, self.buff_slot, rest2);
        let pre3 = pre2 + w2;
        assert(s =~= pre3 + w3 + rest3);
        lemma_parse_wire_u8(s, pre3, self.count, rest3);
    }

    pub fn encode(&self, out: &mut Vec<u8>)
        ensures
            final(out)@ == old(out)@ + self.wire(),
    {
        let ghost base = out@;
        put_u32(out, self.unit_net_id);
        put_u32(out, self.caster_net_id);
        put_u8(out, self.buff_slot);
        put_u8(out, self.count);
        assert(out@ =~= base + self.wire());
    }

    pub fn decode(s: &[u8], i: usize) -> (r: Option<(Self, usize)>)
        ensures
            parsed(Self::parse(s@, i as int), r),
    {
        let slen = s.len();
        assert(s@.len() == slen);
        match take_u32(s, i) {
            Some((v0, j0)) =>
            match take_u32(s, j0) {
                Some((v1, j1)) =>
                match take_u8(s, j1) {
                    Some((v2, j2)) =>
                    match take_u8(s, j2) {
                        Some((v3, j3)) =>
                        Some((BuffUpdateCountGroupEntry { unit_net_id: v0, caster_net_id: v1, buff_slot: v2, count: v3 }, j3)),
                        None => None,
                    },
                    None => None,
                },
                None => None,
            },
            None => None,
        }
    }
}

// ---------------------------------------------------------------------------
// runs of buff-removal entries
// ---------------------------------------------------------------------------

/// The wire image of a run of buff-removal entries, front first.
pub open spec fn wire_buff_remove_entries(l: Seq<BuffRemoveGroupEntry>) -> Seq<u8>
    decreases l.len(),
{
    if l.len() == 0 {
        Seq::empty()
    } else {
        l[0].wire() + wire_buff_remove_entries(l.drop_first())
    }
}

/// Parse a run of `count` buff-removal entries.
pub open spec fn parse_buff_remove_entries(s: Seq<u8>, i: int, count: int) -> Option<
    (Seq<BuffRemoveGroupEntry>, int),
>
    decreases count,
{
    if count <= 0 {
        Some((Seq::empty(), i))
    } else {
        match BuffRemoveGroupEntry::parse(s, i) {
            Some((e, j)) => match parse_buff_remove_entries(s, j, count - 1) {
                Some((rest, k)) => Some((seq![e] + rest, k)),
                None => None,
            },
            None => None,
        }
    }
}

/// Appending one entry extends the wire image at the back.
pub proof fn lemma_wire_buff_remove_entries_snoc(l: Seq<BuffRemoveGroupEntry>, e: BuffRemoveGroupEntry)
    ensures
        wire_buff_remove_entries(l.push(e)) == wire_buff_remove_entries(l) + e.wire(),
    decreases l.len(),
{
    let lp = l.push(e);
    assert(lp[0] == if l.len() == 0 { e } else { l[0] });
    assert(wire_buff_remove_entries(Seq::<BuffRemoveGroupEntry>::empty()) == Seq::<u8>::empty());
    if l.len() == 0 {
        assert(lp.drop_first() =~= Seq::<BuffRemoveGroupEntry>::empty());
        assert(wire_buff_remove_entries(lp.drop_first()) == Seq::<u8>::empty());
        assert(wire_buff_remove_entries(lp) == lp[0].wire() + wire_buff_remove_entries(lp.drop_first()));
        assert(wire_buff_remove_entries(lp) =~= wire_buff_remove_entries(l) + e.wire());
    } else {
        assert(lp.drop_first() =~= l.drop_first().push(e));
        lemma_wire_buff_remove_entries_snoc(l.drop_first(), e);
        assert(wire_buff_remove_entries(lp) == l[0].wire() + wire_buff_remove_entries(lp.drop_first()));
        assert(wire_buff_remove_entries(lp) =~= wire_buff_remove_entries(l) + e.wire());
    }
}

/// Parsing an encoded run of its own length restores it.
pub proof fn lemma_parse_wire_buff_remove_entries(
    l: Seq<BuffRemoveGroupEntry>,
    s: Seq<u8>,
    pre: Seq<u8>,
    post: Seq<u8>,
)
    requires
        s == pre + wire_buff_remove_entries(l) + post,
    ensures
        parse_buff_remove_entries(s, pre.len() as int, l.len() as int) == Some(
            (l, (pre.len() + wire_buff_remove_entries(l).len()) as int),
        ),
    decreases l.len(),
{
    if l.len() == 0 {
        assert(l =~= Seq::<BuffRemoveGroupEntry>::empty());
    } else {
        let e = l[0];
        let rest = l.drop_first();
        let tail = wire_buff_remove_entries(rest);
        assert(s =~= pre + e.wire() + (tail + post));
        e.lemma_parse_wire(s, pre, tail + post);
        let pre2 = pre + e.wire();
        assert(s =~= pre2 + tail + post);
        lemma_parse_wire_buff_remove_entries(rest, s, pre2, post);
        assert(seq![e] + rest =~= l);
    }
}

/// One unfolding of [`parse_buff_remove_entries`] at a step whose entry
/// parsed.
pub proof fn lemma_parse_buff_remove_entries_step(
    s: Seq<u8>,
    i: int,
    count: int,
    e: BuffRemoveGroupEntry,
    j: int,
)
    requires
        count > 0,
        BuffRemoveGroupEntry::parse(s, i) == Some((e, j)),
    ensures
        parse_buff_remove_entries(s, i, count) == (match parse_buff_remove_entries(s, j, count - 1) {
            Some((rest, k)) => Some((seq![e] + rest, k)),
            None => None::<(Seq<BuffRemoveGroupEntry>, int)>,
        }),
{
}

/// One unfolding of [`parse_buff_remove_entries`] at a step whose entry
/// failed.
pub proof fn lemma_parse_buff_remove_entries_fail(s: Seq<u8>, i: int, count: int)
    requires
        count > 0,
        BuffRemoveGroupEntry::parse(s, i) is None,
    ensures
        parse_buff_remove_entries(s, i, count) is None,
{
}

/// Append the wire image of a run of buff-removal entries.
pub fn put_buff_remove_entries(out: &mut Vec<u8>, l: &Vec<BuffRemoveGroupEntry>)
    ensures
        final(out)@ == old(out)@ + wire_buff_remove_entries(l@),
{
    let ghost base = out@;
    let mut t: usize = 0;
    while t < l.len()
        invariant
            t <= l@.len(),
            out@ == base + wire_buff_remove_entries(l@.subrange(0, t as int)),
        decreases l@.len() - t,
    {
        l[t].encode(out);
        proof {
            lemma_wire_buff_remove_entries_snoc(l@.subrange(0, t as int), l@[t as int]);
            assert(l@.subrange(0, t as int).push(l@[t as int]) =~= l@.subrange(0, t as int + 1));
            assert(out@ =~= base + wire_buff_remove_entries(l@.subrange(0, t as int + 1)));
        }
        t += 1;
    }
    assert(l@.subrange(0, l@.len() as int) =~= l@);
}

/// Decode a run of `count` buff-removal entries.
pub fn take_buff_remove_entries(s: &[u8], i: usize, count: usize) -> (r: Option<
    (Vec<BuffRemoveGroupEntry>, usize),
>)
    ensures
        match parse_buff_remove_entries(s@, i as int, count as int) {
            Some((l, j)) => r is Some && r->Some_0.0@ == l && r->Some_0.1 == j,
            None => r is None,
        },
{
    let slen = s.len();
    assert(s@.len() == slen);
    let mut acc: Vec<BuffRemoveGroupEntry> = Vec::new();
    let mut cur = i;
    let mut t: usize = 0;
    while t < count
        invariant
            t <= count,
            s@.len() <= usize::MAX,
            acc@.len() == t,
            match parse_buff_remove_entries(s@, cur as int, count - t) {
                Some((rest, j)) => parse_buff_remove_entries(s@, i as int, count as int) == Some(
                    (acc@ + rest, j),
                ),
                None => parse_buff_remove_entries(s@, i as int, count as int) is None,
            },
        decreases count - t,
    {
        let ghost old_cur = cur as int;
        match BuffRemoveGroupEntry::decode(s, cur) {
            Some((v, j)) => {
                proof {
                    lemma_parse_buff_remove_entries_step(s@, old_cur, count - t, v, j as int);
                }
                acc.push(v);
                cur = j;
            },
            None => {
                proof {
                    lemma_parse_buff_remove_entries_fail(s@, old_cur, count - t);
                }
                return None;
            },
        }
        t += 1;
        proof {
            if parse_buff_remove_entries(s@, cur as int, count - t) is Some {
                let (rest, j) = parse_buff_remove_entries(s@, cur as int, count - t)->Some_0;
                assert(acc@.subrange(0, t - 1 as int) + (seq![acc@[t - 1 as int]] + rest) =~= acc@
                    + rest);
            }
        }
    }
    proof {
        assert(parse_buff_remove_entries(s@, cur as int, 0) == Some(
            (Seq::<BuffRemoveGroupEntry>::empty(), cur as int),
        ));
        assert(acc@ + Seq::<BuffRemoveGroupEntry>::empty() =~= acc@);
    }
    Some((acc, cur))
}

/// Missile hit list: the struck net ids behind a 16-bit count.
#[derive(Clone, Debug, PartialEq, Eq)]
pub struct SLineMissileHitList {
    pub target_net_ids: Vec<u32>,
}

pub struct SLineMissileHitListView {
    pub target_net_ids: Seq<u32>,
}

impl View for SLineMissileHitList {
    type V = SLineMissileHitListView;

    open spec fn view(&self) -> SLineMissileHitListView {
        SLineMissileHitListView { target_net_ids: self.target_net_ids@ }
    }
}

impl SLineMissileHitListView {
    pub open spec fn valid(self) -> bool {
        self.target_net_ids.len() <= u16::MAX
    }

    pub open spec fn wire(self) -> Seq<u8> {
        crate::wire::wire_u16(self.target_net_ids.len() as u16) + crate::list::wire_u32s(
            self.target_net_ids,
        )
    }

    pub open spec fn parse(s: Seq<u8>, i: int) -> Option<(Self, int)> {
        match crate::wire::parse_u16(s, i) {
            Some((n, j0)) => match crate::list::parse_u32s(s, j0, n as int) {
                Some((ids, j1)) => Some((SLineMissileHitListView { target_net_ids: ids }, j1)),
                None => None,
            },
            None => None,
        }
    }

    /// Parsing an encoded record restores it.
    pub proof fn lemma_parse_wire(self, s: Seq<u8>, pre: Seq<u8>, post: Seq<u8>)
        requires
            self.valid(),
            s == pre + self.wire() + post,
        ensures
            Self::parse(s, pre.len() as int) == Some((self, (pre.len() + self.wire().len()) as int)),
    {
        vstd::bytes::lemma_auto_spec_u16_to_from_le_bytes();
        let w0 = crate::wire::wire_u16(self.target_net_ids.len() as u16);
        let w1 = crate::list::wire_u32s(self.target_net_ids);
        let rest0 = w1 + post;
        assert(s =~= pre + w0 + rest0);
        crate::wire::lemma_parse_wire_u16(s, pre, self.target_net_ids.len() as u16, rest0);
        let pre1 = pre + w0;
        assert(s =~= pre1 + w1 + post);
        crate::list::lemma_parse_wire_u32s(self.target_net_ids, s, pre1, post);
    }
}

impl SLineMissileHitList {
    pub fn encode(&self, out: &mut Vec<u8>)
        requires
            self@.valid(),
        ensures
            final(out)@ == old(out)@ + self@.wire(),
    {
        let ghost base = out@;
        crate::wire::put_u16(out, self.target_net_ids.len() as u16);
        crate::list::put_u32s(out, &self.target_net_ids);
        assert(out@ =~= base + self@.wire());
    }

    pub fn decode(s: &[u8], i: usize) -> (r: Option<(Self, usize)>)
        ensures
            match SLineMissileHitListView::parse(s@, i as int) {
                Some((v, j)) => r is Some && r->Some_0.0@ == v && r->Some_0.1 == j,
                None => r is None,
            },
    {
        let slen = s.len();
        assert(s@.len() == slen);
        let (n, j0) = match crate::wire::take_u16(s, i) { Some(v) => v, None => { return None; } };
        let (ids, j1) = match crate::list::take_u32s(s, j0, n as usize) {
            Some(v) => v,
            None => {
                return None;
            },
        };
        Some((SLineMissileHitList { target_net_ids: ids }, j1))
    }

    /// The full game frame carrying this packet.
    pub fn to_bytes(&self, sender_net_id: u32) -> (r: Vec<u8>)
        requires
            self@.valid(),
        ensures
            r@ == game_frame(0x28, sender_net_id, self@.wire()),
    {
        let mut payload: Vec<u8> = Vec::new();
        self.encode(&mut payload);
        game_frame_bytes(0x28, sender_net_id, &payload)
    }
}

/// Buff removal for a group of units: the buff name hash and the struck
/// entries behind an 8-bit count.
#[derive(Clone, Debug, PartialEq, Eq)]
pub struct SNpcBuffRemoveGroup {
    pub buff_name_hash: u32,
    pub entries: Vec<BuffRemoveGroupEntry>,
}

pub struct SNpcBuffRemoveGroupView {
    pub buff_name_hash: u32,
    pub entries: Seq<BuffRemoveGroupEntry>,
}

impl View for SNpcBuffRemoveGroup {
    type V = SNpcBuffRemoveGroupView;

    open spec fn view(&self) -> SNpcBuffRemoveGroupView {
        SNpcBuffRemoveGroupView { buff_name_hash: self.buff_name_hash, entries: self.entries@ }
    }
}

impl SNpcBuffRemoveGroupView {
    pub open spec fn valid(self) -> bool {
        self.entries.len() <= u8::MAX
    }

    pub open spec fn wire(self) -> Seq<u8> {
        crate::wire::wire_u32(self.buff_name_hash) + crate::wire::wire_u8(self.entries.len() as u8)
            + wire_buff_remove_entries(self.entries)
    }

    pub open spec fn parse(s: Seq<u8>, i: int) -> Option<(Self, int)> {
        match crate::wire::parse_u32(s, i) {
            Some((hash, j0)) => match crate::wire::parse_u8(s, j0) {
                Some((n, j1)) => match parse_buff_remove_entries(s, j1, n as int) {
                    Some((es, j2)) => Some(
                        (SNpcBuffRemoveGroupView { buff_name_hash: hash, entries: es }, j2),
                    ),
                    None => None,
                },
                None => None,
            },
            None => None,
        }
    }

    /// Parsing an encoded record restores it.
    pub proof fn lemma_parse_wire(self, s: Seq<u8>, pre: Seq<u8>, post: Seq<u8>)
        requires
            self.valid(),
            s == pre + self.wire() + post,
        ensures
            Self::parse(s, pre.len() as int) == Some((self, (pre.len() + self.wire().len()) as int)),
    {
        vstd::bytes::lemma_auto_spec_u32_to_from_le_bytes();
        let w0 = crate::wire::wire_u32(self.buff_name_hash);
        let w1 = crate::wire::wire_u8(self.entries.len() as u8);
        let w2 = wire_buff_remove_entries(self.entries);
        let rest1 = w2 + post;
        let rest0 = w1 + rest1;
        assert(s =~= pre + w0 + rest0);
        crate::wire::lemma_parse_wire_u32(s, pre, self.buff_name_hash, rest0);
        let pre1 = pre + w0;
        assert(s =~= pre1 + w1 + rest1);
        crate::wire::lemma_parse_wire_u8(s, pre1, self.entries.len() as u8, rest1);
        let pre2 = pre1 + w1;
        assert(s =~= pre2 + w2 + post);
        lemma_parse_wire_buff_remove_entries(self.entries, s, pre2, post);
    }
}

impl SNpcBuffRemoveGroup {
    pub fn encode(&self, out: &mut Vec<u8>)
        requires
            self@.valid(),
        ensures
            final(out)@ == old(out)@ + self@.wire(),
    {
        let ghost base = out@;
        crate::wire::put_u32(out, self.buff_name_hash);
        crate::wire::put_u8(out, self.entries.len() as u8);
        put_buff_remove_entries(out, &self.entries);
        assert(out@ =~= base + self@.wire());
    }

    pub fn decode(s: &[u8], i: usize) -> (r: Option<(Self, usize)>)
        ensures
            match SNpcBuffRemoveGroupView::parse(s@, i as int) {
                Some((v, j)) => r is Some && r->Some_0.0@ == v && r->Some_0.1 == j,
                None => r is None,
            },
    {
        let slen = s.len();
        assert(s@.len() == slen);
        let (hash, j0) = match crate::wire::take_u32(s, i) { Some(v) => v, None => { return None; } };
        let (n, j1) = match crate::wire::take_u8(s, j0) { Some(v) => v, None => { return None; } };
        let (es, j2) = match take_buff_remove_entries(s, j1, n as usize) {
            Some(v) => v,
            None => {
                return None;
            },
        };
        Some((SNpcBuffRemoveGroup { buff_name_hash: hash, entries: es }, j2))
    }

    /// The full game frame carrying this packet.
    pub fn to_bytes(&self, sender_net_id: u32) -> (r: Vec<u8>)
        requires
            self@.valid(),
        ensures
            r@ == game_frame(0x9B, sender_net_id, self@.wire()),
    {
        let mut payload: Vec<u8> = Vec::new();
        self.encode(&mut payload);
        game_frame_bytes(0x9B, sender_net_id, &payload)
    }
}


} // verus!
