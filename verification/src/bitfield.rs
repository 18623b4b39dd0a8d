//! Bit-packed flag records.
//!
//! Each record travels as a single byte (or word).  The domain type is a
//! plain struct of booleans and small integers; `pack_bits` / `unpack_bits`
//! give the exact wire image, and `lemma_bits_round_trip` proves that
//! unpacking a packed record restores it for every field combination.
use vstd::prelude::*;

verus! {

use crate::wire::{lemma_parse_wire_u8, parse_u8, parsed, put_u8, take_u8, wire_u8};

/// The single wire bit for a flag.
pub open spec fn bit8(b: bool) -> u8 {
    if b {
        1u8
    } else {
        0u8
    }
}

/// Executable twin of [`bit8`].
pub fn bool_u8(b: bool) -> (r: u8)
    ensures
        r == bit8(b),
{
    if b {
        1u8
    } else {
        0u8
    }
}

/// The single wire bit for a flag, in a 16-bit word.
pub open spec fn bit16(b: bool) -> u16 {
    if b {
        1u16
    } else {
        0u16
    }
}

/// Executable twin of [`bit16`].
pub fn bool_u16(b: bool) -> (r: u16)
    ensures
        r == bit16(b),
{
    if b {
        1u16
    } else {
        0u16
    }
}

// ---------------------------------------------------------------------------
// TeamSurrenderVote: bit0 = vote_yes, bit1 = open_vote_menu
// ---------------------------------------------------------------------------

#[derive(Clone, Copy, Debug, PartialEq, Eq, Structural)]
pub struct TeamSurrenderVoteBitfield {
    pub vote_yes: bool,
    pub open_vote_menu: bool,
}

impl TeamSurrenderVoteBitfield {
    pub open spec fn pack_bits(self) -> u8 {
        bit8(self.vote_yes) | (bit8(self.open_vote_menu) << 1)
    }

    pub open spec fn unpack_bits(b: u8) -> Self {
        TeamSurrenderVoteBitfield { vote_yes: b & 0x01 != 0, open_vote_menu: b & 0x02 != 0 }
    }

    pub open spec fn wire(self) -> Seq<u8> {
        wire_u8(self.pack_bits())
    }

    pub open spec fn parse(s: Seq<u8>, i: int) -> Option<(Self, int)> {
        match parse_u8(s, i) {
            Some((b, j)) => Some((Self::unpack_bits(b), j)),
            None => None,
        }
    }

    pub fn encode(&self, out: &mut Vec<u8>)
        ensures
            final(out)@ == old(out)@ + self.wire(),
            self.wire().len() == 1,
    {
        put_u8(out, bool_u8(self.vote_yes) | (bool_u8(self.open_vote_menu) << 1));
    }

    pub fn decode(s: &[u8], i: usize) -> (r: Option<(Self, usize)>)
        ensures
            parsed(Self::parse(s@, i as int), r),
    {
        match take_u8(s, i) {
            Some((b, j)) => Some((
                TeamSurrenderVoteBitfield { vote_yes: b & 0x01 != 0, open_vote_menu: b & 0x02 != 0 },
                j,
            )),
            None => None,
        }
    }

    /// Unpacking a packed record restores every flag.
    pub proof fn lemma_bits_round_trip(self)
        ensures
            Self::unpack_bits(self.pack_bits()) == self,
    {
        let v: u8 = bit8(self.vote_yes);
        let m: u8 = bit8(self.open_vote_menu);
        let b = self.pack_bits();
        assert(((b & 0x01 != 0) <==> v == 1) && ((b & 0x02 != 0) <==> m == 1)) by (bit_vector)
            requires
                v <= 1,
                m <= 1,
                b == v | (m << 1),
        ;
    }

    /// Parsing in the middle of a buffer that carries a packed record
    /// restores it.
    pub proof fn lemma_parse_wire(self, s: Seq<u8>, pre: Seq<u8>, post: Seq<u8>)
        requires
            s == pre + self.wire() + post,
        ensures
            Self::parse(s, pre.len() as int) == Some((self, (pre.len() + self.wire().len()) as int)),
    {
        lemma_parse_wire_u8(s, pre, self.pack_bits(), post);
        self.lemma_bits_round_trip();
    }
}

// ---------------------------------------------------------------------------
// MapPing: bits 0..3 = category, bit4 = play_audio, bit5 = show_chat,
// bit6 = throttled
// ---------------------------------------------------------------------------

#[derive(Clone, Copy, Debug, PartialEq, Eq, Structural)]
pub struct MapPingBitfield {
    pub ping_category: u8,
    pub play_audio: bool,
    pub show_chat: bool,
    pub ping_throttled: bool,
}

impl MapPingBitfield {
    /// The category must fit in its four bits.
    pub open spec fn valid(self) -> bool {
        self.ping_category < 16
    }

    pub open spec fn pack_bits(self) -> u8 {
        self.ping_category | (bit8(self.play_audio) << 4) | (bit8(self.show_chat) << 5) | (bit8(
            self.ping_throttled,
        ) << 6)
    }

    pub open spec fn unpack_bits(b: u8) -> Self {
        MapPingBitfield {
            ping_category: b & 0x0F,
            play_audio: b & 0x10 != 0,
            show_chat: b & 0x20 != 0,
            ping_throttled: b & 0x40 != 0,
        }
    }

    pub open spec fn wire(self) -> Seq<u8> {
        wire_u8(self.pack_bits())
    }

    pub open spec fn parse(s: Seq<u8>, i: int) -> Option<(Self, int)> {
        match parse_u8(s, i) {
            Some((b, j)) => Some((Self::unpack_bits(b), j)),
            None => None,
        }
    }

    pub fn encode(&self, out: &mut Vec<u8>)
        ensures
            final(out)@ == old(out)@ + self.wire(),
            self.wire().len() == 1,
    {
        put_u8(
            out,
            self.ping_category | (bool_u8(self.play_audio) << 4) | (bool_u8(self.show_chat) << 5)
                | (bool_u8(self.ping_throttled) << 6),
        );
    }

    pub fn decode(s: &[u8], i: usize) -> (r: Option<(Self, usize)>)
        ensures
            parsed(Self::parse(s@, i as int), r),
    {
        match take_u8(s, i) {
            Some((b, j)) => Some((
                MapPingBitfield {
                    ping_category: b & 0x0F,
                    play_audio: b & 0x10 != 0,
                    show_chat: b & 0x20 != 0,
                    ping_throttled: b & 0x40 != 0,
                },
                j,
            )),
            None => None,
        }
    }

    /// Unpacking a packed record restores every field.
    pub proof fn lemma_bits_round_trip(self)
        requires
            self.valid(),
        ensures
            Self::unpack_bits(self.pack_bits()) == self,
    {
        let c = self.ping_category;
        let pa: u8 = bit8(self.play_audio);
        let sc: u8 = bit8(self.show_chat);
        let pt: u8 = bit8(self.ping_throttled);
        let b = self.pack_bits();
        assert((b & 0x0F == c) && ((b & 0x10 != 0) <==> pa == 1) && ((b & 0x20 != 0) <==> sc == 1)
            && ((b & 0x40 != 0) <==> pt == 1)) by (bit_vector)
            requires
                c < 16,
                pa <= 1,
                sc <= 1,
                pt <= 1,
                b == c | (pa << 4) | (sc << 5) | (pt << 6),
        ;
    }

    /// Parsing in the middle of a buffer that carries a packed record
    /// restores it.
    pub proof fn lemma_parse_wire(self, s: Seq<u8>, pre: Seq<u8>, post: Seq<u8>)
        requires
            self.valid(),
            s == pre + self.wire() + post,
        ensures
            Self::parse(s, pre.len() as int) == Some((self, (pre.len() + self.wire().len()) as int)),
    {
        lemma_parse_wire_u8(s, pre, self.pack_bits(), post);
        self.lemma_bits_round_trip();
    }
}

// ---------------------------------------------------------------------------
// SpawnMinion: bit0 = ignore_collision, bit1 = is_ward, bit2 = behaviour tree
// ---------------------------------------------------------------------------

#[derive(Clone, Copy, Debug, PartialEq, Eq, Structural)]
pub struct SpawnMinionBitfield {
    pub ignore_collision: bool,
    pub is_ward: bool,
    pub use_behaviour_tree_ai: bool,
}

impl SpawnMinionBitfield {
    pub open spec fn pack_bits(self) -> u8 {
        bit8(self.ignore_collision) | (bit8(self.is_ward) << 1) | (bit8(
            self.use_behaviour_tree_ai,
        ) << 2)
    }

    pub open spec fn unpack_bits(b: u8) -> Self {
        SpawnMinionBitfield {
            ignore_collision: b & 0x01 != 0,
            is_ward: b & 0x02 != 0,
            use_behaviour_tree_ai: b & 0x04 != 0,
        }
    }

    pub open spec fn wire(self) -> Seq<u8> {
        wire_u8(self.pack_bits())
    }

    pub open spec fn parse(s: Seq<u8>, i: int) -> Option<(Self, int)> {
        match parse_u8(s, i) {
            Some((b, j)) => Some((Self::unpack_bits(b), j)),
            None => None,
        }
    }

    pub fn encode(&self, out: &mut Vec<u8>)
        ensures
            final(out)@ == old(out)@ + self.wire(),
            self.wire().len() == 1,
    {
        put_u8(
            out,
            bool_u8(self.ignore_collision) | (bool_u8(self.is_ward) << 1) | (bool_u8(
                self.use_behaviour_tree_ai,
            ) << 2),
        );
    }

    pub fn decode(s: &[u8], i: usize) -> (r: Option<(Self, usize)>)
        ensures
            parsed(Self::parse(s@, i as int), r),
    {
        match take_u8(s, i) {
            Some((b, j)) => Some((
                SpawnMinionBitfield {
                    ignore_collision: b & 0x01 != 0,
                    is_ward: b & 0x02 != 0,
                    use_behaviour_tree_ai: b & 0x04 != 0,
                },
                j,
            )),
            None => None,
        }
    }

    /// Unpacking a packed record restores every flag.
    pub proof fn lemma_bits_round_trip(self)
        ensures
            Self::unpack_bits(self.pack_bits()) == self,
    {
        let ic: u8 = bit8(self.ignore_collision);
        let iw: u8 = bit8(self.is_ward);
        let bt: u8 = bit8(self.use_behaviour_tree_ai);
        let b = self.pack_bits();
        assert(((b & 0x01 != 0) <==> ic == 1) && ((b & 0x02 != 0) <==> iw == 1) && ((b & 0x04 != 0)
            <==> bt == 1)) by (bit_vector)
            requires
                ic <= 1,
                iw <= 1,
                bt <= 1,
                b == ic | (iw << 1) | (bt << 2),
        ;
    }

    /// Parsing in the middle of a buffer that carries a packed record
    /// restores it.
    pub proof fn lemma_parse_wire(self, s: Seq<u8>, pre: Seq<u8>, post: Seq<u8>)
        requires
            s == pre + self.wire() + post,
        ensures
            Self::parse(s, pre.len() as int) == Some((self, (pre.len() + self.wire().len()) as int)),
    {
        lemma_parse_wire_u8(s, pre, self.pack_bits(), post);
        self.lemma_bits_round_trip();
    }
}

// ---------------------------------------------------------------------------
// CastInfo flags: bit0 = auto attack, bit1 = second auto attack,
// bit2 = force cast, bit3 = override cast position
// ---------------------------------------------------------------------------

#[derive(Clone, Copy, Debug, PartialEq, Eq, Structural)]
pub struct CastInfoBitfield {
    pub is_auto_attack: bool,
    pub is_second_auto_attack: bool,
    pub is_force_casting_or_channel: bool,
    pub is_override_cast_position: bool,
}

impl CastInfoBitfield {
    pub open spec fn pack_bits(self) -> u8 {
        bit8(self.is_auto_attack) | (bit8(self.is_second_auto_attack) << 1) | (bit8(
            self.is_force_casting_or_channel,
        ) << 2) | (bit8(self.is_override_cast_position) << 3)
    }

    pub open spec fn unpack_bits(b: u8) -> Self {
        CastInfoBitfield {
            is_auto_attack: b & 0x01 != 0,
            is_second_auto_attack: b & 0x02 != 0,
            is_force_casting_or_channel: b & 0x04 != 0,
            is_override_cast_position: b & 0x08 != 0,
        }
    }

    pub open spec fn wire(self) -> Seq<u8> {
        wire_u8(self.pack_bits())
    }

    pub open spec fn parse(s: Seq<u8>, i: int) -> Option<(Self, int)> {
        match parse_u8(s, i) {
            Some((b, j)) => Some((Self::unpack_bits(b), j)),
            None => None,
        }
    }

    pub fn encode(&self, out: &mut Vec<u8>)
        ensures
            final(out)@ == old(out)@ + self.wire(),
            self.wire().len() == 1,
    {
        put_u8(
            out,
            bool_u8(self.is_auto_attack) | (bool_u8(self.is_second_auto_attack) << 1) | (bool_u8(
                self.is_force_casting_or_channel,
            ) << 2) | (bool_u8(self.is_override_cast_position) << 3),
        );
    }

    pub fn decode(s: &[u8], i: usize) -> (r: Option<(Self, usize)>)
        ensures
            parsed(Self::parse(s@, i as int), r),
    {
        match take_u8(s, i) {
            Some((b, j)) => Some((
                CastInfoBitfield {
                    is_auto_attack: b & 0x01 != 0,
                    is_second_auto_attack: b & 0x02 != 0,
                    is_force_casting_or_channel: b & 0x04 != 0,
                    is_override_cast_position: b & 0x08 != 0,
                },
                j,
            )),
            None => None,
        }
    }

    /// Unpacking a packed record restores every flag.
    pub proof fn lemma_bits_round_trip(self)
        ensures
            Self::unpack_bits(self.pack_bits()) == self,
    {
        let aa: u8 = bit8(self.is_auto_attack);
        let sa: u8 = bit8(self.is_second_auto_attack);
        let fc: u8 = bit8(self.is_force_casting_or_channel);
        let oc: u8 = bit8(self.is_override_cast_position);
        let b = self.pack_bits();
        assert(((b & 0x01 != 0) <==> aa == 1) && ((b & 0x02 != 0) <==> sa == 1) && ((b & 0x04 != 0)
            <==> fc == 1) && ((b & 0x08 != 0) <==> oc == 1)) by (bit_vector)
            requires
                aa <= 1,
                sa <= 1,
                fc <= 1,
                oc <= 1,
                b == aa | (sa << 1) | (fc << 2) | (oc << 3),
        ;
    }

    /// Parsing in the middle of a buffer that carries a packed record
    /// restores it.
    pub proof fn lemma_parse_wire(self, s: Seq<u8>, pre: Seq<u8>, post: Seq<u8>)
        requires
            s == pre + self.wire() + post,
        ensures
            Self::parse(s, pre.len() as int) == Some((self, (pre.len() + self.wire().len()) as int)),
    {
        lemma_parse_wire_u8(s, pre, self.pack_bits(), post);
        self.lemma_bits_round_trip();
    }
}

// ---------------------------------------------------------------------------
// SpellSlot: bits 0..6 = slot, bit7 = is_summoner_spell
// ---------------------------------------------------------------------------

#[derive(Clone, Copy, Debug, PartialEq, Eq, Structural)]
pub struct SpellSlotBitfield {
    pub slot: u8,
    pub is_summoner_spell: bool,
}

impl SpellSlotBitfield {
    /// The slot must fit in its seven bits.
    pub open spec fn valid(self) -> bool {
        self.slot < 128
    }

    pub open spec fn pack_bits(self) -> u8 {
        (self.slot & 0x7F) | (bit8(self.is_summoner_spell) << 7)
    }

    pub open spec fn unpack_bits(b: u8) -> Self {
        SpellSlotBitfield { slot: b & 0x7F, is_summoner_spell: b & 0x80 != 0 }
    }

    pub open spec fn wire(self) -> Seq<u8> {
        wire_u8(self.pack_bits())
    }

    pub open spec fn parse(s: Seq<u8>, i: int) -> Option<(Self, int)> {
        match parse_u8(s, i) {
            Some((b, j)) => Some((Self::unpack_bits(b), j)),
            None => None,
        }
    }

    pub fn encode(&self, out: &mut Vec<u8>)
        ensures
            final(out)@ == old(out)@ + self.wire(),
            self.wire().len() == 1,
    {
        put_u8(out, (self.slot & 0x7F) | (bool_u8(self.is_summoner_spell) << 7));
    }

    pub fn decode(s: &[u8], i: usize) -> (r: Option<(Self, usize)>)
        ensures
            parsed(Self::parse(s@, i as int), r),
    {
        match take_u8(s, i) {
            Some((b, j)) => Some((
                SpellSlotBitfield { slot: b & 0x7F, is_summoner_spell: b & 0x80 != 0 },
                j,
            )),
            None => None,
        }
    }

    /// Unpacking a packed record restores both fields.
    pub proof fn lemma_bits_round_trip(self)
        requires
            self.valid(),
        ensures
            Self::unpack_bits(self.pack_bits()) == self,
    {
        let sl = self.slot;
        let ss: u8 = bit8(self.is_summoner_spell);
        let b = self.pack_bits();
        assert((b & 0x7F == sl) && ((b & 0x80 != 0) <==> ss == 1)) by (bit_vector)
            requires
                sl < 128,
                ss <= 1,
                b == (sl & 0x7F) | (ss << 7),
        ;
    }

    /// Parsing in the middle of a buffer that carries a packed record
    /// restores it.
    pub proof fn lemma_parse_wire(self, s: Seq<u8>, pre: Seq<u8>, post: Seq<u8>)
        requires
            self.valid(),
            s == pre + self.wire() + post,
        ensures
            Self::parse(s, pre.len() as int) == Some((self, (pre.len() + self.wire().len()) as int)),
    {
        lemma_parse_wire_u8(s, pre, self.pack_bits(), post);
        self.lemma_bits_round_trip();
    }
}

// ---------------------------------------------------------------------------
// ShieldProperties: bit0 = physical, bit1 = magical, bit2 = stop fade
// ---------------------------------------------------------------------------

#[derive(Clone, Copy, Debug, PartialEq, Eq, Structural)]
pub struct ShieldProperties {
    pub physical: bool,
    pub magical: bool,
    pub stop_shield_fade: bool,
}

impl ShieldProperties {
    pub open spec fn pack_bits(self) -> u8 {
        bit8(self.physical) | (bit8(self.magical) << 1) | (bit8(self.stop_shield_fade) << 2)
    }

    pub open spec fn unpack_bits(b: u8) -> Self {
        ShieldProperties {
            physical: b & 0x01 != 0,
            magical: b & 0x02 != 0,
            stop_shield_fade: b & 0x04 != 0,
        }
    }

    pub open spec fn wire(self) -> Seq<u8> {
        wire_u8(self.pack_bits())
    }

    pub open spec fn parse(s: Seq<u8>, i: int) -> Option<(Self, int)> {
        match parse_u8(s, i) {
            Some((b, j)) => Some((Self::unpack_bits(b), j)),
            None => None,
        }
    }

    pub fn encode(&self, out: &mut Vec<u8>)
        ensures
            final(out)@ == old(out)@ + self.wire(),
            self.wire().len() == 1,
    {
        put_u8(
            out,
            bool_u8(self.physical) | (bool_u8(self.magical) << 1) | (bool_u8(self.stop_shield_fade)
                << 2),
        );
    }

    pub fn decode(s: &[u8], i: usize) -> (r: Option<(Self, usize)>)
        ensures
            parsed(Self::parse(s@, i as int), r),
    {
        match take_u8(s, i) {
            Some((b, j)) => Some((
                ShieldProperties {
                    physical: b & 0x01 != 0,
                    magical: b & 0x02 != 0,
                    stop_shield_fade: b & 0x04 != 0,
                },
                j,
            )),
            None => None,
        }
    }

    /// Unpacking a packed record restores every flag.
    pub proof fn lemma_bits_round_trip(self)
        ensures
            Self::unpack_bits(self.pack_bits()) == self,
    {
        let ph: u8 = bit8(self.physical);
        let ma: u8 = bit8(self.magical);
        let sf: u8 = bit8(self.stop_shield_fade);
        let b = self.pack_bits();
        assert(((b & 0x01 != 0) <==> ph == 1) && ((b & 0x02 != 0) <==> ma == 1) && ((b & 0x04 != 0)
            <==> sf == 1)) by (bit_vector)
            requires
                ph <= 1,
                ma <= 1,
                sf <= 1,
                b == ph | (ma << 1) | (sf << 2),
        ;
    }

    /// Parsing in the middle of a buffer that carries a packed record
    /// restores it.
    pub proof fn lemma_parse_wire(self, s: Seq<u8>, pre: Seq<u8>, post: Seq<u8>)
        requires
            s == pre + self.wire() + post,
        ensures
            Self::parse(s, pre.len() as int) == Some((self, (pre.len() + self.wire().len()) as int)),
    {
        lemma_parse_wire_u8(s, pre, self.pack_bits(), post);
        self.lemma_bits_round_trip();
    }
}

// ---------------------------------------------------------------------------
// CharSpawnPet: bit0 = copy_inventory, bit1 = clear_focus_target
// ---------------------------------------------------------------------------

#[derive(Clone, Copy, Debug, PartialEq, Eq, Structural)]
pub struct CharSpawnPetBitfield {
    pub copy_inventory: bool,
    pub clear_focus_target: bool,
}

impl CharSpawnPetBitfield {
    pub open spec fn pack_bits(self) -> u8 {
        bit8(self.copy_inventory) | (bit8(self.clear_focus_target) << 1)
    }

    pub open spec fn unpack_bits(b: u8) -> Self {
        CharSpawnPetBitfield { copy_inventory: b & 0x01 != 0, clear_focus_target: b & 0x02 != 0 }
    }

    pub open spec fn wire(self) -> Seq<u8> {
        wire_u8(self.pack_bits())
    }

    pub open spec fn parse(s: Seq<u8>, i: int) -> Option<(Self, int)> {
        match parse_u8(s, i) {
            Some((b, j)) => Some((Self::unpack_bits(b), j)),
            None => None,
        }
    }

    pub fn encode(&self, out: &mut Vec<u8>)
        ensures
            final(out)@ == old(out)@ + self.wire(),
            self.wire().len() == 1,
    {
        put_u8(out, bool_u8(self.copy_inventory) | (bool_u8(self.clear_focus_target) << 1));
    }

    pub fn decode(s: &[u8], i: usize) -> (r: Option<(Self, usize)>)
        ensures
            parsed(Self::parse(s@, i as int), r),
    {
        match take_u8(s, i) {
            Some((b, j)) => Some((
                CharSpawnPetBitfield {
                    copy_inventory: b & 0x01 != 0,
                    clear_focus_target: b & 0x02 != 0,
                },
                j,
            )),
            None => None,
        }
    }

    /// Unpacking a packed record restores both flags.
    pub proof fn lemma_bits_round_trip(self)
        ensures
            Self::unpack_bits(self.pack_bits()) == self,
    {
        let ci: u8 = bit8(self.copy_inventory);
        let cf: u8 = bit8(self.clear_focus_target);
        let b = self.pack_bits();
        assert(((b & 0x01 != 0) <==> ci == 1) && ((b & 0x02 != 0) <==> cf == 1)) by (bit_vector)
            requires
                ci <= 1,
                cf <= 1,
                b == ci | (cf << 1),
        ;
    }

    /// Parsing in the middle of a buffer that carries a packed record
    /// restores it.
    pub proof fn lemma_parse_wire(self, s: Seq<u8>, pre: Seq<u8>, post: Seq<u8>)
        requires
            s == pre + self.wire() + post,
        ensures
            Self::parse(s, pre.len() as int) == Some((self, (pre.len() + self.wire().len()) as int)),
    {
        lemma_parse_wire_u8(s, pre, self.pack_bits(), post);
        self.lemma_bits_round_trip();
    }
}

} // verus!
