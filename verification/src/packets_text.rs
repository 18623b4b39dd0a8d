//! The string-bearing remainder of the message family: records carrying
//! null-terminated or fixed-buffer text, spell-slot bytes and fixed id
//! runs, each with its exact wire image and round-trip lemma.
use vstd::prelude::*;

verus! {

use crate::bitfield::SpellSlotBitfield;
use crate::frame::{game_frame, game_frame_bytes};
use crate::list::{lemma_parse_wire_u32s, parse_u32s, put_u32s, take_u32s, wire_u32s};
use crate::text::{
    fixed_fits,
    zbytes_fits,
    lemma_parse_wire_fixed,
    lemma_parse_wire_zbytes,
    parse_fixed,
    parse_zbytes,
    put_fixed,
    put_zbytes,
    take_fixed,
    take_zbytes,
    wire_fixed,
    wire_zbytes,
};
use crate::wire::{
    lemma_parse_wire_bool,
    lemma_parse_wire_i32,
    lemma_parse_wire_u32,
    lemma_parse_wire_u8,
    parse_bool,
    parse_i32,
    parse_u32,
    parse_u8,
    parsed,
    put_bool,
    put_i32,
    put_u32,
    put_u8,
    take_bool,
    take_i32,
    take_u32,
    take_u8,
    wire_bool,
    wire_i32,
    wire_u32,
    wire_u8,
};

/// Localized tutorial chat text, null-terminated.
#[derive(Clone, Debug, PartialEq, Eq)]
pub struct SDisplayLocalizedTutorialChatText {
    pub message: Vec<u8>,
}

pub struct SDisplayLocalizedTutorialChatTextView {
    pub message: Seq<u8>,
}

impl View for SDisplayLocalizedTutorialChatText {
    type V = SDisplayLocalizedTutorialChatTextView;

    open spec fn view(&self) -> SDisplayLocalizedTutorialChatTextView {
        SDisplayLocalizedTutorialChatTextView {
            message: self.message@,
        }
    }
}

impl SDisplayLocalizedTutorialChatTextView {
    pub open spec fn valid(self) -> bool {
        &&& zbytes_fits(self.message)
    }

    pub open spec fn wire(self) -> Seq<u8> {
        wire_zbytes(self.message)
    }

    pub open spec fn parse(s: Seq<u8>, i: int) -> Option<(Self, int)> {
        match parse_zbytes(s, i) {
            Some((v0, j0)) =>
            Some((SDisplayLocalizedTutorialChatTextView { message: v0 }, j0)),
            None => None,
        }
    }

    /// Parsing an encoded record restores it.
    #[verifier::rlimit(100)]
    #[verifier::spinoff_prover]
    pub proof fn lemma_parse_wire(self, s: Seq<u8>, pre: Seq<u8>, post: Seq<u8>)
        requires
            self.valid(),
            s == pre + self.wire() + post,
        ensures
            Self::parse(s, pre.len() as int) == Some((self, (pre.len() + self.wire().len()) as int)),
    {
        vstd::bytes::lemma_auto_spec_u16_to_from_le_bytes();
        vstd::bytes::lemma_auto_spec_u32_to_from_le_bytes();
        vstd::bytes::lemma_auto_spec_u64_to_from_le_bytes();
        let w0 = wire_zbytes(self.message);
        let rest0 = post;
        assert(s =~= pre + w0 + rest0);
        lemma_parse_wire_zbytes(s, pre, self.message, rest0);
    }
}

impl SDisplayLocalizedTutorialChatText {

    pub fn encode(&self, out: &mut Vec<u8>)
        requires
            self@.valid(),
        ensures
            final(out)@ == old(out)@ + self@.wire(),
    {
        let ghost base = out@;
        put_zbytes(out, &self.message);
        assert(out@ =~= base + self@.wire());
    }

    pub fn decode(s: &[u8], i: usize) -> (r: Option<(Self, usize)>)
        ensures
            match SDisplayLocalizedTutorialChatTextView::parse(s@, i as int) {
                Some((v, j)) => r is Some && r->Some_0.0@ == v && r->Some_0.1 == j,
                None => r is None,
            },
    {
        let slen = s.len();
        assert(s@.len() == slen);
        let (v0, j0) = match take_zbytes(s, i) { Some(v) => v, None => { return None; } };
        Some((SDisplayLocalizedTutorialChatText { message: v0 }, j0))
    }

    /// The full game frame carrying this packet.
    pub fn to_bytes(&self, sender_net_id: u32) -> (r: Vec<u8>)
        requires
            self@.valid(),
        ensures
            r@ == game_frame(0x02, sender_net_id, self@.wire()),
    {
        let mut payload: Vec<u8> = Vec::new();
        self.encode(&mut payload);
        game_frame_bytes(0x02, sender_net_id, &payload)
    }
}

/// Objective-text refresh.
#[derive(Clone, Debug, PartialEq, Eq)]
pub struct SRefreshObjectiveText {
    pub text_id: Vec<u8>,
}

pub struct SRefreshObjectiveTextView {
    pub text_id: Seq<u8>,
}

impl View for SRefreshObjectiveText {
    type V = SRefreshObjectiveTextView;

    open spec fn view(&self) -> SRefreshObjectiveTextView {
        SRefreshObjectiveTextView {
            text_id: self.text_id@,
        }
    }
}

impl SRefreshObjectiveTextView {
    pub open spec fn valid(self) -> bool {
        &&& zbytes_fits(self.text_id)
    }

    pub open spec fn wire(self) -> Seq<u8> {
        wire_zbytes(self.text_id)
    }

    pub open spec fn parse(s: Seq<u8>, i: int) -> Option<(Self, int)> {
        match parse_zbytes(s, i) {
            Some((v0, j0)) =>
            Some((SRefreshObjectiveTextView { text_id: v0 }, j0)),
            None => None,
        }
    }

    /// Parsing an encoded record restores it.
    #[verifier::rlimit(100)]
    #[verifier::spinoff_prover]
    pub proof fn lemma_parse_wire(self, s: Seq<u8>, pre: Seq<u8>, post: Seq<u8>)
        requires
            self.valid(),
            s == pre + self.wire() + post,
        ensures
            Self::parse(s, pre.len() as int) == Some((self, (pre.len() + self.wire().len()) as int)),
    {
        vstd::bytes::lemma_auto_spec_u16_to_from_le_bytes();
        vstd::bytes::lemma_auto_spec_u32_to_from_le_bytes();
        vstd::bytes::lemma_auto_spec_u64_to_from_le_bytes();
        let w0 = wire_zbytes(self.text_id);
        let rest0 = post;
        assert(s =~= pre + w0 + rest0);
        lemma_parse_wire_zbytes(s, pre, self.text_id, rest0);
    }
}

impl SRefreshObjectiveText {

    pub fn encode(&self, out: &mut Vec<u8>)
        requires
            self@.valid(),
        ensures
            final(out)@ == old(out)@ + self@.wire(),
    {
        let ghost base = out@;
        put_zbytes(out, &self.text_id);
        assert(out@ =~= base + self@.wire());
    }

    pub fn decode(s: &[u8], i: usize) -> (r: Option<(Self, usize)>)
        ensures
            match SRefreshObjectiveTextView::parse(s@, i as int) {
                Some((v, j)) => r is Some && r->Some_0.0@ == v && r->Some_0.1 == j,
                None => r is None,
            },
    {
        let slen = s.len();
        assert(s@.len() == slen);
        let (v0, j0) = match take_zbytes(s, i) { Some(v) => v, None => { return None; } };
        Some((SRefreshObjectiveText { text_id: v0 }, j0))
    }

    /// The full game frame carrying this packet.
    pub fn to_bytes(&self, sender_net_id: u32) -> (r: Vec<u8>)
        requires
            self@.valid(),
        ensures
            r@ == game_frame(0x0E, sender_net_id, self@.wire()),
    {
        let mut payload: Vec<u8> = Vec::new();
        self.encode(&mut payload);
        game_frame_bytes(0x0E, sender_net_id, &payload)
    }
}

/// Bot AI state report, seven fixed 64-byte names.
#[derive(Clone, Debug, PartialEq, Eq)]
pub struct SBotAi {
    pub ai_name: Vec<u8>,
    pub ai_strategy: Vec<u8>,
    pub ai_behaviour: Vec<u8>,
    pub ai_task: Vec<u8>,
    pub state_0: Vec<u8>,
    pub state_1: Vec<u8>,
    pub state_2: Vec<u8>,
}

pub struct SBotAiView {
    pub ai_name: Seq<u8>,
    pub ai_strategy: Seq<u8>,
    pub ai_behaviour: Seq<u8>,
    pub ai_task: Seq<u8>,
    pub state_0: Seq<u8>,
    pub state_1: Seq<u8>,
    pub state_2: Seq<u8>,
}

impl View for SBotAi {
    type V = SBotAiView;

    open spec fn view(&self) -> SBotAiView {
        SBotAiView {
            ai_name: self.ai_name@,
            ai_strategy: self.ai_strategy@,
            ai_behaviour: self.ai_behaviour@,
            ai_task: self.ai_task@,
            state_0: self.state_0@,
            state_1: self.state_1@,
            state_2: self.state_2@,
        }
    }
}

impl SBotAiView {
    pub open spec fn valid(self) -> bool {
        &&& fixed_fits(self.ai_name, 64)
        &&& fixed_fits(self.ai_strategy, 64)
        &&& fixed_fits(self.ai_behaviour, 64)
        &&& fixed_fits(self.ai_task, 64)
        &&& fixed_fits(self.state_0, 64)
        &&& fixed_fits(self.state_1, 64)
        &&& fixed_fits(self.state_2, 64)
    }

    pub open spec fn wire(self) -> Seq<u8> {
        wire_fixed(self.ai_name, 64) + wire_fixed(self.ai_strategy, 64) + wire_fixed(self.ai_behaviour, 64) + wire_fixed(self.ai_task, 64) + wire_fixed(self.state_0, 64) + wire_fixed(self.state_1, 64) + wire_fixed(self.state_2, 64)
    }

    pub open spec fn parse(s: Seq<u8>, i: int) -> Option<(Self, int)> {
        match parse_fixed(s, i, 64) {
            Some((v0, j0)) =>
            match parse_fixed(s, j0, 64) {
                Some((v1, j1)) =>
                match parse_fixed(s, j1, 64) {
                    Some((v2, j2)) =>
                    match parse_fixed(s, j2, 64) {
                        Some((v3, j3)) =>
                        match parse_fixed(s, j3, 64) {
                            Some((v4, j4)) =>
                            match parse_fixed(s, j4, 64) {
                                Some((v5, j5)) =>
                                match parse_fixed(s, j5, 64) {
                                    Some((v6, j6)) =>
                                    Some((SBotAiView { ai_name: v0, ai_strategy: v1, ai_behaviour: v2, ai_task: v3, state_0: v4, state_1: v5, state_2: v6 }, j6)),
                                    None => None,
                                },
                                None => None,
                            },
                            None => None,
                        },
                        None => None,
                    },
                    None => None,
                },
                None => None,
            },
            None => None,
        }
    }

    /// Parsing an encoded record restores it.
    #[verifier::rlimit(100)]
    #[verifier::spinoff_prover]
    pub proof fn lemma_parse_wire(self, s: Seq<u8>, pre: Seq<u8>, post: Seq<u8>)
        requires
            self.valid(),
            s == pre + self.wire() + post,
        ensures
            Self::parse(s, pre.len() as int) == Some((self, (pre.len() + self.wire().len()) as int)),
    {
        vstd::bytes::lemma_auto_spec_u16_to_from_le_bytes();
        vstd::bytes::lemma_auto_spec_u32_to_from_le_bytes();
        vstd::bytes::lemma_auto_spec_u64_to_from_le_bytes();
        let w0 = wire_fixed(self.ai_name, 64);
        let w1 = wire_fixed(self.ai_strategy, 64);
        let w2 = wire_fixed(self.ai_behaviour, 64);
        let w3 = wire_fixed(self.ai_task, 64);
        let w4 = wire_fixed(self.state_0, 64);
        let w5 = wire_fixed(self.state_1, 64);
        let w6 = wire_fixed(self.state_2, 64);
        let rest6 = post;
        let rest5 = w6 + rest6;
        let rest4 = w5 + rest5;
        let rest3 = w4 + rest4;
        let rest2 = w3 + rest3;
        let rest1 = w2 + rest2;
        let rest0 = w1 + rest1;
        assert(s =~= pre + w0 + rest0);
        lemma_parse_wire_fixed(s, pre, self.ai_name, 64, rest0);
        let pre1 = pre + w0;
        assert(s =~= pre1 + w1 + rest1);
        lemma_parse_wire_fixed(s, pre1, self.ai_strategy, 64, rest1);
        let pre2 = pre1 + w1;
        assert(s =~= pre2 + w2 + rest2);
        lemma_parse_wire_fixed(s, pre2, self.ai_behaviour, 64, rest2);
        let pre3 = pre2 + w2;
        assert(s =~= pre3 + w3 + rest3);
        lemma_parse_wire_fixed(s, pre3, self.ai_task, 64, rest3);
        let pre4 = pre3 + w3;
        assert(s =~= pre4 + w4 + rest4);
        lemma_parse_wire_fixed(s, pre4, self.state_0, 64, rest4);
        let pre5 = pre4 + w4;
        assert(s =~= pre5 + w5 + rest5);
        lemma_parse_wire_fixed(s, pre5, self.state_1, 64, rest5);
        let pre6 = pre5 + w5;
        assert(s =~= pre6 + w6 + rest6);
        lemma_parse_wire_fixed(s, pre6, self.state_2, 64, rest6);
    }
}

impl SBotAi {

    pub fn encode(&self, out: &mut Vec<u8>)
        requires
            self@.valid(),
        ensures
            final(out)@ == old(out)@ + self@.wire(),
    {
        let ghost base = out@;
        put_fixed(out, &self.ai_name, 64);
        put_fixed(out, &self.ai_strategy, 64);
        put_fixed(out, &self.ai_behaviour, 64);
        put_fixed(out, &self.ai_task, 64);
        put_fixed(out, &self.state_0, 64);
        put_fixed(out, &self.state_1, 64);
        put_fixed(out, &self.state_2, 64);
        assert(out@ =~= base + self@.wire());
    }

    pub fn decode(s: &[u8], i: usize) -> (r: Option<(Self, usize)>)
        ensures
            match SBotAiView::parse(s@, i as int) {
                Some((v, j)) => r is Some && r->Some_0.0@ == v && r->Some_0.1 == j,
                None => r is None,
            },
    {
        let slen = s.len();
        assert(s@.len() == slen);
        let (v0, j0) = match take_fixed(s, i, 64) { Some(v) => v, None => { return None; } };
        let (v1, j1) = match take_fixed(s, j0, 64) { Some(v) => v, None => { return None; } };
        let (v2, j2) = match take_fixed(s, j1, 64) { Some(v) => v, None => { return None; } };
        let (v3, j3) = match take_fixed(s, j2, 64) { Some(v) => v, None => { return None; } };
        let (v4, j4) = match take_fixed(s, j3, 64) { Some(v) => v, None => { return None; } };
        let (v5, j5) = match take_fixed(s, j4, 64) { Some(v) => v, None => { return None; } };
        let (v6, j6) = match take_fixed(s, j5, 64) { Some(v) => v, None => { return None; } };
        Some((SBotAi { ai_name: v0, ai_strategy: v1, ai_behaviour: v2, ai_task: v3, state_0: v4, state_1: v5, state_2: v6 }, j6))
    }

    /// The full game frame carrying this packet.
    pub fn to_bytes(&self, sender_net_id: u32) -> (r: Vec<u8>)
        requires
            self@.valid(),
        ensures
            r@ == game_frame(0x15, sender_net_id, self@.wire()),
    {
        let mut payload: Vec<u8> = Vec::new();
        self.encode(&mut payload);
        game_frame_bytes(0x15, sender_net_id, &payload)
    }
}

/// Spell-slot targeting change.
#[derive(Clone, Copy, Debug, PartialEq, Eq, Structural)]
pub struct SChangeSlotSpellType {
    pub spell_slot: SpellSlotBitfield,
    pub targeting_type: u8,
}

impl SChangeSlotSpellType {
    pub open spec fn valid(self) -> bool {
        &&& self.spell_slot.valid()
    }

    pub open spec fn wire(self) -> Seq<u8> {
        self.spell_slot.wire() + wire_u8(self.targeting_type)
    }

    pub open spec fn parse(s: Seq<u8>, i: int) -> Option<(Self, int)> {
        match SpellSlotBitfield::parse(s, i) {
            Some((v0, j0)) =>
            match parse_u8(s, j0) {
                Some((v1, j1)) =>
                Some((SChangeSlotSpellType { spell_slot: v0, targeting_type: v1 }, j1)),
                None => None,
            },
            None => None,
        }
    }

    /// Parsing an encoded record restores it.
    #[verifier::rlimit(100)]
    #[verifier::spinoff_prover]
    pub proof fn lemma_parse_wire(self, s: Seq<u8>, pre: Seq<u8>, post: Seq<u8>)
        requires
            self.valid(),
            s == pre + self.wire() + post,
        ensures
            Self::parse(s, pre.len() as int) == Some((self, (pre.len() + self.wire().len()) as int)),
    {
        vstd::bytes::lemma_auto_spec_u16_to_from_le_bytes();
        vstd::bytes::lemma_auto_spec_u32_to_from_le_bytes();
        vstd::bytes::lemma_auto_spec_u64_to_from_le_bytes();
        let w0 = self.spell_slot.wire();
        let w1 = wire_u8(self.targeting_type);
        let rest1 = post;
        let rest0 = w1 + rest1;
        assert(s =~= pre + w0 + rest0);
        self.spell_slot.lemma_parse_wire(s, pre, rest0);
        let pre1 = pre + w0;
        assert(s =~= pre1 + w1 + rest1);
        lemma_parse_wire_u8(s, pre1, self.targeting_type, rest1);
    }

    pub fn encode(&self, out: &mut Vec<u8>)
        requires
            self.valid(),
        ensures
            final(out)@ == old(out)@ + self.wire(),
    {
        let ghost base = out@;
        self.spell_slot.encode(out);
        put_u8(out, self.targeting_type);
        assert(out@ =~= base + self.wire());
    }

    pub fn decode(s: &[u8], i: usize) -> (r: Option<(Self, usize)>)
        ensures
            parsed(Self::parse(s@, i as int), r),
    {
        let slen = s.len();
        assert(s@.len() == slen);
        let (v0, j0) = match SpellSlotBitfield::decode(s, i) { Some(v) => v, None => { return None; } };
        let (v1, j1) = match take_u8(s, j0) { Some(v) => v, None => { return None; } };
        Some((SChangeSlotSpellType { spell_slot: v0, targeting_type: v1 }, j1))
    }

    /// The full game frame carrying this packet.
    pub fn to_bytes(&self, sender_net_id: u32) -> (r: Vec<u8>)
        requires
            self.valid(),
        ensures
            r@ == game_frame(0x1A, sender_net_id, self.wire()),
    {
        let mut payload: Vec<u8> = Vec::new();
        self.encode(&mut payload);
        game_frame_bytes(0x1A, sender_net_id, &payload)
    }
}

/// Floating combat text.
#[derive(Clone, Debug, PartialEq, Eq)]
pub struct SDisplayFloatingText {
    pub target_net_id: u32,
    pub floating_text_type: u8,
    pub param: i32,
    pub message: Vec<u8>,
}

pub struct SDisplayFloatingTextView {
    pub target_net_id: u32,
    pub floating_text_type: u8,
    pub param: i32,
    pub message: Seq<u8>,
}

impl View for SDisplayFloatingText {
    type V = SDisplayFloatingTextView;

    open spec fn view(&self) -> SDisplayFloatingTextView {
        SDisplayFloatingTextView {
            target_net_id: self.target_net_id,
            floating_text_type: self.floating_text_type,
            param: self.param,
            message: self.message@,
        }
    }
}

impl SDisplayFloatingTextView {
    pub open spec fn valid(self) -> bool {
        &&& fixed_fits(self.message, 128)
    }

    pub open spec fn wire(self) -> Seq<u8> {
        wire_u32(self.target_net_id) + wire_u8(self.floating_text_type) + wire_i32(self.param) + wire_fixed(self.message, 128)
    }

    pub open spec fn parse(s: Seq<u8>, i: int) -> Option<(Self, int)> {
        match parse_u32(s, i) {
            Some((v0, j0)) =>
            match parse_u8(s, j0) {
                Some((v1, j1)) =>
                match parse_i32(s, j1) {
                    Some((v2, j2)) =>
                    match parse_fixed(s, j2, 128) {
                        Some((v3, j3)) =>
                        Some((SDisplayFloatingTextView { target_net_id: v0, floating_text_type: v1, param: v2, message: v3 }, j3)),
                        None => None,
                    },
                    None => None,
                },
                None => None,
            },
            None => None,
        }
    }

    /// Parsing an encoded record restores it.
    #[verifier::rlimit(100)]
    #[verifier::spinoff_prover]
    pub proof fn lemma_parse_wire(self, s: Seq<u8>, pre: Seq<u8>, post: Seq<u8>)
        requires
            self.valid(),
            s == pre + self.wire() + post,
        ensures
            Self::parse(s, pre.len() as int) == Some((self, (pre.len() + self.wire().len()) as int)),
    {
        vstd::bytes::lemma_auto_spec_u16_to_from_le_bytes();
        vstd::bytes::lemma_auto_spec_u32_to_from_le_bytes();
        vstd::bytes::lemma_auto_spec_u64_to_from_le_bytes();
        let w0 = wire_u32(self.target_net_id);
        let w1 = wire_u8(self.floating_text_type);
        let w2 = wire_i32(self.param);
        let w3 = wire_fixed(self.message, 128);
        let rest3 = post;
        let rest2 = w3 + rest3;
        let rest1 = w2 + rest2;
        let rest0 = w1 + rest1;
        assert(s =~= pre + w0 + rest0);
        lemma_parse_wire_u32(s, pre, self.target_net_id, rest0);
        let pre1 = pre + w0;
        assert(s =~= pre1 + w1 + rest1);
        lemma_parse_wire_u8(s, pre1, self.floating_text_type, rest1);
        let pre2 = pre1 + w1;
        assert(s =~= pre2 + w2 + rest2);
        lemma_parse_wire_i32(s, pre2, self.param, rest2);
        let pre3 = pre2 + w2;
        assert(s =~= pre3 + w3 + rest3);
        lemma_parse_wire_fixed(s, pre3, self.message, 128, rest3);
    }
}

impl SDisplayFloatingText {

    pub fn encode(&self, out: &mut Vec<u8>)
        requires
            self@.valid(),
        ensures
            final(out)@ == old(out)@ + self@.wire(),
    {
        let ghost base = out@;
        put_u32(out, self.target_net_id);
        put_u8(out, self.floating_text_type);
        put_i32(out, self.param);
        put_fixed(out, &self.message, 128);
        assert(out@ =~= base + self@.wire());
    }

    pub fn decode(s: &[u8], i: usize) -> (r: Option<(Self, usize)>)
        ensures
            match SDisplayFloatingTextView::parse(s@, i as int) {
                Some((v, j)) => r is Some && r->Some_0.0@ == v && r->Some_0.1 == j,
                None => r is None,
            },
    {
        let slen = s.len();
        assert(s@.len() == slen);
        let (v0, j0) = match take_u32(s, i) { Some(v) => v, None => { return None; } };
        let (v1, j1) = match take_u8(s, j0) { Some(v) => v, None => { return None; } };
        let (v2, j2) = match take_i32(s, j1) { Some(v) => v, None => { return None; } };
        let (v3, j3) = match take_fixed(s, j2, 128) { Some(v) => v, None => { return None; } };
        Some((SDisplayFloatingText { target_net_id: v0, floating_text_type: v1, param: v2, message: v3 }, j3))
    }

    /// The full game frame carrying this packet.
    pub fn to_bytes(&self, sender_net_id: u32) -> (r: Vec<u8>)
        requires
            self@.valid(),
        ensures
            r@ == game_frame(0x1C, sender_net_id, self@.wire()),
    {
        let mut payload: Vec<u8> = Vec::new();
        self.encode(&mut payload);
        game_frame_bytes(0x1C, sender_net_id, &payload)
    }
}

/// Spell-slot rename.
#[derive(Clone, Debug, PartialEq, Eq)]
pub struct SChangeSlotSpellName {
    pub spell_slot: SpellSlotBitfield,
    pub spellname: Vec<u8>,
}

pub struct SChangeSlotSpellNameView {
    pub spell_slot: SpellSlotBitfield,
    pub spellname: Seq<u8>,
}

impl View for SChangeSlotSpellName {
    type V = SChangeSlotSpellNameView;

    open spec fn view(&self) -> SChangeSlotSpellNameView {
        SChangeSlotSpellNameView {
            spell_slot: self.spell_slot,
            spellname: self.spellname@,
        }
    }
}

impl SChangeSlotSpellNameView {
    pub open spec fn valid(self) -> bool {
        &&& self.spell_slot.valid()
        &&& zbytes_fits(self.spellname)
    }

    pub open spec fn wire(self) -> Seq<u8> {
        self.spell_slot.wire() + wire_zbytes(self.spellname)
    }

    pub open spec fn parse(s: Seq<u8>, i: int) -> Option<(Self, int)> {
        match SpellSlotBitfield::parse(s, i) {
            Some((v0, j0)) =>
            match parse_zbytes(s, j0) {
                Some((v1, j1)) =>
                Some((SChangeSlotSpellNameView { spell_slot: v0, spellname: v1 }, j1)),
                None => None,
            },
            None => None,
        }
    }

    /// Parsing an encoded record restores it.
    #[verifier::rlimit(100)]
    #[verifier::spinoff_prover]
    pub proof fn lemma_parse_wire(self, s: Seq<u8>, pre: Seq<u8>, post: Seq<u8>)
        requires
            self.valid(),
            s == pre + self.wire() + post,
        ensures
            Self::parse(s, pre.len() as int) == Some((self, (pre.len() + self.wire().len()) as int)),
    {
        vstd::bytes::lemma_auto_spec_u16_to_from_le_bytes();
        vstd::bytes::lemma_auto_spec_u32_to_from_le_bytes();
        vstd::bytes::lemma_auto_spec_u64_to_from_le_bytes();
        let w0 = self.spell_slot.wire();
        let w1 = wire_zbytes(self.spellname);
        let rest1 = post;
        let rest0 = w1 + rest1;
        assert(s =~= pre + w0 + rest0);
        self.spell_slot.lemma_parse_wire(s, pre, rest0);
        let pre1 = pre + w0;
        assert(s =~= pre1 + w1 + rest1);
        lemma_parse_wire_zbytes(s, pre1, self.spellname, rest1);
    }
}

impl SChangeSlotSpellName {

    pub fn encode(&self, out: &mut Vec<u8>)
        requires
            self@.valid(),
        ensures
            final(out)@ == old(out)@ + self@.wire(),
    {
        let ghost base = out@;
        self.spell_slot.encode(out);
        put_zbytes(out, &self.spellname);
        assert(out@ =~= base + self@.wire());
    }

    pub fn decode(s: &[u8], i: usize) -> (r: Option<(Self, usize)>)
        ensures
            match SChangeSlotSpellNameView::parse(s@, i as int) {
                Some((v, j)) => r is Some && r->Some_0.0@ == v && r->Some_0.1 == j,
                None => r is None,
            },
    {
        let slen = s.len();
        assert(s@.len() == slen);
        let (v0, j0) = match SpellSlotBitfield::decode(s, i) { Some(v) => v, None => { return None; } };
        let (v1, j1) = match take_zbytes(s, j0) { Some(v) => v, None => { return None; } };
        Some((SChangeSlotSpellName { spell_slot: v0, spellname: v1 }, j1))
    }

    /// The full game frame carrying this packet.
    pub fn to_bytes(&self, sender_net_id: u32) -> (r: Vec<u8>)
        requires
            self@.valid(),
        ensures
            r@ == game_frame(0x35, sender_net_id, self@.wire()),
    {
        let mut payload: Vec<u8> = Vec::new();
        self.encode(&mut payload);
        game_frame_bytes(0x35, sender_net_id, &payload)
    }
}

/// Spell-slot icon change.
#[derive(Clone, Copy, Debug, PartialEq, Eq, Structural)]
pub struct SChangeSlotSpellIcon {
    pub spell_slot: SpellSlotBitfield,
    pub icon_index: u8,
}

impl SChangeSlotSpellIcon {
    pub open spec fn valid(self) -> bool {
        &&& self.spell_slot.valid()
    }

    pub open spec fn wire(self) -> Seq<u8> {
        self.spell_slot.wire() + wire_u8(self.icon_index)
    }

    pub open spec fn parse(s: Seq<u8>, i: int) -> Option<(Self, int)> {
        match SpellSlotBitfield::parse(s, i) {
            Some((v0, j0)) =>
            match parse_u8(s, j0) {
                Some((v1, j1)) =>
                Some((SChangeSlotSpellIcon { spell_slot: v0, icon_index: v1 }, j1)),
                None => None,
            },
            None => None,
        }
    }

    /// Parsing an encoded record restores it.
    #[verifier::rlimit(100)]
    #[verifier::spinoff_prover]
    pub proof fn lemma_parse_wire(self, s: Seq<u8>, pre: Seq<u8>, post: Seq<u8>)
        requires
            self.valid(),
            s == pre + self.wire() + post,
        ensures
            Self::parse(s, pre.len() as int) == Some((self, (pre.len() + self.wire().len()) as int)),
    {
        vstd::bytes::lemma_auto_spec_u16_to_from_le_bytes();
        vstd::bytes::lemma_auto_spec_u32_to_from_le_bytes();
        vstd::bytes::lemma_auto_spec_u64_to_from_le_bytes();
        let w0 = self.spell_slot.wire();
        let w1 = wire_u8(self.icon_index);
        let rest1 = post;
        let rest0 = w1 + rest1;
        assert(s =~= pre + w0 + rest0);
        self.spell_slot.lemma_parse_wire(s, pre, rest0);
        let pre1 = pre + w0;
        assert(s =~= pre1 + w1 + rest1);
        lemma_parse_wire_u8(s, pre1, self.icon_index, rest1);
    }

    pub fn encode(&self, out: &mut Vec<u8>)
        requires
            self.valid(),
        ensures
            final(out)@ == old(out)@ + self.wire(),
    {
        let ghost base = out@;
        self.spell_slot.encode(out);
        put_u8(out, self.icon_index);
        assert(out@ =~= base + self.wire());
    }

    pub fn decode(s: &[u8], i: usize) -> (r: Option<(Self, usize)>)
        ensures
            parsed(Self::parse(s@, i as int), r),
    {
        let slen = s.len();
        assert(s@.len() == slen);
        let (v0, j0) = match SpellSlotBitfield::decode(s, i) { Some(v) => v, None => { return None; } };
        let (v1, j1) = match take_u8(s, j0) { Some(v) => v, None => { return None; } };
        Some((SChangeSlotSpellIcon { spell_slot: v0, icon_index: v1 }, j1))
    }

    /// The full game frame carrying this packet.
    pub fn to_bytes(&self, sender_net_id: u32) -> (r: Vec<u8>)
        requires
            self.valid(),
        ensures
            r@ == game_frame(0x36, sender_net_id, self.wire()),
    {
        let mut payload: Vec<u8> = Vec::new();
        self.encode(&mut payload);
        game_frame_bytes(0x36, sender_net_id, &payload)
    }
}

/// Spell offset-target change.
#[derive(Clone, Copy, Debug, PartialEq, Eq, Structural)]
pub struct SChangeSpellOffsetTarget {
    pub spell_slot: SpellSlotBitfield,
    pub target_net_id: u32,
}

impl SChangeSpellOffsetTarget {
    pub open spec fn valid(self) -> bool {
        &&& self.spell_slot.valid()
    }

    pub open spec fn wire(self) -> Seq<u8> {
        self.spell_slot.wire() + wire_u32(self.target_net_id)
    }

    pub open spec fn parse(s: Seq<u8>, i: int) -> Option<(Self, int)> {
        match SpellSlotBitfield::parse(s, i) {
            Some((v0, j0)) =>
            match parse_u32(s, j0) {
                Some((v1, j1)) =>
                Some((SChangeSpellOffsetTarget { spell_slot: v0, target_net_id: v1 }, j1)),
                None => None,
            },
            None => None,
        }
    }

    /// Parsing an encoded record restores it.
    #[verifier::rlimit(100)]
    #[verifier::spinoff_prover]
    pub proof fn lemma_parse_wire(self, s: Seq<u8>, pre: Seq<u8>, post: Seq<u8>)
        requires
            self.valid(),
            s == pre + self.wire() + post,
        ensures
            Self::parse(s, pre.len() as int) == Some((self, (pre.len() + self.wire().len()) as int)),
    {
        vstd::bytes::lemma_auto_spec_u16_to_from_le_bytes();
        vstd::bytes::lemma_auto_spec_u32_to_from_le_bytes();
        vstd::bytes::lemma_auto_spec_u64_to_from_le_bytes();
        let w0 = self.spell_slot.wire();
        let w1 = wire_u32(self.target_net_id);
        let rest1 = post;
        let rest0 = w1 + rest1;
        assert(s =~= pre + w0 + rest0);
        self.spell_slot.lemma_parse_wire(s, pre, rest0);
        let pre1 = pre + w0;
        assert(s =~= pre1 + w1 + rest1);
        lemma_parse_wire_u32(s, pre1, self.target_net_id, rest1);
    }

    pub fn encode(&self, out: &mut Vec<u8>)
        requires
            self.valid(),
        ensures
            final(out)@ == old(out)@ + self.wire(),
    {
        let ghost base = out@;
        self.spell_slot.encode(out);
        put_u32(out, self.target_net_id);
        assert(out@ =~= base + self.wire());
    }

    pub fn decode(s: &[u8], i: usize) -> (r: Option<(Self, usize)>)
        ensures
            parsed(Self::parse(s@, i as int), r),
    {
        let slen = s.len();
        assert(s@.len() == slen);
        let (v0, j0) = match SpellSlotBitfield::decode(s, i) { Some(v) => v, None => { return None; } };
        let (v1, j1) = match take_u32(s, j0) { Some(v) => v, None => { return None; } };
        Some((SChangeSpellOffsetTarget { spell_slot: v0, target_net_id: v1 }, j1))
    }

    /// The full game frame carrying this packet.
    pub fn to_bytes(&self, sender_net_id: u32) -> (r: Vec<u8>)
        requires
            self.valid(),
        ensures
            r@ == game_frame(0x37, sender_net_id, self.wire()),
    {
        let mut payload: Vec<u8> = Vec::new();
        self.encode(&mut payload);
        game_frame_bytes(0x37, sender_net_id, &payload)
    }
}

/// Objective text display.
#[derive(Clone, Debug, PartialEq, Eq)]
pub struct SShowObjectiveText {
    pub text_id: Vec<u8>,
}

pub struct SShowObjectiveTextView {
    pub text_id: Seq<u8>,
}

impl View for SShowObjectiveText {
    type V = SShowObjectiveTextView;

    open spec fn view(&self) -> SShowObjectiveTextView {
        SShowObjectiveTextView {
            text_id: self.text_id@,
        }
    }
}

impl SShowObjectiveTextView {
    pub open spec fn valid(self) -> bool {
        &&& zbytes_fits(self.text_id)
    }

    pub open spec fn wire(self) -> Seq<u8> {
        wire_zbytes(self.text_id)
    }

    pub open spec fn parse(s: Seq<u8>, i: int) -> Option<(Self, int)> {
        match parse_zbytes(s, i) {
            Some((v0, j0)) =>
            Some((SShowObjectiveTextView { text_id: v0 }, j0)),
            None => None,
        }
    }

    /// Parsing an encoded record restores it.
    #[verifier::rlimit(100)]
    #[verifier::spinoff_prover]
    pub proof fn lemma_parse_wire(self, s: Seq<u8>, pre: Seq<u8>, post: Seq<u8>)
        requires
            self.valid(),
            s == pre + self.wire() + post,
        ensures
            Self::parse(s, pre.len() as int) == Some((self, (pre.len() + self.wire().len()) as int)),
    {
        vstd::bytes::lemma_auto_spec_u16_to_from_le_bytes();
        vstd::bytes::lemma_auto_spec_u32_to_from_le_bytes();
        vstd::bytes::lemma_auto_spec_u64_to_from_le_bytes();
        let w0 = wire_zbytes(self.text_id);
        let rest0 = post;
        assert(s =~= pre + w0 + rest0);
        lemma_parse_wire_zbytes(s, pre, self.text_id, rest0);
    }
}

impl SShowObjectiveText {

    pub fn encode(&self, out: &mut Vec<u8>)
        requires
            self@.valid(),
        ensures
            final(out)@ == old(out)@ + self@.wire(),
    {
        let ghost base = out@;
        put_zbytes(out, &self.text_id);
        assert(out@ =~= base + self@.wire());
    }

    pub fn decode(s: &[u8], i: usize) -> (r: Option<(Self, usize)>)
        ensures
            match SShowObjectiveTextView::parse(s@, i as int) {
                Some((v, j)) => r is Some && r->Some_0.0@ == v && r->Some_0.1 == j,
                None => r is None,
            },
    {
        let slen = s.len();
        assert(s@.len() == slen);
        let (v0, j0) = match take_zbytes(s, i) { Some(v) => v, None => { return None; } };
        Some((SShowObjectiveText { text_id: v0 }, j0))
    }

    /// The full game frame carrying this packet.
    pub fn to_bytes(&self, sender_net_id: u32) -> (r: Vec<u8>)
        requires
            self@.valid(),
        ensures
            r@ == game_frame(0x3B, sender_net_id, self@.wire()),
    {
        let mut payload: Vec<u8> = Vec::new();
        self.encode(&mut payload);
        game_frame_bytes(0x3B, sender_net_id, &payload)
    }
}

/// Tip window update.
#[derive(Clone, Debug, PartialEq, Eq)]
pub struct SHandleTipUpdate {
    pub tip_name: Vec<u8>,
    pub tip_other: Vec<u8>,
    pub tip_image_path: Vec<u8>,
    pub tip_command: u8,
    pub tip_id: u32,
}

pub struct SHandleTipUpdateView {
    pub tip_name: Seq<u8>,
    pub tip_other: Seq<u8>,
    pub tip_image_path: Seq<u8>,
    pub tip_command: u8,
    pub tip_id: u32,
}

impl View for SHandleTipUpdate {
    type V = SHandleTipUpdateView;

    open spec fn view(&self) -> SHandleTipUpdateView {
        SHandleTipUpdateView {
            tip_name: self.tip_name@,
            tip_other: self.tip_other@,
            tip_image_path: self.tip_image_path@,
            tip_command: self.tip_command,
            tip_id: self.tip_id,
        }
    }
}

impl SHandleTipUpdateView {
    pub open spec fn valid(self) -> bool {
        &&& fixed_fits(self.tip_name, 128)
        &&& fixed_fits(self.tip_other, 128)
        &&& fixed_fits(self.tip_image_path, 128)
    }

    pub open spec fn wire(self) -> Seq<u8> {
        wire_fixed(self.tip_name, 128) + wire_fixed(self.tip_other, 128) + wire_fixed(self.tip_image_path, 128) + wire_u8(self.tip_command) + wire_u32(self.tip_id)
    }

    pub open spec fn parse(s: Seq<u8>, i: int) -> Option<(Self, int)> {
        match parse_fixed(s, i, 128) {
            Some((v0, j0)) =>
            match parse_fixed(s, j0, 128) {
                Some((v1, j1)) =>
                match parse_fixed(s, j1, 128) {
                    Some((v2, j2)) =>
                    match parse_u8(s, j2) {
                        Some((v3, j3)) =>
                        match parse_u32(s, j3) {
                            Some((v4, j4)) =>
                            Some((SHandleTipUpdateView { tip_name: v0, tip_other: v1, tip_image_path: v2, tip_command: v3, tip_id: v4 }, j4)),
                            None => None,
                        },
                        None => None,
                    },
                    None => None,
                },
                None => None,
            },
            None => None,
        }
    }

    /// Parsing an encoded record restores it.
    #[verifier::rlimit(100)]
    #[verifier::spinoff_prover]
    pub proof fn lemma_parse_wire(self, s: Seq<u8>, pre: Seq<u8>, post: Seq<u8>)
        requires
            self.valid(),
            s == pre + self.wire() + post,
        ensures
            Self::parse(s, pre.len() as int) == Some((self, (pre.len() + self.wire().len()) as int)),
    {
        vstd::bytes::lemma_auto_spec_u16_to_from_le_bytes();
        vstd::bytes::lemma_auto_spec_u32_to_from_le_bytes();
        vstd::bytes::lemma_auto_spec_u64_to_from_le_bytes();
        let w0 = wire_fixed(self.tip_name, 128);
        let w1 = wire_fixed(self.tip_other, 128);
        let w2 = wire_fixed(self.tip_image_path, 128);
        let w3 = wire_u8(self.tip_command);
        let w4 = wire_u32(self.tip_id);
        let rest4 = post;
        let rest3 = w4 + rest4;
        let rest2 = w3 + rest3;
        let rest1 = w2 + rest2;
        let rest0 = w1 + rest1;
        assert(s =~= pre + w0 + rest0);
        lemma_parse_wire_fixed(s, pre, self.tip_name, 128, rest0);
        let pre1 = pre + w0;
        assert(s =~= pre1 + w1 + rest1);
        lemma_parse_wire_fixed(s, pre1, self.tip_other, 128, rest1);
        let pre2 = pre1 + w1;
        assert(s =~= pre2 + w2 + rest2);
        lemma_parse_wire_fixed(s, pre2, self.tip_image_path, 128, rest2);
        let pre3 = pre2 + w2;
        assert(s =~= pre3 + w3 + rest3);
        lemma_parse_wire_u8(s, pre3, self.tip_command, rest3);
        let pre4 = pre3 + w3;
        assert(s =~= pre4 + w4 + rest4);
        lemma_parse_wire_u32(s, pre4, self.tip_id, rest4);
    }
}

impl SHandleTipUpdate {

    pub fn encode(&self, out: &mut Vec<u8>)
        requires
            self@.valid(),
        ensures
            final(out)@ == old(out)@ + self@.wire(),
    {
        let ghost base = out@;
        put_fixed(out, &self.tip_name, 128);
        put_fixed(out, &self.tip_other, 128);
        put_fixed(out, &self.tip_image_path, 128);
        put_u8(out, self.tip_command);
        put_u32(out, self.tip_id);
        assert(out@ =~= base + self@.wire());
    }

    pub fn decode(s: &[u8], i: usize) -> (r: Option<(Self, usize)>)
        ensures
            match SHandleTipUpdateView::parse(s@, i as int) {
                Some((v, j)) => r is Some && r->Some_0.0@ == v && r->Some_0.1 == j,
                None => r is None,
            },
    {
        let slen = s.len();
        assert(s@.len() == slen);
        let (v0, j0) = match take_fixed(s, i, 128) { Some(v) => v, None => { return None; } };
        let (v1, j1) = match take_fixed(s, j0, 128) { Some(v) => v, None => { return None; } };
        let (v2, j2) = match take_fixed(s, j1, 128) { Some(v) => v, None => { return None; } };
        let (v3, j3) = match take_u8(s, j2) { Some(v) => v, None => { return None; } };
        let (v4, j4) = match take_u32(s, j3) { Some(v) => v, None => { return None; } };
        Some((SHandleTipUpdate { tip_name: v0, tip_other: v1, tip_image_path: v2, tip_command: v3, tip_id: v4 }, j4))
    }

    /// The full game frame carrying this packet.
    pub fn to_bytes(&self, sender_net_id: u32) -> (r: Vec<u8>)
        requires
            self@.valid(),
        ensures
            r@ == game_frame(0x58, sender_net_id, self@.wire()),
    {
        let mut payload: Vec<u8> = Vec::new();
        self.encode(&mut payload);
        game_frame_bytes(0x58, sender_net_id, &payload)
    }
}

/// AI target selection, five fixed slots.
#[derive(Clone, Debug, PartialEq, Eq)]
pub struct SAiTargetSelection {
    pub target_net_ids: Vec<u32>,
}

pub struct SAiTargetSelectionView {
    pub target_net_ids: Seq<u32>,
}

impl View for SAiTargetSelection {
    type V = SAiTargetSelectionView;

    open spec fn view(&self) -> SAiTargetSelectionView {
        SAiTargetSelectionView {
            target_net_ids: self.target_net_ids@,
        }
    }
}

impl SAiTargetSelectionView {
    pub open spec fn valid(self) -> bool {
        &&& self.target_net_ids.len() == 5
    }

    pub open spec fn wire(self) -> Seq<u8> {
        wire_u32s(self.target_net_ids)
    }

    pub open spec fn parse(s: Seq<u8>, i: int) -> Option<(Self, int)> {
        match parse_u32s(s, i, 5) {
            Some((v0, j0)) =>
            Some((SAiTargetSelectionView { target_net_ids: v0 }, j0)),
            None => None,
        }
    }

    /// Parsing an encoded record restores it.
    #[verifier::rlimit(100)]
    #[verifier::spinoff_prover]
    pub proof fn lemma_parse_wire(self, s: Seq<u8>, pre: Seq<u8>, post: Seq<u8>)
        requires
            self.valid(),
            s == pre + self.wire() + post,
        ensures
            Self::parse(s, pre.len() as int) == Some((self, (pre.len() + self.wire().len()) as int)),
    {
        vstd::bytes::lemma_auto_spec_u16_to_from_le_bytes();
        vstd::bytes::lemma_auto_spec_u32_to_from_le_bytes();
        vstd::bytes::lemma_auto_spec_u64_to_from_le_bytes();
        let w0 = wire_u32s(self.target_net_ids);
        let rest0 = post;
        assert(s =~= pre + w0 + rest0);
        lemma_parse_wire_u32s(self.target_net_ids, s, pre, rest0);
    }
}

impl SAiTargetSelection {

    pub fn encode(&self, out: &mut Vec<u8>)
        requires
            self@.valid(),
        ensures
            final(out)@ == old(out)@ + self@.wire(),
    {
        let ghost base = out@;
        put_u32s(out, &self.target_net_ids);
        assert(out@ =~= base + self@.wire());
    }

    pub fn decode(s: &[u8], i: usize) -> (r: Option<(Self, usize)>)
        ensures
            match SAiTargetSelectionView::parse(s@, i as int) {
                Some((v, j)) => r is Some && r->Some_0.0@ == v && r->Some_0.1 == j,
                None => r is None,
            },
    {
        let slen = s.len();
        assert(s@.len() == slen);
        let (v0, j0) = match take_u32s(s, i, 5) { Some(v) => v, None => { return None; } };
        Some((SAiTargetSelection { target_net_ids: v0 }, j0))
    }

    /// The full game frame carrying this packet.
    pub fn to_bytes(&self, sender_net_id: u32) -> (r: Vec<u8>)
        requires
            self@.valid(),
        ensures
            r@ == game_frame(0x6C, sender_net_id, self@.wire()),
    {
        let mut payload: Vec<u8> = Vec::new();
        self.encode(&mut payload);
        game_frame_bytes(0x6C, sender_net_id, &payload)
    }
}

/// Chain-missile target sync, 32 fixed slots.
#[derive(Clone, Debug, PartialEq, Eq)]
pub struct SChainMissileSync {
    pub target_count: i32,
    pub owner_network_id: u32,
    pub target_net_ids: Vec<u32>,
}

pub struct SChainMissileSyncView {
    pub target_count: i32,
    pub owner_network_id: u32,
    pub target_net_ids: Seq<u32>,
}

impl View for SChainMissileSync {
    type V = SChainMissileSyncView;

    open spec fn view(&self) -> SChainMissileSyncView {
        SChainMissileSyncView {
            target_count: self.target_count,
            owner_network_id: self.owner_network_id,
            target_net_ids: self.target_net_ids@,
        }
    }
}

impl SChainMissileSyncView {
    pub open spec fn valid(self) -> bool {
        &&& self.target_net_ids.len() == 32
    }

    pub open spec fn wire(self) -> Seq<u8> {
        wire_i32(self.target_count) + wire_u32(self.owner_network_id) + wire_u32s(self.target_net_ids)
    }

    pub open spec fn parse(s: Seq<u8>, i: int) -> Option<(Self, int)> {
        match parse_i32(s, i) {
            Some((v0, j0)) =>
            match parse_u32(s, j0) {
                Some((v1, j1)) =>
                match parse_u32s(s, j1, 32) {
                    Some((v2, j2)) =>
                    Some((SChainMissileSyncView { target_count: v0, owner_network_id: v1, target_net_ids: v2 }, j2)),
                    None => None,
                },
                None => None,
            },
            None => None,
        }
    }

    /// Parsing an encoded record restores it.
    #[verifier::rlimit(100)]
    #[verifier::spinoff_prover]
    pub proof fn lemma_parse_wire(self, s: Seq<u8>, pre: Seq<u8>, post: Seq<u8>)
        requires
            self.valid(),
            s == pre + self.wire() + post,
        ensures
            Self::parse(s, pre.len() as int) == Some((self, (pre.len() + self.wire().len()) as int)),
    {
        vstd::bytes::lemma_auto_spec_u16_to_from_le_bytes();
        vstd::bytes::lemma_auto_spec_u32_to_from_le_bytes();
        vstd::bytes::lemma_auto_spec_u64_to_from_le_bytes();
        let w0 = wire_i32(self.target_count);
        let w1 = wire_u32(self.owner_network_id);
        let w2 = wire_u32s(self.target_net_ids);
        let rest2 = post;
        let rest1 = w2 + rest2;
        let rest0 = w1 + rest1;
        assert(s =~= pre + w0 + rest0);
        lemma_parse_wire_i32(s, pre, self.target_count, rest0);
        let pre1 = pre + w0;
        assert(s =~= pre1 + w1 + rest1);
        lemma_parse_wire_u32(s, pre1, self.owner_network_id, rest1);
        let pre2 = pre1 + w1;
        assert(s =~= pre2 + w2 + rest2);
        lemma_parse_wire_u32s(self.target_net_ids, s, pre2, rest2);
    }
}

impl SChainMissileSync {

    pub fn encode(&self, out: &mut Vec<u8>)
        requires
            self@.valid(),
        ensures
            final(out)@ == old(out)@ + self@.wire(),
    {
        let ghost base = out@;
        put_i32(out, self.target_count);
        put_u32(out, self.owner_network_id);
        put_u32s(out, &self.target_net_ids);
        assert(out@ =~= base + self@.wire());
    }

    pub fn decode(s: &[u8], i: usize) -> (r: Option<(Self, usize)>)
        ensures
            match SChainMissileSyncView::parse(s@, i as int) {
                Some((v, j)) => r is Some && r->Some_0.0@ == v && r->Some_0.1 == j,
                None => r is None,
            },
    {
        let slen = s.len();
        assert(s@.len() == slen);
        let (v0, j0) = match take_i32(s, i) { Some(v) => v, None => { return None; } };
        let (v1, j1) = match take_u32(s, j0) { Some(v) => v, None => { return None; } };
        let (v2, j2) = match take_u32s(s, j1, 32) { Some(v) => v, None => { return None; } };
        Some((SChainMissileSync { target_count: v0, owner_network_id: v1, target_net_ids: v2 }, j2))
    }

    /// The full game frame carrying this packet.
    pub fn to_bytes(&self, sender_net_id: u32) -> (r: Vec<u8>)
        requires
            self@.valid(),
        ensures
            r@ == game_frame(0x6F, sender_net_id, self@.wire()),
    {
        let mut payload: Vec<u8> = Vec::new();
        self.encode(&mut payload);
        game_frame_bytes(0x6F, sender_net_id, &payload)
    }
}

/// Voice-over audio event.
#[derive(Clone, Debug, PartialEq, Eq)]
pub struct SPlayVOAudioEvent {
    pub folder_name: Vec<u8>,
    pub event_id: Vec<u8>,
    pub callback_type: u8,
    pub audio_event_net_id: u32,
}

pub struct SPlayVOAudioEventView {
    pub folder_name: Seq<u8>,
    pub event_id: Seq<u8>,
    pub callback_type: u8,
    pub audio_event_net_id: u32,
}

impl View for SPlayVOAudioEvent {
    type V = SPlayVOAudioEventView;

    open spec fn view(&self) -> SPlayVOAudioEventView {
        SPlayVOAudioEventView {
            folder_name: self.folder_name@,
            event_id: self.event_id@,
            callback_type: self.callback_type,
            audio_event_net_id: self.audio_event_net_id,
        }
    }
}

impl SPlayVOAudioEventView {
    pub open spec fn valid(self) -> bool {
        &&& fixed_fits(self.folder_name, 64)
        &&& fixed_fits(self.event_id, 64)
    }

    pub open spec fn wire(self) -> Seq<u8> {
        wire_fixed(self.folder_name, 64) + wire_fixed(self.event_id, 64) + wire_u8(self.callback_type) + wire_u32(self.audio_event_net_id)
    }

    pub open spec fn parse(s: Seq<u8>, i: int) -> Option<(Self, int)> {
        match parse_fixed(s, i, 64) {
            Some((v0, j0)) =>
            match parse_fixed(s, j0, 64) {
                Some((v1, j1)) =>
                match parse_u8(s, j1) {
                    Some((v2, j2)) =>
                    match parse_u32(s, j2) {
                        Some((v3, j3)) =>
                        Some((SPlayVOAudioEventView { folder_name: v0, event_id: v1, callback_type: v2, audio_event_net_id: v3 }, j3)),
                        None => None,
                    },
                    None => None,
                },
                None => None,
            },
            None => None,
        }
    }

    /// Parsing an encoded record restores it.
    #[verifier::rlimit(100)]
    #[verifier::spinoff_prover]
    pub proof fn lemma_parse_wire(self, s: Seq<u8>, pre: Seq<u8>, post: Seq<u8>)
        requires
            self.valid(),
            s == pre + self.wire() + post,
        ensures
            Self::parse(s, pre.len() as int) == Some((self, (pre.len() + self.wire().len()) as int)),
    {
        vstd::bytes::lemma_auto_spec_u16_to_from_le_bytes();
        vstd::bytes::lemma_auto_spec_u32_to_from_le_bytes();
        vstd::bytes::lemma_auto_spec_u64_to_from_le_bytes();
        let w0 = wire_fixed(self.folder_name, 64);
        let w1 = wire_fixed(self.event_id, 64);
        let w2 = wire_u8(self.callback_type);
        let w3 = wire_u32(self.audio_event_net_id);
        let rest3 = post;
        let rest2 = w3 + rest3;
        let rest1 = w2 + rest2;
        let rest0 = w1 + rest1;
        assert(s =~= pre + w0 + rest0);
        lemma_parse_wire_fixed(s, pre, self.folder_name, 64, rest0);
        let pre1 = pre + w0;
        assert(s =~= pre1 + w1 + rest1);
        lemma_parse_wire_fixed(s, pre1, self.event_id, 64, rest1);
        let pre2 = pre1 + w1;
        assert(s =~= pre2 + w2 + rest2);
        lemma_parse_wire_u8(s, pre2, self.callback_type, rest2);
        let pre3 = pre2 + w2;
        assert(s =~= pre3 + w3 + rest3);
        lemma_parse_wire_u32(s, pre3, self.audio_event_net_id, rest3);
    }
}

impl SPlayVOAudioEvent {

    pub fn encode(&self, out: &mut Vec<u8>)
        requires
            self@.valid(),
        ensures
            final(out)@ == old(out)@ + self@.wire(),
    {
        let ghost base = out@;
        put_fixed(out, &self.folder_name, 64);
        put_fixed(out, &self.event_id, 64);
        put_u8(out, self.callback_type);
        put_u32(out, self.audio_event_net_id);
        assert(out@ =~= base + self@.wire());
    }

    pub fn decode(s: &[u8], i: usize) -> (r: Option<(Self, usize)>)
        ensures
            match SPlayVOAudioEventView::parse(s@, i as int) {
                Some((v, j)) => r is Some && r->Some_0.0@ == v && r->Some_0.1 == j,
                None => r is None,
            },
    {
        let slen = s.len();
        assert(s@.len() == slen);
        let (v0, j0) = match take_fixed(s, i, 64) { Some(v) => v, None => { return None; } };
        let (v1, j1) = match take_fixed(s, j0, 64) { Some(v) => v, None => { return None; } };
        let (v2, j2) = match take_u8(s, j1) { Some(v) => v, None => { return None; } };
        let (v3, j3) = match take_u32(s, j2) { Some(v) => v, None => { return None; } };
        Some((SPlayVOAudioEvent { folder_name: v0, event_id: v1, callback_type: v2, audio_event_net_id: v3 }, j3))
    }

    /// The full game frame carrying this packet.
    pub fn to_bytes(&self, sender_net_id: u32) -> (r: Vec<u8>)
        requires
            self@.valid(),
        ensures
            r@ == game_frame(0x7D, sender_net_id, self@.wire()),
    {
        let mut payload: Vec<u8> = Vec::new();
        self.encode(&mut payload);
        game_frame_bytes(0x7D, sender_net_id, &payload)
    }
}

/// AI debug command.
#[derive(Clone, Debug, PartialEq, Eq)]
pub struct SAiCommand {
    pub command: Vec<u8>,
}

pub struct SAiCommandView {
    pub command: Seq<u8>,
}

impl View for SAiCommand {
    type V = SAiCommandView;

    open spec fn view(&self) -> SAiCommandView {
        SAiCommandView {
            command: self.command@,
        }
    }
}

impl SAiCommandView {
    pub open spec fn valid(self) -> bool {
        &&& zbytes_fits(self.command)
    }

    pub open spec fn wire(self) -> Seq<u8> {
        wire_zbytes(self.command)
    }

    pub open spec fn parse(s: Seq<u8>, i: int) -> Option<(Self, int)> {
        match parse_zbytes(s, i) {
            Some((v0, j0)) =>
            Some((SAiCommandView { command: v0 }, j0)),
            None => None,
        }
    }

    /// Parsing an encoded record restores it.
    #[verifier::rlimit(100)]
    #[verifier::spinoff_prover]
    pub proof fn lemma_parse_wire(self, s: Seq<u8>, pre: Seq<u8>, post: Seq<u8>)
        requires
            self.valid(),
            s == pre + self.wire() + post,
        ensures
            Self::parse(s, pre.len() as int) == Some((self, (pre.len() + self.wire().len()) as int)),
    {
        vstd::bytes::lemma_auto_spec_u16_to_from_le_bytes();
        vstd::bytes::lemma_auto_spec_u32_to_from_le_bytes();
        vstd::bytes::lemma_auto_spec_u64_to_from_le_bytes();
        let w0 = wire_zbytes(self.command);
        let rest0 = post;
        assert(s =~= pre + w0 + rest0);
        lemma_parse_wire_zbytes(s, pre, self.command, rest0);
    }
}

impl SAiCommand {

    pub fn encode(&self, out: &mut Vec<u8>)
        requires
            self@.valid(),
        ensures
            final(out)@ == old(out)@ + self@.wire(),
    {
        let ghost base = out@;
        put_zbytes(out, &self.command);
        assert(out@ =~= base + self@.wire());
    }

    pub fn decode(s: &[u8], i: usize) -> (r: Option<(Self, usize)>)
        ensures
            match SAiCommandView::parse(s@, i as int) {
                Some((v, j)) => r is Some && r->Some_0.0@ == v && r->Some_0.1 == j,
                None => r is None,
            },
    {
        let slen = s.len();
        assert(s@.len() == slen);
        let (v0, j0) = match take_zbytes(s, i) { Some(v) => v, None => { return None; } };
        Some((SAiCommand { command: v0 }, j0))
    }

    /// The full game frame carrying this packet.
    pub fn to_bytes(&self, sender_net_id: u32) -> (r: Vec<u8>)
        requires
            self@.valid(),
        ensures
            r@ == game_frame(0x7E, sender_net_id, self@.wire()),
    {
        let mut payload: Vec<u8> = Vec::new();
        self.encode(&mut payload);
        game_frame_bytes(0x7E, sender_net_id, &payload)
    }
}

/// Targeting-reticle cancel.
#[derive(Clone, Copy, Debug, PartialEq, Eq, Structural)]
pub struct SCharCancelTargetingReticle {
    pub spell_slot: SpellSlotBitfield,
}

impl SCharCancelTargetingReticle {
    pub open spec fn valid(self) -> bool {
        &&& self.spell_slot.valid()
    }

    pub open spec fn wire(self) -> Seq<u8> {
        self.spell_slot.wire()
    }

    pub open spec fn parse(s: Seq<u8>, i: int) -> Option<(Self, int)> {
        match SpellSlotBitfield::parse(s, i) {
            Some((v0, j0)) =>
            Some((SCharCancelTargetingReticle { spell_slot: v0 }, j0)),
            None => None,
        }
    }

    /// Parsing an encoded record restores it.
    #[verifier::rlimit(100)]
    #[verifier::spinoff_prover]
    pub proof fn lemma_parse_wire(self, s: Seq<u8>, pre: Seq<u8>, post: Seq<u8>)
        requires
            self.valid(),
            s == pre + self.wire() + post,
        ensures
            Self::parse(s, pre.len() as int) == Some((self, (pre.len() + self.wire().len()) as int)),
    {
        vstd::bytes::lemma_auto_spec_u16_to_from_le_bytes();
        vstd::bytes::lemma_auto_spec_u32_to_from_le_bytes();
        vstd::bytes::lemma_auto_spec_u64_to_from_le_bytes();
        let w0 = self.spell_slot.wire();
        let rest0 = post;
        assert(s =~= pre + w0 + rest0);
        self.spell_slot.lemma_parse_wire(s, pre, rest0);
    }

    pub fn encode(&self, out: &mut Vec<u8>)
        requires
            self.valid(),
        ensures
            final(out)@ == old(out)@ + self.wire(),
    {
        let ghost base = out@;
        self.spell_slot.encode(out);
        assert(out@ =~= base + self.wire());
    }

    pub fn decode(s: &[u8], i: usize) -> (r: Option<(Self, usize)>)
        ensures
            parsed(Self::parse(s@, i as int), r),
    {
        let slen = s.len();
        assert(s@.len() == slen);
        let (v0, j0) = match SpellSlotBitfield::decode(s, i) { Some(v) => v, None => { return None; } };
        Some((SCharCancelTargetingReticle { spell_slot: v0 }, j0))
    }

    /// The full game frame carrying this packet.
    pub fn to_bytes(&self, sender_net_id: u32) -> (r: Vec<u8>)
        requires
            self.valid(),
        ensures
            r@ == game_frame(0x8B, sender_net_id, self.wire()),
    {
        let mut payload: Vec<u8> = Vec::new();
        self.encode(&mut payload);
        game_frame_bytes(0x8B, sender_net_id, &payload)
    }
}

/// Quest window update.
#[derive(Clone, Debug, PartialEq, Eq)]
pub struct SHandleQuestUpdate {
    pub objective: Vec<u8>,
    pub tooltip: Vec<u8>,
    pub reward: Vec<u8>,
    pub quest_type: u8,
    pub command: u8,
    pub handle_rollovers: bool,
    pub quest_id: u32,
}

pub struct SHandleQuestUpdateView {
    pub objective: Seq<u8>,
    pub tooltip: Seq<u8>,
    pub reward: Seq<u8>,
    pub quest_type: u8,
    pub command: u8,
    pub handle_rollovers: bool,
    pub quest_id: u32,
}

impl View for SHandleQuestUpdate {
    type V = SHandleQuestUpdateView;

    open spec fn view(&self) -> SHandleQuestUpdateView {
        SHandleQuestUpdateView {
            objective: self.objective@,
            tooltip: self.tooltip@,
            reward: self.reward@,
            quest_type: self.quest_type,
            command: self.command,
            handle_rollovers: self.handle_rollovers,
            quest_id: self.quest_id,
        }
    }
}

impl SHandleQuestUpdateView {
    pub open spec fn valid(self) -> bool {
        &&& fixed_fits(self.objective, 128)
        &&& fixed_fits(self.tooltip, 128)
        &&& fixed_fits(self.reward, 128)
    }

    pub open spec fn wire(self) -> Seq<u8> {
        wire_fixed(self.objective, 128) + wire_fixed(self.tooltip, 128) + wire_fixed(self.reward, 128) + wire_u8(self.quest_type) + wire_u8(self.command) + wire_bool(self.handle_rollovers) + wire_u32(self.quest_id)
    }

    pub open spec fn parse(s: Seq<u8>, i: int) -> Option<(Self, int)> {
        match parse_fixed(s, i, 128) {
            Some((v0, j0)) =>
            match parse_fixed(s, j0, 128) {
                Some((v1, j1)) =>
                match parse_fixed(s, j1, 128) {
                    Some((v2, j2)) =>
                    match parse_u8(s, j2) {
                        Some((v3, j3)) =>
                        match parse_u8(s, j3) {
                            Some((v4, j4)) =>
                            match parse_bool(s, j4) {
                                Some((v5, j5)) =>
                                match parse_u32(s, j5) {
                                    Some((v6, j6)) =>
                                    Some((SHandleQuestUpdateView { objective: v0, tooltip: v1, reward: v2, quest_type: v3, command: v4, handle_rollovers: v5, quest_id: v6 }, j6)),
                                    None => None,
                                },
                                None => None,
                            },
                            None => None,
                        },
                        None => None,
                    },
                    None => None,
                },
                None => None,
            },
            None => None,
        }
    }

    /// Parsing an encoded record restores it.
    #[verifier::rlimit(100)]
    #[verifier::spinoff_prover]
    pub proof fn lemma_parse_wire(self, s: Seq<u8>, pre: Seq<u8>, post: Seq<u8>)
        requires
            self.valid(),
            s == pre + self.wire() + post,
        ensures
            Self::parse(s, pre.len() as int) == Some((self, (pre.len() + self.wire().len()) as int)),
    {
        vstd::bytes::lemma_auto_spec_u16_to_from_le_bytes();
        vstd::bytes::lemma_auto_spec_u32_to_from_le_bytes();
        vstd::bytes::lemma_auto_spec_u64_to_from_le_bytes();
        let w0 = wire_fixed(self.objective, 128);
        let w1 = wire_fixed(self.tooltip, 128);
        let w2 = wire_fixed(self.reward, 128);
        let w3 = wire_u8(self.quest_type);
        let w4 = wire_u8(self.command);
        let w5 = wire_bool(self.handle_rollovers);
        let w6 = wire_u32(self.quest_id);
        let rest6 = post;
        let rest5 = w6 + rest6;
        let rest4 = w5 + rest5;
        let rest3 = w4 + rest4;
        let rest2 = w3 + rest3;
        let rest1 = w2 + rest2;
        let rest0 = w1 + rest1;
        assert(s =~= pre + w0 + rest0);
        lemma_parse_wire_fixed(s, pre, self.objective, 128, rest0);
        let pre1 = pre + w0;
        assert(s =~= pre1 + w1 + rest1);
        lemma_parse_wire_fixed(s, pre1, self.tooltip, 128, rest1);
        let pre2 = pre1 + w1;
        assert(s =~= pre2 + w2 + rest2);
        lemma_parse_wire_fixed(s, pre2, self.reward, 128, rest2);
        let pre3 = pre2 + w2;
        assert(s =~= pre3 + w3 + rest3);
        lemma_parse_wire_u8(s, pre3, self.quest_type, rest3);
        let pre4 = pre3 + w3;
        assert(s =~= pre4 + w4 + rest4);
        lemma_parse_wire_u8(s, pre4, self.command, rest4);
        let pre5 = pre4 + w4;
        assert(s =~= pre5 + w5 + rest5);
        lemma_parse_wire_bool(s, pre5, self.handle_rollovers, rest5);
        let pre6 = pre5 + w5;
        assert(s =~= pre6 + w6 + rest6);
        lemma_parse_wire_u32(s, pre6, self.quest_id, rest6);
    }
}

impl SHandleQuestUpdate {

    pub fn encode(&self, out: &mut Vec<u8>)
        requires
            self@.valid(),
        ensures
            final(out)@ == old(out)@ + self@.wire(),
    {
        let ghost base = out@;
        put_fixed(out, &self.objective, 128);
        put_fixed(out, &self.tooltip, 128);
        put_fixed(out, &self.reward, 128);
        put_u8(out, self.quest_type);
        put_u8(out, self.command);
        put_bool(out, self.handle_rollovers);
        put_u32(out, self.quest_id);
        assert(out@ =~= base + self@.wire());
    }

    pub fn decode(s: &[u8], i: usize) -> (r: Option<(Self, usize)>)
        ensures
            match SHandleQuestUpdateView::parse(s@, i as int) {
                Some((v, j)) => r is Some && r->Some_0.0@ == v && r->Some_0.1 == j,
                None => r is None,
            },
    {
        let slen = s.len();
        assert(s@.len() == slen);
        let (v0, j0) = match take_fixed(s, i, 128) { Some(v) => v, None => { return None; } };
        let (v1, j1) = match take_fixed(s, j0, 128) { Some(v) => v, None => { return None; } };
        let (v2, j2) = match take_fixed(s, j1, 128) { Some(v) => v, None => { return None; } };
        let (v3, j3) = match take_u8(s, j2) { Some(v) => v, None => { return None; } };
        let (v4, j4) = match take_u8(s, j3) { Some(v) => v, None => { return None; } };
        let (v5, j5) = match take_bool(s, j4) { Some(v) => v, None => { return None; } };
        let (v6, j6) = match take_u32(s, j5) { Some(v) => v, None => { return None; } };
        Some((SHandleQuestUpdate { objective: v0, tooltip: v1, reward: v2, quest_type: v3, command: v4, handle_rollovers: v5, quest_id: v6 }, j6))
    }

    /// The full game frame carrying this packet.
    pub fn to_bytes(&self, sender_net_id: u32) -> (r: Vec<u8>)
        requires
            self@.valid(),
        ensures
            r@ == game_frame(0x90, sender_net_id, self@.wire()),
    {
        let mut payload: Vec<u8> = Vec::new();
        self.encode(&mut payload);
        game_frame_bytes(0x90, sender_net_id, &payload)
    }
}

/// Character voice override.
#[derive(Clone, Debug, PartialEq, Eq)]
pub struct SChangeCharacterVoice {
    pub is_reset: bool,
    pub voice_override: Vec<u8>,
}

pub struct SChangeCharacterVoiceView {
    pub is_reset: bool,
    pub voice_override: Seq<u8>,
}

impl View for SChangeCharacterVoice {
    type V = SChangeCharacterVoiceView;

    open spec fn view(&self) -> SChangeCharacterVoiceView {
        SChangeCharacterVoiceView {
            is_reset: self.is_reset,
            voice_override: self.voice_override@,
        }
    }
}

impl SChangeCharacterVoiceView {
    pub open spec fn valid(self) -> bool {
        &&& zbytes_fits(self.voice_override)
    }

    pub open spec fn wire(self) -> Seq<u8> {
        wire_bool(self.is_reset) + wire_zbytes(self.voice_override)
    }

    pub open spec fn parse(s: Seq<u8>, i: int) -> Option<(Self, int)> {
        match parse_bool(s, i) {
            Some((v0, j0)) =>
            match parse_zbytes(s, j0) {
                Some((v1, j1)) =>
                Some((SChangeCharacterVoiceView { is_reset: v0, voice_override: v1 }, j1)),
                None => None,
            },
            None => None,
        }
    }

    /// Parsing an encoded record restores it.
    #[verifier::rlimit(100)]
    #[verifier::spinoff_prover]
    pub proof fn lemma_parse_wire(self, s: Seq<u8>, pre: Seq<u8>, post: Seq<u8>)
        requires
            self.valid(),
            s == pre + self.wire() + post,
        ensures
            Self::parse(s, pre.len() as int) == Some((self, (pre.len() + self.wire().len()) as int)),
    {
        vstd::bytes::lemma_auto_spec_u16_to_from_le_bytes();
        vstd::bytes::lemma_auto_spec_u32_to_from_le_bytes();
        vstd::bytes::lemma_auto_spec_u64_to_from_le_bytes();
        let w0 = wire_bool(self.is_reset);
        let w1 = wire_zbytes(self.voice_override);
        let rest1 = post;
        let rest0 = w1 + rest1;
        assert(s =~= pre + w0 + rest0);
        lemma_parse_wire_bool(s, pre, self.is_reset, rest0);
        let pre1 = pre + w0;
        assert(s =~= pre1 + w1 + rest1);
        lemma_parse_wire_zbytes(s, pre1, self.voice_override, rest1);
    }
}

impl SChangeCharacterVoice {

    pub fn encode(&self, out: &mut Vec<u8>)
        requires
            self@.valid(),
        ensures
            final(out)@ == old(out)@ + self@.wire(),
    {
        let ghost base = out@;
        put_bool(out, self.is_reset);
        put_zbytes(out, &self.voice_override);
        assert(out@ =~= base + self@.wire());
    }

    pub fn decode(s: &[u8], i: usize) -> (r: Option<(Self, usize)>)
        ensures
            match SChangeCharacterVoiceView::parse(s@, i as int) {
                Some((v, j)) => r is Some && r->Some_0.0@ == v && r->Some_0.1 == j,
                None => r is None,
            },
    {
        let slen = s.len();
        assert(s@.len() == slen);
        let (v0, j0) = match take_bool(s, i) { Some(v) => v, None => { return None; } };
        let (v1, j1) = match take_zbytes(s, j0) { Some(v) => v, None => { return None; } };
        Some((SChangeCharacterVoice { is_reset: v0, voice_override: v1 }, j1))
    }

    /// The full game frame carrying this packet.
    pub fn to_bytes(&self, sender_net_id: u32) -> (r: Vec<u8>)
        requires
            self@.valid(),
        ensures
            r@ == game_frame(0x9E, sender_net_id, self@.wire()),
    {
        let mut payload: Vec<u8> = Vec::new();
        self.encode(&mut payload);
        game_frame_bytes(0x9E, sender_net_id, &payload)
    }
}

/// Character data swap.
#[derive(Clone, Debug, PartialEq, Eq)]
pub struct SChangeCharacterData {
    pub stack_id: u32,
    pub use_spells: bool,
    pub skin_name: Vec<u8>,
}

pub struct SChangeCharacterDataView {
    pub stack_id: u32,
    pub use_spells: bool,
    pub skin_name: Seq<u8>,
}

impl View for SChangeCharacterData {
    type V = SChangeCharacterDataView;

    open spec fn view(&self) -> SChangeCharacterDataView {
        SChangeCharacterDataView {
            stack_id: self.stack_id,
            use_spells: self.use_spells,
            skin_name: self.skin_name@,
        }
    }
}

impl SChangeCharacterDataView {
    pub open spec fn valid(self) -> bool {
        &&& zbytes_fits(self.skin_name)
    }

    pub open spec fn wire(self) -> Seq<u8> {
        wire_u32(self.stack_id) + wire_bool(self.use_spells) + wire_zbytes(self.skin_name)
    }

    pub open spec fn parse(s: Seq<u8>, i: int) -> Option<(Self, int)> {
        match parse_u32(s, i) {
            Some((v0, j0)) =>
            match parse_bool(s, j0) {
                Some((v1, j1)) =>
                match parse_zbytes(s, j1) {
                    Some((v2, j2)) =>
                    Some((SChangeCharacterDataView { stack_id: v0, use_spells: v1, skin_name: v2 }, j2)),
                    None => None,
                },
                None => None,
            },
            None => None,
        }
    }

    /// Parsing an encoded record restores it.
    #[verifier::rlimit(100)]
    #[verifier::spinoff_prover]
    pub proof fn lemma_parse_wire(self, s: Seq<u8>, pre: Seq<u8>, post: Seq<u8>)
        requires
            self.valid(),
            s == pre + self.wire() + post,
        ensures
            Self::parse(s, pre.len() as int) == Some((self, (pre.len() + self.wire().len()) as int)),
    {
        vstd::bytes::lemma_auto_spec_u16_to_from_le_bytes();
        vstd::bytes::lemma_auto_spec_u32_to_from_le_bytes();
        vstd::bytes::lemma_auto_spec_u64_to_from_le_bytes();
        let w0 = wire_u32(self.stack_id);
        let w1 = wire_bool(self.use_spells);
        let w2 = wire_zbytes(self.skin_name);
        let rest2 = post;
        let rest1 = w2 + rest2;
        let rest0 = w1 + rest1;
        assert(s =~= pre + w0 + rest0);
        lemma_parse_wire_u32(s, pre, self.stack_id, rest0);
        let pre1 = pre + w0;
        assert(s =~= pre1 + w1 + rest1);
        lemma_parse_wire_bool(s, pre1, self.use_spells, rest1);
        let pre2 = pre1 + w1;
        assert(s =~= pre2 + w2 + rest2);
        lemma_parse_wire_zbytes(s, pre2, self.skin_name, rest2);
    }
}

impl SChangeCharacterData {

    pub fn encode(&self, out: &mut Vec<u8>)
        requires
            self@.valid(),
        ensures
            final(out)@ == old(out)@ + self@.wire(),
    {
        let ghost base = out@;
        put_u32(out, self.stack_id);
        put_bool(out, self.use_spells);
        put_zbytes(out, &self.skin_name);
        assert(out@ =~= base + self@.wire());
    }

    pub fn decode(s: &[u8], i: usize) -> (r: Option<(Self, usize)>)
        ensures
            match SChangeCharacterDataView::parse(s@, i as int) {
                Some((v, j)) => r is Some && r->Some_0.0@ == v && r->Some_0.1 == j,
                None => r is None,
            },
    {
        let slen = s.len();
        assert(s@.len() == slen);
        let (v0, j0) = match take_u32(s, i) { Some(v) => v, None => { return None; } };
        let (v1, j1) = match take_bool(s, j0) { Some(v) => v, None => { return None; } };
        let (v2, j2) = match take_zbytes(s, j1) { Some(v) => v, None => { return None; } };
        Some((SChangeCharacterData { stack_id: v0, use_spells: v1, skin_name: v2 }, j2))
    }

    /// The full game frame carrying this packet.
    pub fn to_bytes(&self, sender_net_id: u32) -> (r: Vec<u8>)
        requires
            self@.valid(),
        ensures
            r@ == game_frame(0x9F, sender_net_id, self@.wire()),
    {
        let mut payload: Vec<u8> = Vec::new();
        self.encode(&mut payload);
        game_frame_bytes(0x9F, sender_net_id, &payload)
    }
}

/// Turret creation.
#[derive(Clone, Debug, PartialEq, Eq)]
pub struct SCreateTurret {
    pub unite_net_id: u32,
    pub unit_net_node_id: u8,
    pub name: Vec<u8>,
}

pub struct SCreateTurretView {
    pub unite_net_id: u32,
    pub unit_net_node_id: u8,
    pub name: Seq<u8>,
}

impl View for SCreateTurret {
    type V = SCreateTurretView;

    open spec fn view(&self) -> SCreateTurretView {
        SCreateTurretView {
            unite_net_id: self.unite_net_id,
            unit_net_node_id: self.unit_net_node_id,
            name: self.name@,
        }
    }
}

impl SCreateTurretView {
    pub open spec fn valid(self) -> bool {
        &&& fixed_fits(self.name, 64)
    }

    pub open spec fn wire(self) -> Seq<u8> {
        wire_u32(self.unite_net_id) + wire_u8(self.unit_net_node_id) + wire_fixed(self.name, 64)
    }

    pub open spec fn parse(s: Seq<u8>, i: int) -> Option<(Self, int)> {
        match parse_u32(s, i) {
            Some((v0, j0)) =>
            match parse_u8(s, j0) {
                Some((v1, j1)) =>
                match parse_fixed(s, j1, 64) {
                    Some((v2, j2)) =>
                    Some((SCreateTurretView { unite_net_id: v0, unit_net_node_id: v1, name: v2 }, j2)),
                    None => None,
                },
                None => None,
            },
            None => None,
        }
    }

    /// Parsing an encoded record restores it.
    #[verifier::rlimit(100)]
    #[verifier::spinoff_prover]
    pub proof fn lemma_parse_wire(self, s: Seq<u8>, pre: Seq<u8>, post: Seq<u8>)
        requires
            self.valid(),
            s == pre + self.wire() + post,
        ensures
            Self::parse(s, pre.len() as int) == Some((self, (pre.len() + self.wire().len()) as int)),
    {
        vstd::bytes::lemma_auto_spec_u16_to_from_le_bytes();
        vstd::bytes::lemma_auto_spec_u32_to_from_le_bytes();
        vstd::bytes::lemma_auto_spec_u64_to_from_le_bytes();
        let w0 = wire_u32(self.unite_net_id);
        let w1 = wire_u8(self.unit_net_node_id);
        let w2 = wire_fixed(self.name, 64);
        let rest2 = post;
        let rest1 = w2 + rest2;
        let rest0 = w1 + rest1;
        assert(s =~= pre + w0 + rest0);
        lemma_parse_wire_u32(s, pre, self.unite_net_id, rest0);
        let pre1 = pre + w0;
        assert(s =~= pre1 + w1 + rest1);
        lemma_parse_wire_u8(s, pre1, self.unit_net_node_id, rest1);
        let pre2 = pre1 + w1;
        assert(s =~= pre2 + w2 + rest2);
        lemma_parse_wire_fixed(s, pre2, self.name, 64, rest2);
    }
}

impl SCreateTurret {

    pub fn encode(&self, out: &mut Vec<u8>)
        requires
            self@.valid(),
        ensures
            final(out)@ == old(out)@ + self@.wire(),
    {
        let ghost base = out@;
        put_u32(out, self.unite_net_id);
        put_u8(out, self.unit_net_node_id);
        put_fixed(out, &self.name, 64);
        assert(out@ =~= base + self@.wire());
    }

    pub fn decode(s: &[u8], i: usize) -> (r: Option<(Self, usize)>)
        ensures
            match SCreateTurretView::parse(s@, i as int) {
                Some((v, j)) => r is Some && r->Some_0.0@ == v && r->Some_0.1 == j,
                None => r is None,
            },
    {
        let slen = s.len();
        assert(s@.len() == slen);
        let (v0, j0) = match take_u32(s, i) { Some(v) => v, None => { return None; } };
        let (v1, j1) = match take_u8(s, j0) { Some(v) => v, None => { return None; } };
        let (v2, j2) = match take_fixed(s, j1, 64) { Some(v) => v, None => { return None; } };
        Some((SCreateTurret { unite_net_id: v0, unit_net_node_id: v1, name: v2 }, j2))
    }

    /// The full game frame carrying this packet.
    pub fn to_bytes(&self, sender_net_id: u32) -> (r: Vec<u8>)
        requires
            self@.valid(),
        ensures
            r@ == game_frame(0xA5, sender_net_id, self@.wire()),
    {
        let mut payload: Vec<u8> = Vec::new();
        self.encode(&mut payload);
        game_frame_bytes(0xA5, sender_net_id, &payload)
    }
}

/// Auxiliary text display.
#[derive(Clone, Debug, PartialEq, Eq)]
pub struct SShowAuxiliaryText {
    pub text_string_id: Vec<u8>,
}

pub struct SShowAuxiliaryTextView {
    pub text_string_id: Seq<u8>,
}

impl View for SShowAuxiliaryText {
    type V = SShowAuxiliaryTextView;

    open spec fn view(&self) -> SShowAuxiliaryTextView {
        SShowAuxiliaryTextView {
            text_string_id: self.text_string_id@,
        }
    }
}

impl SShowAuxiliaryTextView {
    pub open spec fn valid(self) -> bool {
        &&& zbytes_fits(self.text_string_id)
    }

    pub open spec fn wire(self) -> Seq<u8> {
        wire_zbytes(self.text_string_id)
    }

    pub open spec fn parse(s: Seq<u8>, i: int) -> Option<(Self, int)> {
        match parse_zbytes(s, i) {
            Some((v0, j0)) =>
            Some((SShowAuxiliaryTextView { text_string_id: v0 }, j0)),
            None => None,
        }
    }

    /// Parsing an encoded record restores it.
    #[verifier::rlimit(100)]
    #[verifier::spinoff_prover]
    pub proof fn lemma_parse_wire(self, s: Seq<u8>, pre: Seq<u8>, post: Seq<u8>)
        requires
            self.valid(),
            s == pre + self.wire() + post,
        ensures
            Self::parse(s, pre.len() as int) == Some((self, (pre.len() + self.wire().len()) as int)),
    {
        vstd::bytes::lemma_auto_spec_u16_to_from_le_bytes();
        vstd::bytes::lemma_auto_spec_u32_to_from_le_bytes();
        vstd::bytes::lemma_auto_spec_u64_to_from_le_bytes();
        let w0 = wire_zbytes(self.text_string_id);
        let rest0 = post;
        assert(s =~= pre + w0 + rest0);
        lemma_parse_wire_zbytes(s, pre, self.text_string_id, rest0);
    }
}

impl SShowAuxiliaryText {

    pub fn encode(&self, out: &mut Vec<u8>)
        requires
            self@.valid(),
        ensures
            final(out)@ == old(out)@ + self@.wire(),
    {
        let ghost base = out@;
        put_zbytes(out, &self.text_string_id);
        assert(out@ =~= base + self@.wire());
    }

    pub fn decode(s: &[u8], i: usize) -> (r: Option<(Self, usize)>)
        ensures
            match SShowAuxiliaryTextView::parse(s@, i as int) {
                Some((v, j)) => r is Some && r->Some_0.0@ == v && r->Some_0.1 == j,
                None => r is None,
            },
    {
        let slen = s.len();
        assert(s@.len() == slen);
        let (v0, j0) = match take_zbytes(s, i) { Some(v) => v, None => { return None; } };
        Some((SShowAuxiliaryText { text_string_id: v0 }, j0))
    }

    /// The full game frame carrying this packet.
    pub fn to_bytes(&self, sender_net_id: u32) -> (r: Vec<u8>)
        requires
            self@.valid(),
        ensures
            r@ == game_frame(0xA8, sender_net_id, self@.wire()),
    {
        let mut payload: Vec<u8> = Vec::new();
        self.encode(&mut payload);
        game_frame_bytes(0xA8, sender_net_id, &payload)
    }
}

/// Auxiliary text refresh.
#[derive(Clone, Debug, PartialEq, Eq)]
pub struct SRefreshAuxiliaryText {
    pub text_string_id: Vec<u8>,
}

pub struct SRefreshAuxiliaryTextView {
    pub text_string_id: Seq<u8>,
}

impl View for SRefreshAuxiliaryText {
    type V = SRefreshAuxiliaryTextView;

    open spec fn view(&self) -> SRefreshAuxiliaryTextView {
        SRefreshAuxiliaryTextView {
            text_string_id: self.text_string_id@,
        }
    }
}

impl SRefreshAuxiliaryTextView {
    pub open spec fn valid(self) -> bool {
        &&& zbytes_fits(self.text_string_id)
    }

    pub open spec fn wire(self) -> Seq<u8> {
        wire_zbytes(self.text_string_id)
    }

    pub open spec fn parse(s: Seq<u8>, i: int) -> Option<(Self, int)> {
        match parse_zbytes(s, i) {
            Some((v0, j0)) =>
            Some((SRefreshAuxiliaryTextView { text_string_id: v0 }, j0)),
            None => None,
        }
    }

    /// Parsing an encoded record restores it.
    #[verifier::rlimit(100)]
    #[verifier::spinoff_prover]
    pub proof fn lemma_parse_wire(self, s: Seq<u8>, pre: Seq<u8>, post: Seq<u8>)
        requires
            self.valid(),
            s == pre + self.wire() + post,
        ensures
            Self::parse(s, pre.len() as int) == Some((self, (pre.len() + self.wire().len()) as int)),
    {
        vstd::bytes::lemma_auto_spec_u16_to_from_le_bytes();
        vstd::bytes::lemma_auto_spec_u32_to_from_le_bytes();
        vstd::bytes::lemma_auto_spec_u64_to_from_le_bytes();
        let w0 = wire_zbytes(self.text_string_id);
        let rest0 = post;
        assert(s =~= pre + w0 + rest0);
        lemma_parse_wire_zbytes(s, pre, self.text_string_id, rest0);
    }
}

impl SRefreshAuxiliaryText {

    pub fn encode(&self, out: &mut Vec<u8>)
        requires
            self@.valid(),
        ensures
            final(out)@ == old(out)@ + self@.wire(),
    {
        let ghost base = out@;
        put_zbytes(out, &self.text_string_id);
        assert(out@ =~= base + self@.wire());
    }

    pub fn decode(s: &[u8], i: usize) -> (r: Option<(Self, usize)>)
        ensures
            match SRefreshAuxiliaryTextView::parse(s@, i as int) {
                Some((v, j)) => r is Some && r->Some_0.0@ == v && r->Some_0.1 == j,
                None => r is None,
            },
    {
        let slen = s.len();
        assert(s@.len() == slen);
        let (v0, j0) = match take_zbytes(s, i) { Some(v) => v, None => { return None; } };
        Some((SRefreshAuxiliaryText { text_string_id: v0 }, j0))
    }

    /// The full game frame carrying this packet.
    pub fn to_bytes(&self, sender_net_id: u32) -> (r: Vec<u8>)
        requires
            self@.valid(),
        ensures
            r@ == game_frame(0xB9, sender_net_id, self@.wire()),
    {
        let mut payload: Vec<u8> = Vec::new();
        self.encode(&mut payload);
        game_frame_bytes(0xB9, sender_net_id, &payload)
    }
}

/// Tutorial popup.
#[derive(Clone, Debug, PartialEq, Eq)]
pub struct SOpenTutorialPopup {
    pub message_box_string_id: Vec<u8>,
}

pub struct SOpenTutorialPopupView {
    pub message_box_string_id: Seq<u8>,
}

impl View for SOpenTutorialPopup {
    type V = SOpenTutorialPopupView;

    open spec fn view(&self) -> SOpenTutorialPopupView {
        SOpenTutorialPopupView {
            message_box_string_id: self.message_box_string_id@,
        }
    }
}

impl SOpenTutorialPopupView {
    pub open spec fn valid(self) -> bool {
        &&& zbytes_fits(self.message_box_string_id)
    }

    pub open spec fn wire(self) -> Seq<u8> {
        wire_zbytes(self.message_box_string_id)
    }

    pub open spec fn parse(s: Seq<u8>, i: int) -> Option<(Self, int)> {
        match parse_zbytes(s, i) {
            Some((v0, j0)) =>
            Some((SOpenTutorialPopupView { message_box_string_id: v0 }, j0)),
            None => None,
        }
    }

    /// Parsing an encoded record restores it.
    #[verifier::rlimit(100)]
    #[verifier::spinoff_prover]
    pub proof fn lemma_parse_wire(self, s: Seq<u8>, pre: Seq<u8>, post: Seq<u8>)
        requires
            self.valid(),
            s == pre + self.wire() + post,
        ensures
            Self::parse(s, pre.len() as int) == Some((self, (pre.len() + self.wire().len()) as int)),
    {
        vstd::bytes::lemma_auto_spec_u16_to_from_le_bytes();
        vstd::bytes::lemma_auto_spec_u32_to_from_le_bytes();
        vstd::bytes::lemma_auto_spec_u64_to_from_le_bytes();
        let w0 = wire_zbytes(self.message_box_string_id);
        let rest0 = post;
        assert(s =~= pre + w0 + rest0);
        lemma_parse_wire_zbytes(s, pre, self.message_box_string_id, rest0);
    }
}

impl SOpenTutorialPopup {

    pub fn encode(&self, out: &mut Vec<u8>)
        requires
            self@.valid(),
        ensures
            final(out)@ == old(out)@ + self@.wire(),
    {
        let ghost base = out@;
        put_zbytes(out, &self.message_box_string_id);
        assert(out@ =~= base + self@.wire());
    }

    pub fn decode(s: &[u8], i: usize) -> (r: Option<(Self, usize)>)
        ensures
            match SOpenTutorialPopupView::parse(s@, i as int) {
                Some((v, j)) => r is Some && r->Some_0.0@ == v && r->Some_0.1 == j,
                None => r is None,
            },
    {
        let slen = s.len();
        assert(s@.len() == slen);
        let (v0, j0) = match take_zbytes(s, i) { Some(v) => v, None => { return None; } };
        Some((SOpenTutorialPopup { message_box_string_id: v0 }, j0))
    }

    /// The full game frame carrying this packet.
    pub fn to_bytes(&self, sender_net_id: u32) -> (r: Vec<u8>)
        requires
            self@.valid(),
        ensures
            r@ == game_frame(0xBB, sender_net_id, self@.wire()),
    {
        let mut payload: Vec<u8> = Vec::new();
        self.encode(&mut payload);
        game_frame_bytes(0xBB, sender_net_id, &payload)
    }
}

/// Minimap icon assignment.
#[derive(Clone, Debug, PartialEq, Eq)]
pub struct SUnitSetMinimapIcon {
    pub unit_net_id: u32,
    pub icon_name: Vec<u8>,
}

pub struct SUnitSetMinimapIconView {
    pub unit_net_id: u32,
    pub icon_name: Seq<u8>,
}

impl View for SUnitSetMinimapIcon {
    type V = SUnitSetMinimapIconView;

    open spec fn view(&self) -> SUnitSetMinimapIconView {
        SUnitSetMinimapIconView {
            unit_net_id: self.unit_net_id,
            icon_name: self.icon_name@,
        }
    }
}

impl SUnitSetMinimapIconView {
    pub open spec fn valid(self) -> bool {
        &&& fixed_fits(self.icon_name, 64)
    }

    pub open spec fn wire(self) -> Seq<u8> {
        wire_u32(self.unit_net_id) + wire_fixed(self.icon_name, 64)
    }

    pub open spec fn parse(s: Seq<u8>, i: int) -> Option<(Self, int)> {
        match parse_u32(s, i) {
            Some((v0, j0)) =>
            match parse_fixed(s, j0, 64) {
                Some((v1, j1)) =>
                Some((SUnitSetMinimapIconView { unit_net_id: v0, icon_name: v1 }, j1)),
                None => None,
            },
            None => None,
        }
    }

    /// Parsing an encoded record restores it.
    #[verifier::rlimit(100)]
    #[verifier::spinoff_prover]
    pub proof fn lemma_parse_wire(self, s: Seq<u8>, pre: Seq<u8>, post: Seq<u8>)
        requires
            self.valid(),
            s == pre + self.wire() + post,
        ensures
            Self::parse(s, pre.len() as int) == Some((self, (pre.len() + self.wire().len()) as int)),
    {
        vstd::bytes::lemma_auto_spec_u16_to_from_le_bytes();
        vstd::bytes::lemma_auto_spec_u32_to_from_le_bytes();
        vstd::bytes::lemma_auto_spec_u64_to_from_le_bytes();
        let w0 = wire_u32(self.unit_net_id);
        let w1 = wire_fixed(self.icon_name, 64);
        let rest1 = post;
        let rest0 = w1 + rest1;
        assert(s =~= pre + w0 + rest0);
        lemma_parse_wire_u32(s, pre, self.unit_net_id, rest0);
        let pre1 = pre + w0;
        assert(s =~= pre1 + w1 + rest1);
        lemma_parse_wire_fixed(s, pre1, self.icon_name, 64, rest1);
    }
}

impl SUnitSetMinimapIcon {

    pub fn encode(&self, out: &mut Vec<u8>)
        requires
            self@.valid(),
        ensures
            final(out)@ == old(out)@ + self@.wire(),
    {
        let ghost base = out@;
        put_u32(out, self.unit_net_id);
        put_fixed(out, &self.icon_name, 64);
        assert(out@ =~= base + self@.wire());
    }

    pub fn decode(s: &[u8], i: usize) -> (r: Option<(Self, usize)>)
        ensures
            match SUnitSetMinimapIconView::parse(s@, i as int) {
                Some((v, j)) => r is Some && r->Some_0.0@ == v && r->Some_0.1 == j,
                None => r is None,
            },
    {
        let slen = s.len();
        assert(s@.len() == slen);
        let (v0, j0) = match take_u32(s, i) { Some(v) => v, None => { return None; } };
        let (v1, j1) = match take_fixed(s, j0, 64) { Some(v) => v, None => { return None; } };
        Some((SUnitSetMinimapIcon { unit_net_id: v0, icon_name: v1 }, j1))
    }

    /// The full game frame carrying this packet.
    pub fn to_bytes(&self, sender_net_id: u32) -> (r: Vec<u8>)
        requires
            self@.valid(),
        ensures
            r@ == game_frame(0xE1, sender_net_id, self@.wire()),
    {
        let mut payload: Vec<u8> = Vec::new();
        self.encode(&mut payload);
        game_frame_bytes(0xE1, sender_net_id, &payload)
    }
}

} // verus!
