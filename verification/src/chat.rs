//! The chat frame of channel 5.
use vstd::prelude::*;

verus! {

use crate::text::{
    lemma_parse_wire_sized_nul,
    parse_sized_nul,
    put_sized_nul,
    sized_fits,
    take_sized_nul,
    wire_sized_nul,
};
use crate::wire::{
    lemma_parse_wire_u32,
    parse_u32,
    put_u32,
    take_u32,
    wire_u32,
};

/// A chat message: sender id, routing type (0 = all, 1 = team) and a
/// length-prefixed, null-terminated text.
#[derive(Clone, Debug, PartialEq, Eq)]
pub struct ChatPacket {
    pub client_id: u32,
    pub typ: u32,
    pub message: Vec<u8>,
}

pub struct ChatPacketView {
    pub client_id: u32,
    pub typ: u32,
    pub message: Seq<u8>,
}

impl View for ChatPacket {
    type V = ChatPacketView;

    open spec fn view(&self) -> ChatPacketView {
        ChatPacketView { client_id: self.client_id, typ: self.typ, message: self.message@ }
    }
}

impl ChatPacketView {
    pub open spec fn valid(self) -> bool {
        sized_fits(self.message)
    }

    pub open spec fn wire(self) -> Seq<u8> {
        wire_u32(self.client_id) + wire_u32(self.typ) + wire_sized_nul(self.message)
    }

    pub open spec fn parse(s: Seq<u8>, i: int) -> Option<(Self, int)> {
        match parse_u32(s, i) {
            Some((cid, j0)) => match parse_u32(s, j0) {
                Some((ty, j1)) => match parse_sized_nul(s, j1) {
                    Some((msg, j2)) => Some(
                        (ChatPacketView { client_id: cid, typ: ty, message: msg }, j2),
                    ),
                    None => None,
                },
                None => None,
            },
            None => None,
        }
    }

    /// Parsing an encoded chat frame restores it.
    pub proof fn lemma_parse_wire(self, s: Seq<u8>, pre: Seq<u8>, post: Seq<u8>)
        requires
            self.valid(),
            s == pre + self.wire() + post,
        ensures
            Self::parse(s, pre.len() as int) == Some((self, (pre.len() + self.wire().len()) as int)),
    {
        vstd::bytes::lemma_auto_spec_u32_to_from_le_bytes();
        let w0 = wire_u32(self.client_id);
        let w1 = wire_u32(self.typ);
        let w2 = wire_sized_nul(self.message);
        let rest1 = w2 + post;
        let rest0 = w1 + rest1;
        assert(s =~= pre + w0 + rest0);
        lemma_parse_wire_u32(s, pre, self.client_id, rest0);
        let pre1 = pre + w0;
        assert(s =~= pre1 + w1 + rest1);
        lemma_parse_wire_u32(s, pre1, self.typ, rest1);
        let pre2 = pre1 + w1;
        assert(s =~= pre2 + w2 + post);
        lemma_parse_wire_sized_nul(s, pre2, self.message, post);
    }
}

impl ChatPacket {
    pub fn encode(&self, out: &mut Vec<u8>)
        requires
            self@.valid(),
        ensures
            final(out)@ == old(out)@ + self@.wire(),
    {
        let ghost base = out@;
        put_u32(out, self.client_id);
        put_u32(out, self.typ);
        put_sized_nul(out, &self.message);
        assert(out@ =~= base + self@.wire());
    }

    /// The whole chat frame as bytes; the chat channel carries no header.
    pub fn to_bytes(&self) -> (r: Vec<u8>)
        requires
            self@.valid(),
        ensures
            r@ == self@.wire(),
    {
        let mut out: Vec<u8> = Vec::new();
        self.encode(&mut out);
        assert(out@ =~= self@.wire());
        out
    }

    pub fn decode(s: &[u8], i: usize) -> (r: Option<(Self, usize)>)
        ensures
            match ChatPacketView::parse(s@, i as int) {
                Some((v, j)) => r is Some && r->Some_0.0@ == v && r->Some_0.1 == j,
                None => r is None,
            },
    {
        let slen = s.len();
        assert(s@.len() == slen);
        let (cid, j0) = match take_u32(s, i) {
            Some(v) => v,
            None => {
                return None;
            },
        };
        let (ty, j1) = match take_u32(s, j0) {
            Some(v) => v,
            None => {
                return None;
            },
        };
        let (msg, j2) = match take_sized_nul(s, j1) {
            Some(v) => v,
            None => {
                return None;
            },
        };
        Some((ChatPacket { client_id: cid, typ: ty, message: msg }, j2))
    }
}

} // verus!
