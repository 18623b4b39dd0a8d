//! Transport frames: channels, the handshake record, and frame headers.
use vstd::prelude::*;

verus! {

use crate::wire::{
    lemma_parse_wire_u32,
    lemma_parse_wire_u64,
    lemma_parse_wire_u8,
    parse_u32,
    parse_u64,
    parse_u8,
    put_u32,
    put_u64,
    put_u8,
    take_u32,
    take_u64,
    take_u8,
    wire_u32,
    wire_u64,
    wire_u8,
};
use vstd::slice::{slice_subrange, slice_to_vec};

/// The seven ordered per-peer streams.
#[derive(Clone, Copy, Debug, PartialEq, Eq, Hash, Structural)]
pub enum Channel {
    Handshake,
    ClientToServer,
    SyncClock,
    Broadcast,
    BroadcastUnreliable,
    Chat,
    LoadingScreen,
}

impl Channel {
    pub open spec fn as_byte(self) -> u8 {
        match self {
            Channel::Handshake => 0,
            Channel::ClientToServer => 1,
            Channel::SyncClock => 2,
            Channel::Broadcast => 3,
            Channel::BroadcastUnreliable => 4,
            Channel::Chat => 5,
            Channel::LoadingScreen => 6,
        }
    }

    /// The channel numbered by a frame's channel byte.
    pub fn try_from(b: u8) -> (r: Option<Channel>)
        ensures
            match r {
                Some(c) => c.as_byte() == b,
                None => b > 6,
            },
    {
        match b {
            0 => Some(Channel::Handshake),
            1 => Some(Channel::ClientToServer),
            2 => Some(Channel::SyncClock),
            3 => Some(Channel::Broadcast),
            4 => Some(Channel::BroadcastUnreliable),
            5 => Some(Channel::Chat),
            6 => Some(Channel::LoadingScreen),
            _ => None,
        }
    }

    pub fn as_u8(self) -> (r: u8)
        ensures
            r == self.as_byte(),
    {
        match self {
            Channel::Handshake => 0,
            Channel::ClientToServer => 1,
            Channel::SyncClock => 2,
            Channel::Broadcast => 3,
            Channel::BroadcastUnreliable => 4,
            Channel::Chat => 5,
            Channel::LoadingScreen => 6,
        }
    }
}

/// The fixed 24-byte handshake record of channel 0.  The three pad bytes
/// after the action byte are zero on the wire and carried nowhere.
#[derive(Clone, Debug, PartialEq, Eq)]
pub struct KeyCheck {
    pub action: u8,
    pub client_id: u32,
    pub player_id: u64,
    pub check_id: Vec<u8>,
}

pub struct KeyCheckView {
    pub action: u8,
    pub client_id: u32,
    pub player_id: u64,
    pub check_id: Seq<u8>,
}

impl View for KeyCheck {
    type V = KeyCheckView;

    open spec fn view(&self) -> KeyCheckView {
        KeyCheckView {
            action: self.action,
            client_id: self.client_id,
            player_id: self.player_id,
            check_id: self.check_id@,
        }
    }
}

impl KeyCheckView {
    pub open spec fn valid(self) -> bool {
        self.check_id.len() == 8
    }

    pub open spec fn wire(self) -> Seq<u8> {
        wire_u8(self.action) + seq![0u8, 0u8, 0u8] + wire_u32(self.client_id) + wire_u64(
            self.player_id,
        ) + self.check_id
    }

    /// A key-check frame is exactly 24 bytes; shorter input is rejected,
    /// and the pad bytes are skipped without inspection.
    pub open spec fn parse(s: Seq<u8>, i: int) -> Option<(Self, int)> {
        if 0 <= i && i + 24 <= s.len() {
            match parse_u32(s, i + 4) {
                Some((cid, j)) => match parse_u64(s, j) {
                    Some((pid, k)) => Some(
                        (
                            KeyCheckView {
                                action: s[i],
                                client_id: cid,
                                player_id: pid,
                                check_id: s.subrange(k, k + 8),
                            },
                            k + 8,
                        ),
                    ),
                    None => None,
                },
                None => None,
            }
        } else {
            None
        }
    }

    /// Parsing an encoded key-check record restores it.
    pub proof fn lemma_parse_wire(self, s: Seq<u8>, pre: Seq<u8>, post: Seq<u8>)
        requires
            self.valid(),
            s == pre + self.wire() + post,
        ensures
            Self::parse(s, pre.len() as int) == Some((self, (pre.len() + 24) as int)),
    {
        vstd::bytes::lemma_auto_spec_u32_to_from_le_bytes();
        vstd::bytes::lemma_auto_spec_u64_to_from_le_bytes();
        let i = pre.len() as int;
        assert(self.wire().len() == 24);
        let head = wire_u8(self.action) + seq![0u8, 0u8, 0u8];
        assert(head.len() == 4);
        assert(s =~= (pre + head) + wire_u32(self.client_id) + (wire_u64(self.player_id)
            + self.check_id + post));
        lemma_parse_wire_u32(
            s,
            pre + head,
            self.client_id,
            wire_u64(self.player_id) + self.check_id + post,
        );
        let pre2 = pre + head + wire_u32(self.client_id);
        assert(s =~= pre2 + wire_u64(self.player_id) + (self.check_id + post));
        lemma_parse_wire_u64(s, pre2, self.player_id, self.check_id + post);
        assert(s[i] == self.action);
        assert(s.subrange(i + 16, i + 24) =~= self.check_id);
    }
}

impl KeyCheck {
    pub fn encode(&self, out: &mut Vec<u8>)
        requires
            self@.valid(),
        ensures
            final(out)@ == old(out)@ + self@.wire(),
    {
        let ghost base = out@;
        put_u8(out, self.action);
        put_u8(out, 0);
        put_u8(out, 0);
        put_u8(out, 0);
        put_u32(out, self.client_id);
        put_u64(out, self.player_id);
        out.extend_from_slice(self.check_id.as_slice());
        assert(out@ =~= base + self@.wire());
    }

    /// The whole frame as bytes.
    pub fn to_bytes(&self) -> (r: Vec<u8>)
        requires
            self@.valid(),
        ensures
            r@ == self@.wire(),
    {
        let mut out: Vec<u8> = Vec::new();
        self.encode(&mut out);
        assert(out@ =~= self@.wire());
        out
    }

    pub fn decode(s: &[u8], i: usize) -> (r: Option<(Self, usize)>)
        ensures
            match KeyCheckView::parse(s@, i as int) {
                Some((v, j)) => r is Some && r->Some_0.0@ == v && r->Some_0.1 == j,
                None => r is None,
            },
            r is Some ==> r->Some_0.0@.valid(),
    {
        let slen = s.len();
        assert(s@.len() == slen);
        if i > slen || slen - i < 24 {
            return None;
        }
        let action = *vstd::slice::slice_index_get(s, i);
        let (cid, j) = match take_u32(s, i + 4) {
            Some(v) => v,
            None => {
                return None;
            },
        };
        let (pid, k) = match take_u64(s, j) {
            Some(v) => v,
            None => {
                return None;
            },
        };
        let check_id = slice_to_vec(slice_subrange(s, k, k + 8));
        Some((KeyCheck { action, client_id: cid, player_id: pid, check_id }, k + 8))
    }
}

/// The header of a game frame on channels 1 to 4:
/// `[id: u8][sender_net_id: u32][payload...]`.
#[derive(Clone, Copy, Debug)]
pub struct RawGamePacket {
    pub id: u8,
    pub sender_net_id: u32,
    /// Offset of the payload within the frame.
    pub payload_start: usize,
}

/// The wire image of a full game frame.
pub open spec fn game_frame(id: u8, sender_net_id: u32, payload: Seq<u8>) -> Seq<u8> {
    wire_u8(id) + wire_u32(sender_net_id) + payload
}

impl RawGamePacket {
    /// Split off the five header bytes; the payload is `data[5..]`.
    pub fn from_slice(data: &[u8]) -> (r: Option<RawGamePacket>)
        ensures
            match r {
                Some(p) => {
                    &&& data@.len() >= 5
                    &&& p.id == data@[0]
                    &&& Some((p.sender_net_id, p.payload_start as int)) == parse_u32(data@, 1)
                    &&& p.payload_start == 5
                },
                None => data@.len() < 5,
            },
    {
        let slen = data.len();
        if slen < 5 {
            return None;
        }
        let id = *vstd::slice::slice_index_get(data, 0);
        let (net_id, j) = match take_u32(data, 1) {
            Some(v) => v,
            None => {
                proof {
                    assert(1 + 4 <= data@.len());
                }
                return None;
            },
        };
        Some(RawGamePacket { id, sender_net_id: net_id, payload_start: j })
    }
}

/// Build a full game frame around a payload.
pub fn game_frame_bytes(id: u8, sender_net_id: u32, payload: &Vec<u8>) -> (r: Vec<u8>)
    ensures
        r@ == game_frame(id, sender_net_id, payload@),
{
    let mut out: Vec<u8> = Vec::new();
    put_u8(&mut out, id);
    put_u32(&mut out, sender_net_id);
    out.extend_from_slice(payload.as_slice());
    assert(out@ =~= game_frame(id, sender_net_id, payload@));
    out
}

/// The wire image of a loading-screen frame: `[id: u8][payload...]`.
pub open spec fn loading_frame(id: u8, payload: Seq<u8>) -> Seq<u8> {
    wire_u8(id) + payload
}

/// Build a loading-screen frame around a payload.
pub fn loading_frame_bytes(id: u8, payload: &Vec<u8>) -> (r: Vec<u8>)
    ensures
        r@ == loading_frame(id, payload@),
{
    let mut out: Vec<u8> = Vec::new();
    put_u8(&mut out, id);
    out.extend_from_slice(payload.as_slice());
    assert(out@ =~= loading_frame(id, payload@));
    out
}

} // verus!
