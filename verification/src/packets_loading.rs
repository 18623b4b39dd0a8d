//! The loading-screen message family of channel 6.
use vstd::prelude::*;

verus! {

use crate::frame::{loading_frame, loading_frame_bytes};
use crate::list::{
    lemma_parse_wire_u64s,
    parse_raw,
    parse_u64s,
    put_u64s,
    take_raw,
    take_u64s,
    wire_u64s,
};
use crate::text::{
    lemma_parse_wire_sized_nul,
    parse_sized_nul,
    put_sized_nul,
    put_zeros,
    sized_fits,
    take_sized_nul,
    wire_sized_nul,
    zero_bytes,
};
use crate::wire::{
    lemma_mid_subrange,
    lemma_parse_wire_u32,
    lemma_parse_wire_u64,
    parse_u32,
    parse_u64,
    parsed,
    put_u32,
    put_u64,
    take_u32,
    take_u64,
    wire_u32,
    wire_u64,
};

/// A client asks for the team roster.  Three reserved bytes travel as
/// zeros and are carried nowhere.
#[derive(Clone, Copy, Debug, PartialEq, Eq, Structural)]
pub struct RequestJoinTeam {
    pub client_id: u32,
    pub team_id: u32,
}

impl RequestJoinTeam {
    pub open spec fn wire(self) -> Seq<u8> {
        zero_bytes(3) + wire_u32(self.client_id) + wire_u32(self.team_id)
    }

    pub open spec fn parse(s: Seq<u8>, i: int) -> Option<(Self, int)> {
        match parse_raw(s, i, 3) {
            Some((_pad, j0)) => match parse_u32(s, j0) {
                Some((cid, j1)) => match parse_u32(s, j1) {
                    Some((tid, j2)) => Some((RequestJoinTeam { client_id: cid, team_id: tid }, j2)),
                    None => None,
                },
                None => None,
            },
            None => None,
        }
    }

    /// Parsing an encoded request restores it.
    pub proof fn lemma_parse_wire(self, s: Seq<u8>, pre: Seq<u8>, post: Seq<u8>)
        requires
            s == pre + self.wire() + post,
        ensures
            Self::parse(s, pre.len() as int) == Some((self, (pre.len() + self.wire().len()) as int)),
    {
        vstd::bytes::lemma_auto_spec_u32_to_from_le_bytes();
        let w0 = zero_bytes(3);
        let w1 = wire_u32(self.client_id);
        let w2 = wire_u32(self.team_id);
        let rest1 = w2 + post;
        let rest0 = w1 + rest1;
        assert(s =~= pre + w0 + rest0);
        lemma_mid_subrange(s, pre, w0, rest0);
        let pre1 = pre + w0;
        assert(s =~= pre1 + w1 + rest1);
        lemma_parse_wire_u32(s, pre1, self.client_id, rest1);
        let pre2 = pre1 + w1;
        assert(s =~= pre2 + w2 + post);
        lemma_parse_wire_u32(s, pre2, self.team_id, post);
    }

    pub fn encode(&self, out: &mut Vec<u8>)
        ensures
            final(out)@ == old(out)@ + self.wire(),
    {
        let ghost base = out@;
        put_zeros(out, 3);
        put_u32(out, self.client_id);
        put_u32(out, self.team_id);
        assert(out@ =~= base + self.wire());
    }

    pub fn decode(s: &[u8], i: usize) -> (r: Option<(Self, usize)>)
        ensures
            parsed(Self::parse(s@, i as int), r),
    {
        let slen = s.len();
        assert(s@.len() == slen);
        let (_pad, j0) = match take_raw(s, i, 3) {
            Some(v) => v,
            None => {
                return None;
            },
        };
        let (cid, j1) = match take_u32(s, j0) {
            Some(v) => v,
            None => {
                return None;
            },
        };
        let (tid, j2) = match take_u32(s, j1) {
            Some(v) => v,
            None => {
                return None;
            },
        };
        Some((RequestJoinTeam { client_id: cid, team_id: tid }, j2))
    }

    /// The full loading-screen frame carrying this packet.
    pub fn to_bytes(&self) -> (r: Vec<u8>)
        ensures
            r@ == loading_frame(0x64, self.wire()),
    {
        let mut payload: Vec<u8> = Vec::new();
        self.encode(&mut payload);
        loading_frame_bytes(0x64, &payload)
    }
}

/// Skin assignment for one player, shown on the loading screen.  Seven
/// reserved bytes travel as zeros.
#[derive(Clone, Debug, PartialEq, Eq)]
pub struct RequestReskin {
    pub player_id: u64,
    pub skin_id: u32,
    pub name: Vec<u8>,
}

pub struct RequestReskinView {
    pub player_id: u64,
    pub skin_id: u32,
    pub name: Seq<u8>,
}

impl View for RequestReskin {
    type V = RequestReskinView;

    open spec fn view(&self) -> RequestReskinView {
        RequestReskinView { player_id: self.player_id, skin_id: self.skin_id, name: self.name@ }
    }
}

impl RequestReskinView {
    pub open spec fn valid(self) -> bool {
        sized_fits(self.name)
    }

    pub open spec fn wire(self) -> Seq<u8> {
        zero_bytes(7) + wire_u64(self.player_id) + wire_u32(self.skin_id) + wire_sized_nul(
            self.name,
        )
    }

    pub open spec fn parse(s: Seq<u8>, i: int) -> Option<(Self, int)> {
        match parse_raw(s, i, 7) {
            Some((_pad, j0)) => match parse_u64(s, j0) {
                Some((pid, j1)) => match parse_u32(s, j1) {
                    Some((sid, j2)) => match parse_sized_nul(s, j2) {
                        Some((nm, j3)) => Some(
                            (RequestReskinView { player_id: pid, skin_id: sid, name: nm }, j3),
                        ),
                        None => None,
                    },
                    None => None,
                },
                None => None,
            },
            None => None,
        }
    }

    /// Parsing an encoded record restores it.
    pub proof fn lemma_parse_wire(self, s: Seq<u8>, pre: Seq<u8>, post: Seq<u8>)
        requires
            self.valid(),
            s == pre + self.wire() + post,
        ensures
            Self::parse(s, pre.len() as int) == Some((self, (pre.len() + self.wire().len()) as int)),
    {
        vstd::bytes::lemma_auto_spec_u32_to_from_le_bytes();
        vstd::bytes::lemma_auto_spec_u64_to_from_le_bytes();
        let w0 = zero_bytes(7);
        let w1 = wire_u64(self.player_id);
        let w2 = wire_u32(self.skin_id);
        let w3 = wire_sized_nul(self.name);
        let rest2 = w3 + post;
        let rest1 = w2 + rest2;
        let rest0 = w1 + rest1;
        assert(s =~= pre + w0 + rest0);
        lemma_mid_subrange(s, pre, w0, rest0);
        let pre1 = pre + w0;
        assert(s =~= pre1 + w1 + rest1);
        lemma_parse_wire_u64(s, pre1, self.player_id, rest1);
        let pre2 = pre1 + w1;
        assert(s =~= pre2 + w2 + rest2);
        lemma_parse_wire_u32(s, pre2, self.skin_id, rest2);
        let pre3 = pre2 + w2;
        assert(s =~= pre3 + w3 + post);
        lemma_parse_wire_sized_nul(s, pre3, self.name, post);
    }
}

impl RequestReskin {
    pub fn encode(&self, out: &mut Vec<u8>)
        requires
            self@.valid(),
        ensures
            final(out)@ == old(out)@ + self@.wire(),
    {
        let ghost base = out@;
        put_zeros(out, 7);
        put_u64(out, self.player_id);
        put_u32(out, self.skin_id);
        put_sized_nul(out, &self.name);
        assert(out@ =~= base + self@.wire());
    }

    pub fn decode(s: &[u8], i: usize) -> (r: Option<(Self, usize)>)
        ensures
            match RequestReskinView::parse(s@, i as int) {
                Some((v, j)) => r is Some && r->Some_0.0@ == v && r->Some_0.1 == j,
                None => r is None,
            },
    {
        let slen = s.len();
        assert(s@.len() == slen);
        let (_pad, j0) = match take_raw(s, i, 7) {
            Some(v) => v,
            None => {
                return None;
            },
        };
        let (pid, j1) = match take_u64(s, j0) {
            Some(v) => v,
            None => {
                return None;
            },
        };
        let (sid, j2) = match take_u32(s, j1) {
            Some(v) => v,
            None => {
                return None;
            },
        };
        let (nm, j3) = match take_sized_nul(s, j2) {
            Some(v) => v,
            None => {
                return None;
            },
        };
        Some((RequestReskin { player_id: pid, skin_id: sid, name: nm }, j3))
    }

    /// The full loading-screen frame carrying this packet.
    pub fn to_bytes(&self) -> (r: Vec<u8>)
        requires
            self@.valid(),
        ensures
            r@ == loading_frame(0x65, self@.wire()),
    {
        let mut payload: Vec<u8> = Vec::new();
        self.encode(&mut payload);
        loading_frame_bytes(0x65, &payload)
    }
}

/// Display-name assignment for one player; same layout as the reskin
/// record under its own frame id.
#[derive(Clone, Debug, PartialEq, Eq)]
pub struct RequestRename {
    pub player_id: u64,
    pub skin_id: u32,
    pub name: Vec<u8>,
}

pub struct RequestRenameView {
    pub player_id: u64,
    pub skin_id: u32,
    pub name: Seq<u8>,
}

impl View for RequestRename {
    type V = RequestRenameView;

    open spec fn view(&self) -> RequestRenameView {
        RequestRenameView { player_id: self.player_id, skin_id: self.skin_id, name: self.name@ }
    }
}

impl RequestRenameView {
    pub open spec fn valid(self) -> bool {
        sized_fits(self.name)
    }

    pub open spec fn wire(self) -> Seq<u8> {
        zero_bytes(7) + wire_u64(self.player_id) + wire_u32(self.skin_id) + wire_sized_nul(
            self.name,
        )
    }

    pub open spec fn parse(s: Seq<u8>, i: int) -> Option<(Self, int)> {
        match parse_raw(s, i, 7) {
            Some((_pad, j0)) => match parse_u64(s, j0) {
                Some((pid, j1)) => match parse_u32(s, j1) {
                    Some((sid, j2)) => match parse_sized_nul(s, j2) {
                        Some((nm, j3)) => Some(
                            (RequestRenameView { player_id: pid, skin_id: sid, name: nm }, j3),
                        ),
                        None => None,
                    },
                    None => None,
                },
                None => None,
            },
            None => None,
        }
    }

    /// Parsing an encoded record restores it.
    pub proof fn lemma_parse_wire(self, s: Seq<u8>, pre: Seq<u8>, post: Seq<u8>)
        requires
            self.valid(),
            s == pre + self.wire() + post,
        ensures
            Self::parse(s, pre.len() as int) == Some((self, (pre.len() + self.wire().len()) as int)),
    {
        vstd::bytes::lemma_auto_spec_u32_to_from_le_bytes();
        vstd::bytes::lemma_auto_spec_u64_to_from_le_bytes();
        let w0 = zero_bytes(7);
        let w1 = wire_u64(self.player_id);
        let w2 = wire_u32(self.skin_id);
        let w3 = wire_sized_nul(self.name);
        let rest2 = w3 + post;
        let rest1 = w2 + rest2;
        let rest0 = w1 + rest1;
        assert(s =~= pre + w0 + rest0);
        lemma_mid_subrange(s, pre, w0, rest0);
        let pre1 = pre + w0;
        assert(s =~= pre1 + w1 + rest1);
        lemma_parse_wire_u64(s, pre1, self.player_id, rest1);
        let pre2 = pre1 + w1;
        assert(s =~= pre2 + w2 + rest2);
        lemma_parse_wire_u32(s, pre2, self.skin_id, rest2);
        let pre3 = pre2 + w2;
        assert(s =~= pre3 + w3 + post);
        lemma_parse_wire_sized_nul(s, pre3, self.name, post);
    }
}

impl RequestRename {
    pub fn encode(&self, out: &mut Vec<u8>)
        requires
            self@.valid(),
        ensures
            final(out)@ == old(out)@ + self@.wire(),
    {
        let ghost base = out@;
        put_zeros(out, 7);
        put_u64(out, self.player_id);
        put_u32(out, self.skin_id);
        put_sized_nul(out, &self.name);
        assert(out@ =~= base + self@.wire());
    }

    pub fn decode(s: &[u8], i: usize) -> (r: Option<(Self, usize)>)
        ensures
            match RequestRenameView::parse(s@, i as int) {
                Some((v, j)) => r is Some && r->Some_0.0@ == v && r->Some_0.1 == j,
                None => r is None,
            },
    {
        let slen = s.len();
        assert(s@.len() == slen);
        let (_pad, j0) = match take_raw(s, i, 7) {
            Some(v) => v,
            None => {
                return None;
            },
        };
        let (pid, j1) = match take_u64(s, j0) {
            Some(v) => v,
            None => {
                return None;
            },
        };
        let (sid, j2) = match take_u32(s, j1) {
            Some(v) => v,
            None => {
                return None;
            },
        };
        let (nm, j3) = match take_sized_nul(s, j2) {
            Some(v) => v,
            None => {
                return None;
            },
        };
        Some((RequestRename { player_id: pid, skin_id: sid, name: nm }, j3))
    }

    /// The full loading-screen frame carrying this packet.
    pub fn to_bytes(&self) -> (r: Vec<u8>)
        requires
            self@.valid(),
        ensures
            r@ == loading_frame(0x66, self@.wire()),
    {
        let mut payload: Vec<u8> = Vec::new();
        self.encode(&mut payload);
        loading_frame_bytes(0x66, &payload)
    }
}

/// The team roster: 24 player-id slots per side with the live and maximum
/// team sizes.  Two reserved runs travel as zeros.
#[derive(Clone, Debug, PartialEq, Eq)]
pub struct TeamRosterUpdate {
    pub team_size_order: u32,
    pub team_size_chaos: u32,
    pub order_player_ids: Vec<u64>,
    pub chaos_player_ids: Vec<u64>,
    pub current_team_size_order: u32,
    pub current_team_size_chaos: u32,
}

pub struct TeamRosterUpdateView {
    pub team_size_order: u32,
    pub team_size_chaos: u32,
    pub order_player_ids: Seq<u64>,
    pub chaos_player_ids: Seq<u64>,
    pub current_team_size_order: u32,
    pub current_team_size_chaos: u32,
}

impl View for TeamRosterUpdate {
    type V = TeamRosterUpdateView;

    open spec fn view(&self) -> TeamRosterUpdateView {
        TeamRosterUpdateView {
            team_size_order: self.team_size_order,
            team_size_chaos: self.team_size_chaos,
            order_player_ids: self.order_player_ids@,
            chaos_player_ids: self.chaos_player_ids@,
            current_team_size_order: self.current_team_size_order,
            current_team_size_chaos: self.current_team_size_chaos,
        }
    }
}

impl TeamRosterUpdateView {
    pub open spec fn valid(self) -> bool {
        &&& self.order_player_ids.len() == 24
        &&& self.chaos_player_ids.len() == 24
    }

    pub open spec fn wire(self) -> Seq<u8> {
        zero_bytes(3) + wire_u32(self.team_size_order) + wire_u32(self.team_size_chaos)
            + zero_bytes(4) + wire_u64s(self.order_player_ids) + wire_u64s(self.chaos_player_ids)
            + wire_u32(self.current_team_size_order) + wire_u32(self.current_team_size_chaos)
    }

    pub open spec fn parse(s: Seq<u8>, i: int) -> Option<(Self, int)> {
        match parse_raw(s, i, 3) {
            Some((_p0, j0)) => match parse_u32(s, j0) {
                Some((tso, j1)) => match parse_u32(s, j1) {
                    Some((tsc, j2)) => match parse_raw(s, j2, 4) {
                        Some((_p1, j3)) => match parse_u64s(s, j3, 24) {
                            Some((ord, j4)) => match parse_u64s(s, j4, 24) {
                                Some((cha, j5)) => match parse_u32(s, j5) {
                                    Some((cto, j6)) => match parse_u32(s, j6) {
                                        Some((ctc, j7)) => Some(
                                            (
                                                TeamRosterUpdateView {
                                                    team_size_order: tso,
                                                    team_size_chaos: tsc,
                                                    order_player_ids: ord,
                                                    chaos_player_ids: cha,
                                                    current_team_size_order: cto,
                                                    current_team_size_chaos: ctc,
                                                },
                                                j7,
                                            ),
                                        ),
                                        None => None,
                                    },
                                    None => None,
                                },
                                None => None,
                            },
                            None => None,
                        },
                        None => None,
                    },
                    None => None,
                },
                None => None,
            },
            None => None,
        }
    }

    /// Parsing an encoded roster restores it.
    #[verifier::rlimit(100)]
    #[verifier::spinoff_prover]
    pub proof fn lemma_parse_wire(self, s: Seq<u8>, pre: Seq<u8>, post: Seq<u8>)
        requires
            self.valid(),
            s == pre + self.wire() + post,
        ensures
            Self::parse(s, pre.len() as int) == Some((self, (pre.len() + self.wire().len()) as int)),
    {
        vstd::bytes::lemma_auto_spec_u32_to_from_le_bytes();
        vstd::bytes::lemma_auto_spec_u64_to_from_le_bytes();
        let w0 = zero_bytes(3);
        let w1 = wire_u32(self.team_size_order);
        let w2 = wire_u32(self.team_size_chaos);
        let w3 = zero_bytes(4);
        let w4 = wire_u64s(self.order_player_ids);
        let w5 = wire_u64s(self.chaos_player_ids);
        let w6 = wire_u32(self.current_team_size_order);
        let w7 = wire_u32(self.current_team_size_chaos);
        let rest6 = w7 + post;
        let rest5 = w6 + rest6;
        let rest4 = w5 + rest5;
        let rest3 = w4 + rest4;
        let rest2 = w3 + rest3;
        let rest1 = w2 + rest2;
        let rest0 = w1 + rest1;
        assert(s =~= pre + w0 + rest0);
        lemma_mid_subrange(s, pre, w0, rest0);
        let pre1 = pre + w0;
        assert(s =~= pre1 + w1 + rest1);
        lemma_parse_wire_u32(s, pre1, self.team_size_order, rest1);
        let pre2 = pre1 + w1;
        assert(s =~= pre2 + w2 + rest2);
        lemma_parse_wire_u32(s, pre2, self.team_size_chaos, rest2);
        let pre3 = pre2 + w2;
        assert(s =~= pre3 + w3 + rest3);
        lemma_mid_subrange(s, pre3, w3, rest3);
        let pre4 = pre3 + w3;
        assert(s =~= pre4 + w4 + rest4);
        lemma_parse_wire_u64s(self.order_player_ids, s, pre4, rest4);
        let pre5 = pre4 + w4;
        assert(s =~= pre5 + w5 + rest5);
        lemma_parse_wire_u64s(self.chaos_player_ids, s, pre5, rest5);
        let pre6 = pre5 + w5;
        assert(s =~= pre6 + w6 + rest6);
        lemma_parse_wire_u32(s, pre6, self.current_team_size_order, rest6);
        let pre7 = pre6 + w6;
        assert(s =~= pre7 + w7 + post);
        lemma_parse_wire_u32(s, pre7, self.current_team_size_chaos, post);
    }
}

impl TeamRosterUpdate {
    pub fn encode(&self, out: &mut Vec<u8>)
        requires
            self@.valid(),
        ensures
            final(out)@ == old(out)@ + self@.wire(),
    {
        let ghost base = out@;
        put_zeros(out, 3);
        put_u32(out, self.team_size_order);
        put_u32(out, self.team_size_chaos);
        put_zeros(out, 4);
        put_u64s(out, &self.order_player_ids);
        put_u64s(out, &self.chaos_player_ids);
        put_u32(out, self.current_team_size_order);
        put_u32(out, self.current_team_size_chaos);
        assert(out@ =~= base + self@.wire());
    }

    pub fn decode(s: &[u8], i: usize) -> (r: Option<(Self, usize)>)
        ensures
            match TeamRosterUpdateView::parse(s@, i as int) {
                Some((v, j)) => r is Some && r->Some_0.0@ == v && r->Some_0.1 == j,
                None => r is None,
            },
    {
        let slen = s.len();
        assert(s@.len() == slen);
        let (_p0, j0) = match take_raw(s, i, 3) {
            Some(v) => v,
            None => {
                return None;
            },
        };
        let (tso, j1) = match take_u32(s, j0) {
            Some(v) => v,
            None => {
                return None;
            },
        };
        let (tsc, j2) = match take_u32(s, j1) {
            Some(v) => v,
            None => {
                return None;
            },
        };
        let (_p1, j3) = match take_raw(s, j2, 4) {
            Some(v) => v,
            None => {
                return None;
            },
        };
        let (ord, j4) = match take_u64s(s, j3, 24) {
            Some(v) => v,
            None => {
                return None;
            },
        };
        let (cha, j5) = match take_u64s(s, j4, 24) {
            Some(v) => v,
            None => {
                return None;
            },
        };
        let (cto, j6) = match take_u32(s, j5) {
            Some(v) => v,
            None => {
                return None;
            },
        };
        let (ctc, j7) = match take_u32(s, j6) {
            Some(v) => v,
            None => {
                return None;
            },
        };
        Some(
            (
                TeamRosterUpdate {
                    team_size_order: tso,
                    team_size_chaos: tsc,
                    order_player_ids: ord,
                    chaos_player_ids: cha,
                    current_team_size_order: cto,
                    current_team_size_chaos: ctc,
                },
                j7,
            ),
        )
    }

    /// The full loading-screen frame carrying this packet.
    pub fn to_bytes(&self) -> (r: Vec<u8>)
        requires
            self@.valid(),
        ensures
            r@ == loading_frame(0x67, self@.wire()),
    {
        let mut payload: Vec<u8> = Vec::new();
        self.encode(&mut payload);
        loading_frame_bytes(0x67, &payload)
    }
}

} // verus!
