//! Movement data: the tagged union carried by visibility and order packets.
//!
//! A one-byte tag discriminates the body: 1 = with-speed, 2 = normal
//! (delta-coded waypoints), 3 = stop, any other value = a bare 32-bit body.
//! Only the normal, stop and bare forms have full codecs; the with-speed
//! body has none and is rejected on decode.
//!
//! Positions travel as IEEE-754 single-precision words; the library holds
//! them as their 32-bit patterns and leaves float arithmetic outside.
use vstd::prelude::*;

verus! {

use crate::waypoint::{
    decode_waypoints,
    encode_waypoints,
    parse_waypoints,
    wire_waypoints,
    CompressedWaypoint,
    lemma_parse_wire_waypoints,
};
use crate::wire::{
    lemma_parse_wire_i32,
    lemma_parse_wire_u16,
    lemma_parse_wire_u32,
    lemma_parse_wire_u8,
    parse_i32,
    parse_u16,
    parse_u32,
    parse_u8,
    parsed,
    put_i32,
    put_u16,
    put_u32,
    put_u8,
    take_i32,
    take_u16,
    take_u32,
    take_u8,
    wire_i32,
    wire_u16,
    wire_u32,
    wire_u8,
};

/// A 2-vector of single-precision words, held as raw bit patterns.
#[derive(Clone, Copy, Debug, PartialEq, Eq, Structural)]
pub struct Vector2 {
    pub x_bits: u32,
    pub y_bits: u32,
}

impl Vector2 {
    pub open spec fn wire(self) -> Seq<u8> {
        wire_u32(self.x_bits) + wire_u32(self.y_bits)
    }

    pub open spec fn parse(s: Seq<u8>, i: int) -> Option<(Self, int)> {
        match parse_u32(s, i) {
            Some((x, j)) => match parse_u32(s, j) {
                Some((y, k)) => Some((Vector2 { x_bits: x, y_bits: y }, k)),
                None => None,
            },
            None => None,
        }
    }

    pub proof fn lemma_parse_wire(self, s: Seq<u8>, pre: Seq<u8>, post: Seq<u8>)
        requires
            s == pre + self.wire() + post,
        ensures
            Self::parse(s, pre.len() as int) == Some((self, (pre.len() + self.wire().len()) as int)),
    {
        vstd::bytes::lemma_auto_spec_u32_to_from_le_bytes();
        assert(s =~= pre + wire_u32(self.x_bits) + (wire_u32(self.y_bits) + post));
        lemma_parse_wire_u32(s, pre, self.x_bits, wire_u32(self.y_bits) + post);
        let pre2 = pre + wire_u32(self.x_bits);
        assert(s =~= pre2 + wire_u32(self.y_bits) + post);
        lemma_parse_wire_u32(s, pre2, self.y_bits, post);
    }

    pub fn encode(&self, out: &mut Vec<u8>)
        ensures
            final(out)@ == old(out)@ + self.wire(),
    {
        let ghost base = out@;
        put_u32(out, self.x_bits);
        put_u32(out, self.y_bits);
        assert(out@ =~= base + self.wire());
    }

    pub fn decode(s: &[u8], i: usize) -> (r: Option<(Self, usize)>)
        ensures
            parsed(Self::parse(s@, i as int), r),
    {
        let slen = s.len();
        assert(s@.len() == slen);
        match take_u32(s, i) {
            Some((x, j)) => match take_u32(s, j) {
                Some((y, k)) => Some((Vector2 { x_bits: x, y_bits: y }, k)),
                None => None,
            },
            None => None,
        }
    }
}

/// A 3-vector of single-precision words, held as raw bit patterns.
#[derive(Clone, Copy, Debug, PartialEq, Eq, Structural)]
pub struct Vector3 {
    pub x_bits: u32,
    pub y_bits: u32,
    pub z_bits: u32,
}

impl Vector3 {
    pub open spec fn wire(self) -> Seq<u8> {
        wire_u32(self.x_bits) + wire_u32(self.y_bits) + wire_u32(self.z_bits)
    }

    pub open spec fn parse(s: Seq<u8>, i: int) -> Option<(Self, int)> {
        match parse_u32(s, i) {
            Some((x, j)) => match parse_u32(s, j) {
                Some((y, k)) => match parse_u32(s, k) {
                    Some((z, l)) => Some((Vector3 { x_bits: x, y_bits: y, z_bits: z }, l)),
                    None => None,
                },
                None => None,
            },
            None => None,
        }
    }

    pub proof fn lemma_parse_wire(self, s: Seq<u8>, pre: Seq<u8>, post: Seq<u8>)
        requires
            s == pre + self.wire() + post,
        ensures
            Self::parse(s, pre.len() as int) == Some((self, (pre.len() + self.wire().len()) as int)),
    {
        vstd::bytes::lemma_auto_spec_u32_to_from_le_bytes();
        assert(s =~= pre + wire_u32(self.x_bits) + (wire_u32(self.y_bits) + wire_u32(self.z_bits)
            + post));
        lemma_parse_wire_u32(s, pre, self.x_bits, wire_u32(self.y_bits) + wire_u32(self.z_bits) + post);
        let pre2 = pre + wire_u32(self.x_bits);
        assert(s =~= pre2 + wire_u32(self.y_bits) + (wire_u32(self.z_bits) + post));
        lemma_parse_wire_u32(s, pre2, self.y_bits, wire_u32(self.z_bits) + post);
        let pre3 = pre2 + wire_u32(self.y_bits);
        assert(s =~= pre3 + wire_u32(self.z_bits) + post);
        lemma_parse_wire_u32(s, pre3, self.z_bits, post);
    }

    pub fn encode(&self, out: &mut Vec<u8>)
        ensures
            final(out)@ == old(out)@ + self.wire(),
    {
        let ghost base = out@;
        put_u32(out, self.x_bits);
        put_u32(out, self.y_bits);
        put_u32(out, self.z_bits);
        assert(out@ =~= base + self.wire());
    }

    pub fn decode(s: &[u8], i: usize) -> (r: Option<(Self, usize)>)
        ensures
            parsed(Self::parse(s@, i as int), r),
    {
        let slen = s.len();
        assert(s@.len() == slen);
        match take_u32(s, i) {
            Some((x, j)) => match take_u32(s, j) {
                Some((y, k)) => match take_u32(s, k) {
                    Some((z, l)) => Some((Vector3 { x_bits: x, y_bits: y, z_bits: z }, l)),
                    None => None,
                },
                None => None,
            },
            None => None,
        }
    }
}

/// The stop body: a position and a facing direction.
#[derive(Clone, Copy, Debug, PartialEq, Eq, Structural)]
pub struct MovementDataStop {
    pub position: Vector2,
    pub forward: Vector2,
}

impl MovementDataStop {
    pub open spec fn wire(self) -> Seq<u8> {
        self.position.wire() + self.forward.wire()
    }

    pub open spec fn parse(s: Seq<u8>, i: int) -> Option<(Self, int)> {
        match Vector2::parse(s, i) {
            Some((p, j)) => match Vector2::parse(s, j) {
                Some((f, k)) => Some((MovementDataStop { position: p, forward: f }, k)),
                None => None,
            },
            None => None,
        }
    }

    pub proof fn lemma_parse_wire(self, s: Seq<u8>, pre: Seq<u8>, post: Seq<u8>)
        requires
            s == pre + self.wire() + post,
        ensures
            Self::parse(s, pre.len() as int) == Some((self, (pre.len() + self.wire().len()) as int)),
    {
        assert(s =~= pre + self.position.wire() + (self.forward.wire() + post));
        self.position.lemma_parse_wire(s, pre, self.forward.wire() + post);
        let pre2 = pre + self.position.wire();
        assert(s =~= pre2 + self.forward.wire() + post);
        self.forward.lemma_parse_wire(s, pre2, post);
    }

    pub fn encode(&self, out: &mut Vec<u8>)
        ensures
            final(out)@ == old(out)@ + self.wire(),
    {
        let ghost base = out@;
        self.position.encode(out);
        self.forward.encode(out);
        assert(out@ =~= base + self.wire());
    }

    pub fn decode(s: &[u8], i: usize) -> (r: Option<(Self, usize)>)
        ensures
            parsed(Self::parse(s@, i as int), r),
    {
        let slen = s.len();
        assert(s@.len() == slen);
        match Vector2::decode(s, i) {
            Some((p, j)) => match Vector2::decode(s, j) {
                Some((f, k)) => Some((MovementDataStop { position: p, forward: f }, k)),
                None => None,
            },
            None => None,
        }
    }
}

/// Speed parameters of the with-speed body; held for completeness, with no
/// codec of its own.
#[derive(Clone, Copy, Debug, PartialEq, Eq, Structural)]
pub struct SpeedParams {
    pub path_speed_override_bits: u32,
    pub parabolic_gravity_bits: u32,
    pub parabolic_start_point: Vector2,
    pub facing: bool,
    pub follow_net_id: u32,
    pub follow_distance_bits: u32,
    pub follow_back_distance_bits: u32,
    pub follow_travel_time_bits: u32,
}

/// The with-speed body; the source ships no working codec for it, so it is
/// carried as data only and rejected on the wire.
#[derive(Clone, Debug, PartialEq, Eq)]
pub struct MovementDataWithSpeed {
    pub teleport_net_id: u32,
    pub has_teleport_id: bool,
    pub teleport_id: u8,
    pub waypoints: Vec<CompressedWaypoint>,
    pub speed_params: SpeedParams,
}

pub struct MovementDataWithSpeedView {
    pub teleport_net_id: u32,
    pub has_teleport_id: bool,
    pub teleport_id: u8,
    pub waypoints: Seq<CompressedWaypoint>,
    pub speed_params: SpeedParams,
}

impl View for MovementDataWithSpeed {
    type V = MovementDataWithSpeedView;

    open spec fn view(&self) -> MovementDataWithSpeedView {
        MovementDataWithSpeedView {
            teleport_net_id: self.teleport_net_id,
            has_teleport_id: self.has_teleport_id,
            teleport_id: self.teleport_id,
            waypoints: self.waypoints@,
            speed_params: self.speed_params,
        }
    }
}

/// The normal body: delta-coded waypoints with an optional teleport
/// identifier.
#[derive(Clone, Debug, PartialEq, Eq)]
pub struct MovementDataNormal {
    pub teleport_id: Option<u8>,
    pub teleport_net_id: Option<u32>,
    pub waypoints: Vec<CompressedWaypoint>,
}

pub struct MovementDataNormalView {
    pub teleport_id: Option<u8>,
    pub teleport_net_id: Option<u32>,
    pub waypoints: Seq<CompressedWaypoint>,
}

impl View for MovementDataNormal {
    type V = MovementDataNormalView;

    open spec fn view(&self) -> MovementDataNormalView {
        MovementDataNormalView {
            teleport_id: self.teleport_id,
            teleport_net_id: self.teleport_net_id,
            waypoints: self.waypoints@,
        }
    }
}

impl MovementDataNormalView {
    /// The wire can carry at most 127 waypoints; a teleport net id rides
    /// along exactly when waypoints do, and a teleport id only with them.
    pub open spec fn valid(self) -> bool {
        &&& self.waypoints.len() <= 0x7F
        &&& (self.waypoints.len() == 0 ==> self.teleport_net_id is None && self.teleport_id
            is None)
        &&& (self.waypoints.len() > 0 ==> self.teleport_net_id is Some)
    }

    /// Bit 1 of the leading flags word marks a teleport id.
    pub open spec fn flags_word(self) -> u16 {
        if self.teleport_id is Some {
            2u16
        } else {
            0u16
        }
    }

    pub open spec fn wire(self) -> Seq<u8> {
        wire_u16(self.flags_word()) + wire_u16(self.waypoints.len() as u16) + (
        if self.waypoints.len() == 0 {
            Seq::<u8>::empty()
        } else {
            wire_u32(self.teleport_net_id->Some_0) + (match self.teleport_id {
                Some(t) => wire_u8(t),
                None => Seq::<u8>::empty(),
            }) + wire_waypoints(self.waypoints)
        })
    }

    pub open spec fn parse(s: Seq<u8>, i: int) -> Option<(Self, int)> {
        match parse_u16(s, i) {
            Some((f, j)) => match parse_u16(s, j) {
                Some((sw, k)) => {
                    let size = (sw & 0x7F) as int;
                    if size == 0 {
                        Some(
                            (
                                MovementDataNormalView {
                                    teleport_id: None,
                                    teleport_net_id: None,
                                    waypoints: Seq::empty(),
                                },
                                k,
                            ),
                        )
                    } else {
                        match parse_u32(s, k) {
                            Some((net_id, l)) => {
                                if f & 2 != 0 {
                                    match parse_u8(s, l) {
                                        Some((tid, m)) => match parse_waypoints(s, m, size) {
                                            Some((w, e)) => Some(
                                                (
                                                    MovementDataNormalView {
                                                        teleport_id: Some(tid),
                                                        teleport_net_id: Some(net_id),
                                                        waypoints: w,
                                                    },
                                                    e,
                                                ),
                                            ),
                                            None => None,
                                        },
                                        None => None,
                                    }
                                } else {
                                    match parse_waypoints(s, l, size) {
                                        Some((w, e)) => Some(
                                            (
                                                MovementDataNormalView {
                                                    teleport_id: None,
                                                    teleport_net_id: Some(net_id),
                                                    waypoints: w,
                                                },
                                                e,
                                            ),
                                        ),
                                        None => None,
                                    }
                                }
                            },
                            None => None,
                        }
                    }
                },
                None => None,
            },
            None => None,
        }
    }

    /// Parsing an encoded normal body restores it.
    #[verifier::rlimit(100)]
    #[verifier::spinoff_prover]
    pub proof fn lemma_parse_wire(self, s: Seq<u8>, pre: Seq<u8>, post: Seq<u8>)
        requires
            self.valid(),
            s == pre + self.wire() + post,
        ensures
            Self::parse(s, pre.len() as int) == Some((self, (pre.len() + self.wire().len()) as int)),
    {
        vstd::bytes::lemma_auto_spec_u16_to_from_le_bytes();
        vstd::bytes::lemma_auto_spec_u32_to_from_le_bytes();
        let n = self.waypoints.len() as int;
        if self.teleport_net_id is Some {
            assert(self.teleport_net_id == Some(self.teleport_net_id->Some_0));
        }
        if self.teleport_id is Some {
            assert(self.teleport_id == Some(self.teleport_id->Some_0));
        }
        let fw = self.flags_word();
        let sw = self.waypoints.len() as u16;
        let body: Seq<u8> = if n == 0 {
            Seq::<u8>::empty()
        } else {
            wire_u32(self.teleport_net_id->Some_0) + (match self.teleport_id {
                Some(t) => wire_u8(t),
                None => Seq::<u8>::empty(),
            }) + wire_waypoints(self.waypoints)
        };
        assert(s =~= pre + wire_u16(fw) + (wire_u16(sw) + body + post));
        lemma_parse_wire_u16(s, pre, fw, wire_u16(sw) + body + post);
        let pre2 = pre + wire_u16(fw);
        assert(s =~= pre2 + wire_u16(sw) + (body + post));
        lemma_parse_wire_u16(s, pre2, sw, body + post);
        assert(sw & 0x7F == sw) by (bit_vector)
            requires
                sw <= 0x7F,
        ;
        if self.teleport_id is Some {
            assert(2u16 & 2 != 0) by (bit_vector);
        } else {
            assert(0u16 & 2 == 0) by (bit_vector);
        }
        if n == 0 {
            assert(self.waypoints =~= Seq::<CompressedWaypoint>::empty());
            assert(Self::parse(s, pre.len() as int) == Some(
                (self, (pre.len() + self.wire().len()) as int),
            ));
        } else {
            let pre3 = pre2 + wire_u16(sw);
            let tidw: Seq<u8> = match self.teleport_id {
                Some(t) => wire_u8(t),
                None => Seq::<u8>::empty(),
            };
            assert(s =~= pre3 + wire_u32(self.teleport_net_id->Some_0) + (tidw + wire_waypoints(
                self.waypoints,
            ) + post));
            lemma_parse_wire_u32(
                s,
                pre3,
                self.teleport_net_id->Some_0,
                tidw + wire_waypoints(self.waypoints) + post,
            );
            let pre4 = pre3 + wire_u32(self.teleport_net_id->Some_0);
            if self.teleport_id is Some {
                assert(s =~= pre4 + wire_u8(self.teleport_id->Some_0) + (wire_waypoints(
                    self.waypoints,
                ) + post));
                lemma_parse_wire_u8(s, pre4, self.teleport_id->Some_0, wire_waypoints(self.waypoints) + post);
                let pre5 = pre4 + wire_u8(self.teleport_id->Some_0);
                assert(s =~= pre5 + wire_waypoints(self.waypoints) + post);
                lemma_parse_wire_waypoints(self.waypoints, s, pre5, post);
                assert(parse_waypoints(s, pre5.len() as int, n) == Some(
                    (self.waypoints, (pre5.len() + wire_waypoints(self.waypoints).len()) as int),
                ));
            } else {
                assert(tidw =~= Seq::<u8>::empty());
                assert(pre4 + tidw =~= pre4);
                assert(s =~= pre4 + wire_waypoints(self.waypoints) + post);
                lemma_parse_wire_waypoints(self.waypoints, s, pre4, post);
                assert(parse_waypoints(s, pre4.len() as int, n) == Some(
                    (self.waypoints, (pre4.len() + wire_waypoints(self.waypoints).len()) as int),
                ));
            }
            assert(self.wire().len() == 4 + body.len());
            assert(Self::parse(s, pre.len() as int) == Some(
                (self, (pre.len() + self.wire().len()) as int),
            ));
        }
    }
}

impl MovementDataNormal {
    /// Append the wire image of a valid normal body.
    pub fn encode(&self, out: &mut Vec<u8>)
        requires
            self@.valid(),
        ensures
            final(out)@ == old(out)@ + self@.wire(),
    {
        let ghost base = out@;
        let fw: u16 = if self.teleport_id.is_some() {
            2u16
        } else {
            0u16
        };
        put_u16(out, fw);
        put_u16(out, self.waypoints.len() as u16);
        if self.waypoints.len() > 0 {
            match self.teleport_net_id {
                Some(net_id) => put_u32(out, net_id),
                None => {
                    proof {
                        assert(false);
                    }
                },
            }
            match self.teleport_id {
                Some(tid) => put_u8(out, tid),
                None => {},
            }
            encode_waypoints(out, &self.waypoints);
        }
        assert(out@ =~= base + self@.wire());
    }

    /// Decode a normal body starting at `i`.
    pub fn decode(s: &[u8], i: usize) -> (r: Option<(Self, usize)>)
        ensures
            match MovementDataNormalView::parse(s@, i as int) {
                Some((v, j)) => r is Some && r->Some_0.0@ == v && r->Some_0.1 == j,
                None => r is None,
            },
    {
        let slen = s.len();
        assert(s@.len() == slen);
        let (f, j) = match take_u16(s, i) {
            Some(v) => v,
            None => {
                return None;
            },
        };
        let (sw, k) = match take_u16(s, j) {
            Some(v) => v,
            None => {
                return None;
            },
        };
        let size = (sw & 0x7F) as usize;
        assert(sw & 0x7F <= 0x7F) by (bit_vector);
        if size == 0 {
            return Some(
                (
                    MovementDataNormal {
                        teleport_id: None,
                        teleport_net_id: None,
                        waypoints: Vec::new(),
                    },
                    k,
                ),
            );
        }
        let (net_id, l) = match take_u32(s, k) {
            Some(v) => v,
            None => {
                return None;
            },
        };
        if f & 2 != 0 {
            let (tid, m) = match take_u8(s, l) {
                Some(v) => v,
                None => {
                    return None;
                },
            };
            match decode_waypoints(s, m, size) {
                Some((w, e)) => Some(
                    (
                        MovementDataNormal {
                            teleport_id: Some(tid),
                            teleport_net_id: Some(net_id),
                            waypoints: w,
                        },
                        e,
                    ),
                ),
                None => None,
            }
        } else {
            match decode_waypoints(s, l, size) {
                Some((w, e)) => Some(
                    (
                        MovementDataNormal {
                            teleport_id: None,
                            teleport_net_id: Some(net_id),
                            waypoints: w,
                        },
                        e,
                    ),
                ),
                None => None,
            }
        }
    }
}

/// The tagged union: 1 = with-speed, 2 = normal, 3 = stop, other = a bare
/// 32-bit body under tag 0.
#[derive(Clone, Debug, PartialEq, Eq)]
pub enum MovementData {
    Normal(MovementDataNormal),
    Stop(MovementDataStop),
    Speed(MovementDataWithSpeed),
    Bare(i32),
}

pub enum MovementDataView {
    Normal(MovementDataNormalView),
    Stop(MovementDataStop),
    Speed(MovementDataWithSpeedView),
    Bare(i32),
}

impl View for MovementData {
    type V = MovementDataView;

    open spec fn view(&self) -> MovementDataView {
        match self {
            MovementData::Normal(n) => MovementDataView::Normal(n@),
            MovementData::Stop(st) => MovementDataView::Stop(*st),
            MovementData::Speed(sp) => MovementDataView::Speed(sp@),
            MovementData::Bare(v) => MovementDataView::Bare(*v),
        }
    }
}

impl MovementDataView {
    /// The with-speed body has no codec; every other form does.
    pub open spec fn valid(self) -> bool {
        match self {
            MovementDataView::Normal(n) => n.valid(),
            MovementDataView::Stop(_) => true,
            MovementDataView::Speed(_) => false,
            MovementDataView::Bare(_) => true,
        }
    }

    pub open spec fn wire(self) -> Seq<u8> {
        match self {
            MovementDataView::Normal(n) => wire_u8(2) + n.wire(),
            MovementDataView::Stop(st) => wire_u8(3) + st.wire(),
            MovementDataView::Speed(_) => Seq::empty(),
            MovementDataView::Bare(v) => wire_u8(0) + wire_i32(v),
        }
    }

    pub open spec fn parse(s: Seq<u8>, i: int) -> Option<(Self, int)> {
        match parse_u8(s, i) {
            Some((tag, j)) => {
                if tag == 1 {
                    None
                } else if tag == 2 {
                    match MovementDataNormalView::parse(s, j) {
                        Some((n, k)) => Some((MovementDataView::Normal(n), k)),
                        None => None,
                    }
                } else if tag == 3 {
                    match MovementDataStop::parse(s, j) {
                        Some((st, k)) => Some((MovementDataView::Stop(st), k)),
                        None => None,
                    }
                } else {
                    match parse_i32(s, j) {
                        Some((v, k)) => Some((MovementDataView::Bare(v), k)),
                        None => None,
                    }
                }
            },
            None => None,
        }
    }

    /// Parsing an encoded valid movement body restores it.
    pub proof fn lemma_parse_wire(self, s: Seq<u8>, pre: Seq<u8>, post: Seq<u8>)
        requires
            self.valid(),
            s == pre + self.wire() + post,
        ensures
            Self::parse(s, pre.len() as int) == Some((self, (pre.len() + self.wire().len()) as int)),
    {
        vstd::bytes::lemma_auto_spec_u32_to_from_le_bytes();
        match self {
            MovementDataView::Normal(n) => {
                assert(s =~= pre + wire_u8(2) + (n.wire() + post));
                lemma_parse_wire_u8(s, pre, 2, n.wire() + post);
                let pre2 = pre + wire_u8(2);
                assert(s =~= pre2 + n.wire() + post);
                n.lemma_parse_wire(s, pre2, post);
            },
            MovementDataView::Stop(st) => {
                assert(s =~= pre + wire_u8(3) + (st.wire() + post));
                lemma_parse_wire_u8(s, pre, 3, st.wire() + post);
                let pre2 = pre + wire_u8(3);
                assert(s =~= pre2 + st.wire() + post);
                st.lemma_parse_wire(s, pre2, post);
            },
            MovementDataView::Speed(_) => {},
            MovementDataView::Bare(v) => {
                assert(s =~= pre + wire_u8(0) + (wire_i32(v) + post));
                lemma_parse_wire_u8(s, pre, 0, wire_i32(v) + post);
                let pre2 = pre + wire_u8(0);
                assert(s =~= pre2 + wire_i32(v) + post);
                lemma_parse_wire_i32(s, pre2, v, post);
            },
        }
    }
}

impl MovementData {
    /// Append the wire image of a valid movement body.
    pub fn encode(&self, out: &mut Vec<u8>)
        requires
            self@.valid(),
        ensures
            final(out)@ == old(out)@ + self@.wire(),
    {
        let ghost base = out@;
        match self {
            MovementData::Normal(n) => {
                put_u8(out, 2);
                n.encode(out);
            },
            MovementData::Stop(st) => {
                put_u8(out, 3);
                st.encode(out);
            },
            MovementData::Speed(_) => {
                proof {
                    assert(false);
                }
            },
            MovementData::Bare(v) => {
                put_u8(out, 0);
                put_i32(out, *v);
            },
        }
        assert(out@ =~= base + self@.wire());
    }

    /// Decode a movement body starting at `i`.
    pub fn decode(s: &[u8], i: usize) -> (r: Option<(Self, usize)>)
        ensures
            match MovementDataView::parse(s@, i as int) {
                Some((v, j)) => r is Some && r->Some_0.0@ == v && r->Some_0.1 == j,
                None => r is None,
            },
    {
        let slen = s.len();
        assert(s@.len() == slen);
        let (tag, j) = match take_u8(s, i) {
            Some(v) => v,
            None => {
                return None;
            },
        };
        if tag == 1 {
            None
        } else if tag == 2 {
            match MovementDataNormal::decode(s, j) {
                Some((n, k)) => Some((MovementData::Normal(n), k)),
                None => None,
            }
        } else if tag == 3 {
            match MovementDataStop::decode(s, j) {
                Some((st, k)) => Some((MovementData::Stop(st), k)),
                None => None,
            }
        } else {
            match take_i32(s, j) {
                Some((v, k)) => Some((MovementData::Bare(v), k)),
                None => None,
            }
        }
    }
}

/// Whatever a normal body parses to fits the wire again.
pub proof fn lemma_parse_normal_valid(s: Seq<u8>, i: int)
    requires
        MovementDataNormalView::parse(s, i) is Some,
    ensures
        MovementDataNormalView::parse(s, i)->Some_0.0.valid(),
{
    let (f, j) = parse_u16(s, i)->Some_0;
    let (sw, k) = parse_u16(s, j)->Some_0;
    let size = (sw & 0x7F) as int;
    assert(sw & 0x7F <= 0x7F) by (bit_vector);
    if size != 0 {
        let (net_id, l) = parse_u32(s, k)->Some_0;
        if f & 2 != 0 {
            let (tid, m) = parse_u8(s, l)->Some_0;
            crate::waypoint::lemma_parse_waypoints_len(s, m, size);
        } else {
            crate::waypoint::lemma_parse_waypoints_len(s, l, size);
        }
    }
}

} // verus!
