//! Delta-coded waypoint lists.
//!
//! A list of `size` waypoints is laid out as a flag bitmap of
//! `(size - 2) / 4 + 1` bytes (minimum one), the first waypoint as two
//! absolute `i16` coordinates, and then two coordinates per remaining
//! waypoint.  Each coordinate after the first waypoint owns one bit in the
//! bitmap: a set bit means the coordinate travels as an `i8` delta against
//! the previous waypoint, a clear bit means an absolute `i16`.  Waypoint
//! `4q + r + 1` keeps its x bit at position `2r` and its z bit at `2r + 1`
//! of bitmap byte `q`.
use vstd::prelude::*;

verus! {

use crate::bitfield::{bit8, bool_u8};
use crate::wire::{
    parse_i16,
    parse_i8,
    parse_u8,
    put_i16,
    put_i8,
    put_u8,
    take_i16,
    take_i8,
    wire_i16,
    wire_i8,
    lemma_parse_wire_i16,
    lemma_parse_wire_i8,
};

#[derive(Clone, Copy, Debug, PartialEq, Eq, Structural)]
pub struct CompressedWaypoint {
    pub x: i16,
    pub z: i16,
}

/// A delta fits on the wire when it can travel as one signed byte.
pub open spec fn fits_i8(d: int) -> bool {
    -128 <= d <= 127
}

/// The flag owned by coordinate `isz` of waypoint `i`; slots outside the
/// list carry a clear bit.
pub open spec fn slot_flag(w: Seq<CompressedWaypoint>, i: int, isz: bool) -> bool {
    1 <= i < w.len() && (if isz {
        fits_i8(w[i].z - w[i - 1].z)
    } else {
        fits_i8(w[i].x - w[i - 1].x)
    })
}

/// Eight flags packed into one byte, lowest slot in the lowest bit.
pub open spec fn pack8(
    b0: bool,
    b1: bool,
    b2: bool,
    b3: bool,
    b4: bool,
    b5: bool,
    b6: bool,
    b7: bool,
) -> u8 {
    bit8(b0) | (bit8(b1) << 1) | (bit8(b2) << 2) | (bit8(b3) << 3) | (bit8(b4) << 4) | (bit8(b5)
        << 5) | (bit8(b6) << 6) | (bit8(b7) << 7)
}

pub proof fn lemma_pack8(b0: bool, b1: bool, b2: bool, b3: bool, b4: bool, b5: bool, b6: bool, b7: bool)
    ensures
        (((pack8(b0, b1, b2, b3, b4, b5, b6, b7) >> 0) & 1) == 1) <==> b0,
        (((pack8(b0, b1, b2, b3, b4, b5, b6, b7) >> 1) & 1) == 1) <==> b1,
        (((pack8(b0, b1, b2, b3, b4, b5, b6, b7) >> 2) & 1) == 1) <==> b2,
        (((pack8(b0, b1, b2, b3, b4, b5, b6, b7) >> 3) & 1) == 1) <==> b3,
        (((pack8(b0, b1, b2, b3, b4, b5, b6, b7) >> 4) & 1) == 1) <==> b4,
        (((pack8(b0, b1, b2, b3, b4, b5, b6, b7) >> 5) & 1) == 1) <==> b5,
        (((pack8(b0, b1, b2, b3, b4, b5, b6, b7) >> 6) & 1) == 1) <==> b6,
        (((pack8(b0, b1, b2, b3, b4, b5, b6, b7) >> 7) & 1) == 1) <==> b7,
{
    let v0 = bit8(b0);
    let v1 = bit8(b1);
    let v2 = bit8(b2);
    let v3 = bit8(b3);
    let v4 = bit8(b4);
    let v5 = bit8(b5);
    let v6 = bit8(b6);
    let v7 = bit8(b7);
    let b = pack8(b0, b1, b2, b3, b4, b5, b6, b7);
    assert(((((b >> 0) & 1) == 1) <==> v0 == 1) && ((((b >> 1) & 1) == 1) <==> v1 == 1) && ((((b
        >> 2) & 1) == 1) <==> v2 == 1) && ((((b >> 3) & 1) == 1) <==> v3 == 1) && ((((b >> 4) & 1)
        == 1) <==> v4 == 1) && ((((b >> 5) & 1) == 1) <==> v5 == 1) && ((((b >> 6) & 1) == 1) <==>
        v6 == 1) && ((((b >> 7) & 1) == 1) <==> v7 == 1)) by (bit_vector)
        requires
            v0 <= 1,
            v1 <= 1,
            v2 <= 1,
            v3 <= 1,
            v4 <= 1,
            v5 <= 1,
            v6 <= 1,
            v7 <= 1,
            b == v0 | (v1 << 1) | (v2 << 2) | (v3 << 3) | (v4 << 4) | (v5 << 5) | (v6 << 6) | (v7
                << 7),
    ;
}

/// Number of bitmap bytes for a list of `n` waypoints.
pub open spec fn flag_len(n: int) -> int {
    if n >= 2 {
        (n - 2) / 4 + 1
    } else {
        1
    }
}

/// Bitmap byte `q`: flags of waypoints `4q + 1 ..= 4q + 4`.
pub open spec fn flag_byte(w: Seq<CompressedWaypoint>, q: int) -> u8 {
    pack8(
        slot_flag(w, 4 * q + 1, false),
        slot_flag(w, 4 * q + 1, true),
        slot_flag(w, 4 * q + 2, false),
        slot_flag(w, 4 * q + 2, true),
        slot_flag(w, 4 * q + 3, false),
        slot_flag(w, 4 * q + 3, true),
        slot_flag(w, 4 * q + 4, false),
        slot_flag(w, 4 * q + 4, true),
    )
}

pub open spec fn flag_bytes(w: Seq<CompressedWaypoint>) -> Seq<u8> {
    Seq::new(flag_len(w.len() as int) as nat, |q: int| flag_byte(w, q))
}

/// Wire image of one coordinate pair after the first waypoint.
pub open spec fn coord_pair(w: Seq<CompressedWaypoint>, i: int) -> Seq<u8> {
    (if slot_flag(w, i, false) {
        wire_i8((w[i].x - w[i - 1].x) as i8)
    } else {
        wire_i16(w[i].x)
    }) + (if slot_flag(w, i, true) {
        wire_i8((w[i].z - w[i - 1].z) as i8)
    } else {
        wire_i16(w[i].z)
    })
}

/// Wire image of the coordinate pairs from waypoint `i` on.
pub open spec fn wire_coords(w: Seq<CompressedWaypoint>, i: int) -> Seq<u8>
    decreases w.len() - i,
{
    if 1 <= i < w.len() {
        coord_pair(w, i) + wire_coords(w, i + 1)
    } else {
        Seq::empty()
    }
}

/// Wire image of a non-empty waypoint list.
#[verifier::opaque]
pub open spec fn wire_waypoints(w: Seq<CompressedWaypoint>) -> Seq<u8> {
    flag_bytes(w) + wire_i16(w[0].x) + wire_i16(w[0].z) + wire_coords(w, 1)
}

/// The flag bit consumed for coordinate `isz` of waypoint `k` out of the
/// bitmap `fb`.
pub open spec fn flag_of(fb: Seq<u8>, k: int, isz: bool) -> bool {
    let q = (k - 1) / 4;
    let b = 2 * ((k - 1) % 4) + (if isz {
        1int
    } else {
        0int
    });
    0 <= q < fb.len() && ((fb[q] >> (b as u8)) & 1) == 1
}

/// Parse one coordinate: a delta against `prev` when flagged, else an
/// absolute value.  A delta that leaves the 16-bit range is a malformed
/// frame.
pub open spec fn parse_coord(s: Seq<u8>, i: int, flagged: bool, prev: i16) -> Option<(i16, int)> {
    if flagged {
        match parse_i8(s, i) {
            Some((d, j)) => if -0x8000 <= prev + d && prev + d <= 0x7fff {
                Some(((prev + d) as i16, j))
            } else {
                None
            },
            None => None,
        }
    } else {
        parse_i16(s, i)
    }
}

/// Parse the coordinate pairs of waypoints `k .. n` against the bitmap.
pub open spec fn parse_coords(
    s: Seq<u8>,
    i: int,
    fb: Seq<u8>,
    prev: CompressedWaypoint,
    k: int,
    n: int,
) -> Option<(Seq<CompressedWaypoint>, int)>
    decreases n - k,
{
    if k >= n {
        Some((Seq::empty(), i))
    } else {
        match parse_coord(s, i, flag_of(fb, k, false), prev.x) {
            Some((x, j1)) => match parse_coord(s, j1, flag_of(fb, k, true), prev.z) {
                Some((z, j2)) => {
                    let wp = CompressedWaypoint { x, z };
                    match parse_coords(s, j2, fb, wp, k + 1, n) {
                        Some((rest, j)) => Some((seq![wp] + rest, j)),
                        None => None,
                    }
                },
                None => None,
            },
            None => None,
        }
    }
}

/// Parse a waypoint list of known size `n >= 1`.
#[verifier::opaque]
pub open spec fn parse_waypoints(s: Seq<u8>, i: int, n: int) -> Option<
    (Seq<CompressedWaypoint>, int),
> {
    if n < 1 || i < 0 || i + flag_len(n) > s.len() {
        None
    } else {
        let fb = s.subrange(i, i + flag_len(n));
        match parse_i16(s, i + flag_len(n)) {
            Some((x0, i2)) => match parse_i16(s, i2) {
                Some((z0, i3)) => {
                    let w0 = CompressedWaypoint { x: x0, z: z0 };
                    match parse_coords(s, i3, fb, w0, 1, n) {
                        Some((rest, j)) => Some((seq![w0] + rest, j)),
                        None => None,
                    }
                },
                None => None,
            },
            None => None,
        }
    }
}

/// The bit read back for waypoint `k` is the bit the encoder stored.
proof fn lemma_flag_correct(w: Seq<CompressedWaypoint>, k: int, isz: bool)
    requires
        1 <= k < w.len(),
    ensures
        flag_of(flag_bytes(w), k, isz) == slot_flag(w, k, isz),
{
    let q = (k - 1) / 4;
    let r = (k - 1) % 4;
    assert(k - 1 == 4 * q + r && 0 <= r < 4) by (nonlinear_arith)
        requires
            k >= 1,
            q == (k - 1) / 4,
            r == (k - 1) % 4,
    ;
    assert(0 <= q < flag_len(w.len() as int)) by (nonlinear_arith)
        requires
            1 <= k < w.len(),
            k - 1 == 4 * q + r,
            0 <= r < 4,
    ;
    let fb = flag_bytes(w);
    assert(fb[q] == flag_byte(w, q));
    lemma_pack8(
        slot_flag(w, 4 * q + 1, false),
        slot_flag(w, 4 * q + 1, true),
        slot_flag(w, 4 * q + 2, false),
        slot_flag(w, 4 * q + 2, true),
        slot_flag(w, 4 * q + 3, false),
        slot_flag(w, 4 * q + 3, true),
        slot_flag(w, 4 * q + 4, false),
        slot_flag(w, 4 * q + 4, true),
    );
    if r == 0 {
        assert(flag_of(fb, k, isz) == slot_flag(w, k, isz));
    } else if r == 1 {
        assert(flag_of(fb, k, isz) == slot_flag(w, k, isz));
    } else if r == 2 {
        assert(flag_of(fb, k, isz) == slot_flag(w, k, isz));
    } else {
        assert(flag_of(fb, k, isz) == slot_flag(w, k, isz));
    }
}

/// Parsing the encoded coordinate pairs from waypoint `k` on restores the
/// tail of the list.
proof fn lemma_parse_wire_coords(
    w: Seq<CompressedWaypoint>,
    s: Seq<u8>,
    pre: Seq<u8>,
    post: Seq<u8>,
    k: int,
)
    requires
        1 <= k <= w.len(),
        s == pre + wire_coords(w, k) + post,
    ensures
        parse_coords(s, pre.len() as int, flag_bytes(w), w[k - 1], k, w.len() as int) == Some(
            (w.subrange(k, w.len() as int), (pre.len() + wire_coords(w, k).len()) as int),
        ),
    decreases w.len() - k,
{
    vstd::bytes::lemma_auto_spec_u16_to_from_le_bytes();
    let n = w.len() as int;
    let fb = flag_bytes(w);
    if k >= n {
        assert(w.subrange(k, n) =~= Seq::<CompressedWaypoint>::empty());
    } else {
        lemma_flag_correct(w, k, false);
        lemma_flag_correct(w, k, true);
        let xpart = if slot_flag(w, k, false) {
            wire_i8((w[k].x - w[k - 1].x) as i8)
        } else {
            wire_i16(w[k].x)
        };
        let zpart = if slot_flag(w, k, true) {
            wire_i8((w[k].z - w[k - 1].z) as i8)
        } else {
            wire_i16(w[k].z)
        };
        let tail = wire_coords(w, k + 1);
        assert(wire_coords(w, k) == coord_pair(w, k) + tail);
        assert(s =~= pre + xpart + (zpart + tail + post));
        // x coordinate
        if slot_flag(w, k, false) {
            let d = (w[k].x - w[k - 1].x) as i8;
            lemma_parse_wire_i8(s, pre, d, zpart + tail + post);
            assert(w[k - 1].x + d == w[k].x);
        } else {
            lemma_parse_wire_i16(s, pre, w[k].x, zpart + tail + post);
        }
        assert(parse_coord(s, pre.len() as int, flag_of(fb, k, false), w[k - 1].x) == Some(
            (w[k].x, (pre.len() + xpart.len()) as int),
        ));
        // z coordinate
        let pre2 = pre + xpart;
        assert(s =~= pre2 + zpart + (tail + post));
        if slot_flag(w, k, true) {
            let d = (w[k].z - w[k - 1].z) as i8;
            lemma_parse_wire_i8(s, pre2, d, tail + post);
            assert(w[k - 1].z + d == w[k].z);
        } else {
            lemma_parse_wire_i16(s, pre2, w[k].z, tail + post);
        }
        assert(parse_coord(s, pre2.len() as int, flag_of(fb, k, true), w[k - 1].z) == Some(
            (w[k].z, (pre2.len() + zpart.len()) as int),
        ));
        // the rest, by induction
        let pre3 = pre2 + zpart;
        assert(s =~= pre3 + tail + post);
        lemma_parse_wire_coords(w, s, pre3, post, k + 1);
        assert(seq![w[k]] + w.subrange(k + 1, n) =~= w.subrange(k, n));
    }
}

/// Parsing an encoded waypoint list of its own size restores the list.
#[verifier::rlimit(50)]
pub proof fn lemma_parse_wire_waypoints(
    w: Seq<CompressedWaypoint>,
    s: Seq<u8>,
    pre: Seq<u8>,
    post: Seq<u8>,
)
    requires
        w.len() >= 1,
        s == pre + wire_waypoints(w) + post,
    ensures
        parse_waypoints(s, pre.len() as int, w.len() as int) == Some(
            (w, (pre.len() + wire_waypoints(w).len()) as int),
        ),
{
    reveal(wire_waypoints);
    reveal(parse_waypoints);
    let n = w.len() as int;
    let fb = flag_bytes(w);
    let ln = flag_len(n);
    assert(fb.len() == ln);
    let first = wire_i16(w[0].x) + wire_i16(w[0].z) + wire_coords(w, 1);
    assert(s =~= pre + fb + (first + post));
    crate::wire::lemma_mid_subrange(s, pre, fb, first + post);
    let i1 = pre.len() as int + ln;
    assert(s.subrange(pre.len() as int, i1) == fb);
    vstd::bytes::lemma_auto_spec_u16_to_from_le_bytes();
    let pre1 = pre + fb;
    assert(s =~= pre1 + wire_i16(w[0].x) + (wire_i16(w[0].z) + wire_coords(w, 1) + post));
    lemma_parse_wire_i16(s, pre1, w[0].x, wire_i16(w[0].z) + wire_coords(w, 1) + post);
    let pre2 = pre1 + wire_i16(w[0].x);
    assert(s =~= pre2 + wire_i16(w[0].z) + (wire_coords(w, 1) + post));
    lemma_parse_wire_i16(s, pre2, w[0].z, wire_coords(w, 1) + post);
    let pre3 = pre2 + wire_i16(w[0].z);
    assert(s =~= pre3 + wire_coords(w, 1) + post);
    lemma_parse_wire_coords(w, s, pre3, post, 1);
    assert(w[0] == CompressedWaypoint { x: w[0].x, z: w[0].z });
    assert(seq![w[0]] + w.subrange(1, n) =~= w);
}

/// Executable test of [`slot_flag`].
fn slot_fits(w: &Vec<CompressedWaypoint>, i: usize, isz: bool) -> (r: bool)
    ensures
        r == slot_flag(w@, i as int, isz),
{
    if i >= 1 && i < w.len() {
        let d: i32 = if isz {
            (w[i].z as i32) - (w[i - 1].z as i32)
        } else {
            (w[i].x as i32) - (w[i - 1].x as i32)
        };
        -128 <= d && d <= 127
    } else {
        false
    }
}

/// Append the wire image of a non-empty waypoint list.
pub fn encode_waypoints(out: &mut Vec<u8>, w: &Vec<CompressedWaypoint>)
    requires
        1 <= w@.len() <= 0x7F,
    ensures
        final(out)@ == old(out)@ + wire_waypoints(w@),
{
    let ghost base = out@;
    let n = w.len();
    let ln: usize = if n >= 2 {
        (n - 2) / 4 + 1
    } else {
        1
    };
    assert(ln == flag_len(n as int));
    // bitmap
    let mut q: usize = 0;
    while q < ln
        invariant
            q <= ln,
            ln <= 32,
            n == w@.len(),
            ln == flag_len(w@.len() as int),
            1 <= w@.len() <= 0x7F,
            out@ == base + flag_bytes(w@).subrange(0, q as int),
        decreases ln - q,
    {
        let b: u8 = bool_u8(slot_fits(w, 4 * q + 1, false)) | (bool_u8(slot_fits(w, 4 * q + 1, true))
            << 1) | (bool_u8(slot_fits(w, 4 * q + 2, false)) << 2) | (bool_u8(
            slot_fits(w, 4 * q + 2, true),
        ) << 3) | (bool_u8(slot_fits(w, 4 * q + 3, false)) << 4) | (bool_u8(
            slot_fits(w, 4 * q + 3, true),
        ) << 5) | (bool_u8(slot_fits(w, 4 * q + 4, false)) << 6) | (bool_u8(
            slot_fits(w, 4 * q + 4, true),
        ) << 7);
        assert(b == flag_byte(w@, q as int));
        put_u8(out, b);
        assert(out@ =~= base + flag_bytes(w@).subrange(0, q as int + 1));
        q += 1;
    }
    assert(flag_bytes(w@).subrange(0, ln as int) =~= flag_bytes(w@));
    // first waypoint, absolute
    put_i16(out, w[0].x);
    put_i16(out, w[0].z);
    let ghost base2 = base + flag_bytes(w@) + wire_i16(w@[0].x) + wire_i16(w@[0].z);
    assert(out@ =~= base2);
    // remaining coordinate pairs
    let mut i: usize = 1;
    while i < n
        invariant
            1 <= i <= n,
            n == w@.len(),
            out@ + wire_coords(w@, i as int) == base2 + wire_coords(w@, 1),
        decreases n - i,
    {
        let ghost before = out@;
        if slot_fits(w, i, false) {
            let d: i32 = (w[i].x as i32) - (w[i - 1].x as i32);
            put_i8(out, d as i8);
        } else {
            put_i16(out, w[i].x);
        }
        if slot_fits(w, i, true) {
            let d: i32 = (w[i].z as i32) - (w[i - 1].z as i32);
            put_i8(out, d as i8);
        } else {
            put_i16(out, w[i].z);
        }
        proof {
            assert(out@ =~= before + coord_pair(w@, i as int));
            assert(wire_coords(w@, i as int) == coord_pair(w@, i as int) + wire_coords(
                w@,
                i as int + 1,
            ));
            assert(out@ + wire_coords(w@, i as int + 1) =~= before + wire_coords(w@, i as int));
        }
        i += 1;
    }
    proof {
        reveal(wire_waypoints);
    }
    assert(wire_coords(w@, n as int) =~= Seq::<u8>::empty());
    assert(out@ =~= out@ + wire_coords(w@, n as int));
    assert(out@ =~= base + wire_waypoints(w@));
}

/// Executable twin of [`parse_coord`].
fn take_coord(s: &[u8], i: usize, flagged: bool, prev: i16) -> (r: Option<(i16, usize)>)
    ensures
        crate::wire::parsed(parse_coord(s@, i as int, flagged, prev), r),
{
    if flagged {
        match take_i8(s, i) {
            Some((d, j)) => match prev.checked_add(d as i16) {
                Some(v) => Some((v, j)),
                None => None,
            },
            None => None,
        }
    } else {
        take_i16(s, i)
    }
}

/// Read the two flag bits owned by waypoint `k` out of the bitmap that
/// starts at `i` and spans `ln` bytes.
fn get_flags(s: &[u8], i: usize, ln: usize, k: usize) -> (r: (bool, bool))
    requires
        i + ln <= s@.len(),
        1 <= k,
        (k - 1) / 4 < ln,
    ensures
        r.0 == flag_of(s@.subrange(i as int, (i + ln) as int), k as int, false),
        r.1 == flag_of(s@.subrange(i as int, (i + ln) as int), k as int, true),
{
    let slen = s.len();
    let q: usize = (k - 1) / 4;
    assert(q < ln);
    assert(i + q < slen);
    assert(2 * ((k - 1) % 4) <= 6);
    let xsh: u8 = (2 * ((k - 1) % 4)) as u8;
    assert(xsh == 2 * ((k as int - 1) % 4));
    let fbyte = *vstd::slice::slice_index_get(s, i + q);
    assert(fbyte == s@.subrange(i as int, (i + ln) as int)[q as int]);
    (((fbyte >> xsh) & 1) == 1, ((fbyte >> (xsh + 1)) & 1) == 1)
}

/// One unfolding of [`parse_coords`] at a step whose coordinates parsed
/// and whose tail parses.
#[verifier::spinoff_prover]
proof fn lemma_parse_coords_step_some(
    s: Seq<u8>,
    i: int,
    fb: Seq<u8>,
    prev: CompressedWaypoint,
    k: int,
    n: int,
    wp: CompressedWaypoint,
    j2: int,
    rest: Seq<CompressedWaypoint>,
    jj: int,
)
    requires
        k < n,
        parse_coord(s, i, flag_of(fb, k, false), prev.x) matches Some(p1) && p1.0 == wp.x,
        parse_coord(s, i, flag_of(fb, k, false), prev.x) matches Some(p1) && parse_coord(
            s,
            p1.1,
            flag_of(fb, k, true),
            prev.z,
        ) == Some((wp.z, j2)),
        parse_coords(s, j2, fb, wp, k + 1, n) == Some((rest, jj)),
    ensures
        parse_coords(s, i, fb, prev, k, n) == Some((seq![wp] + rest, jj)),
{
    assert(wp == CompressedWaypoint { x: wp.x, z: wp.z });
}

/// One unfolding of [`parse_coords`] at a step whose tail fails to parse.
#[verifier::spinoff_prover]
proof fn lemma_parse_coords_step_none(
    s: Seq<u8>,
    i: int,
    fb: Seq<u8>,
    prev: CompressedWaypoint,
    k: int,
    n: int,
    wp: CompressedWaypoint,
    j2: int,
)
    requires
        k < n,
        parse_coord(s, i, flag_of(fb, k, false), prev.x) matches Some(p1) && p1.0 == wp.x,
        parse_coord(s, i, flag_of(fb, k, false), prev.x) matches Some(p1) && parse_coord(
            s,
            p1.1,
            flag_of(fb, k, true),
            prev.z,
        ) == Some((wp.z, j2)),
        parse_coords(s, j2, fb, wp, k + 1, n) is None,
    ensures
        parse_coords(s, i, fb, prev, k, n) is None,
{
    assert(wp == CompressedWaypoint { x: wp.x, z: wp.z });
}

/// One unfolding of [`parse_coords`] at a step whose first coordinate
/// fails to parse.
proof fn lemma_parse_coords_fail_x(
    s: Seq<u8>,
    i: int,
    fb: Seq<u8>,
    prev: CompressedWaypoint,
    k: int,
    n: int,
)
    requires
        k < n,
        parse_coord(s, i, flag_of(fb, k, false), prev.x) is None,
    ensures
        parse_coords(s, i, fb, prev, k, n) is None,
{
}

/// One unfolding of [`parse_coords`] at a step whose second coordinate
/// fails to parse.
proof fn lemma_parse_coords_fail_z(
    s: Seq<u8>,
    i: int,
    fb: Seq<u8>,
    prev: CompressedWaypoint,
    k: int,
    n: int,
    j1: int,
)
    requires
        k < n,
        parse_coord(s, i, flag_of(fb, k, false), prev.x) matches Some(p1) && p1.1 == j1,
        parse_coord(s, j1, flag_of(fb, k, true), prev.z) is None,
    ensures
        parse_coords(s, i, fb, prev, k, n) is None,
{
}

/// Decode a waypoint list of known size `n >= 1` starting at `i`.
pub fn decode_waypoints(s: &[u8], i: usize, n: usize) -> (r: Option<
    (Vec<CompressedWaypoint>, usize),
>)
    requires
        1 <= n <= 0x7F,
    ensures
        match parse_waypoints(s@, i as int, n as int) {
            Some((w, j)) => r is Some && r->Some_0.0@ == w && r->Some_0.1 == j,
            None => r is None,
        },
{
    let slen = s.len();
    proof {
        reveal(parse_waypoints);
    }
    assert(s@.len() == slen);
    let ln: usize = if n >= 2 {
        (n - 2) / 4 + 1
    } else {
        1
    };
    assert(ln == flag_len(n as int));
    assert(ln <= 32);
    if i > slen || ln > slen - i {
        return None;
    }
    let ghost fb = s@.subrange(i as int, i as int + ln as int);
    let x0 = match take_i16(s, i + ln) {
        Some(v) => v,
        None => {
            return None;
        },
    };
    let z0 = match take_i16(s, x0.1) {
        Some(v) => v,
        None => {
            return None;
        },
    };
    let w0 = CompressedWaypoint { x: x0.0, z: z0.0 };
    let ghost gi2 = x0.1 as int;
    let mut acc: Vec<CompressedWaypoint> = Vec::new();
    acc.push(w0);
    let mut prev = w0;
    let mut k: usize = 1;
    let mut cur: usize = z0.1;
    let ghost start3 = z0.1 as int;
    assert(parse_i16(s@, (i + ln) as int) == Some((w0.x, gi2)));
    assert(parse_i16(s@, gi2) == Some((w0.z, start3)));
    while k < n
        invariant
            1 <= k <= n,
            1 <= n <= 0x7F,
            ln == flag_len(n as int),
            ln <= 32,
            i + ln <= s@.len(),
            s@.len() <= usize::MAX,
            parse_i16(s@, (i + ln) as int) == Some((w0.x, gi2)),
            parse_i16(s@, gi2) == Some((w0.z, start3)),
            acc@.len() == k,
            acc@[0] == w0,
            acc@[k - 1] == prev,
            fb == s@.subrange(i as int, i as int + ln as int),
            match parse_coords(s@, cur as int, fb, prev, k as int, n as int) {
                Some((rest, j)) => parse_coords(s@, start3, fb, w0, 1, n as int) == Some(
                    (acc@.subrange(1, k as int) + rest, j),
                ),
                None => parse_coords(s@, start3, fb, w0, 1, n as int) is None,
            },
        decreases n - k,
    {
        proof {
            assert((k - 1) / 4 < ln) by (nonlinear_arith)
                requires
                    1 <= k < n,
                    ln == flag_len(n as int),
                    n >= 2,
            ;
        }
        let (xflag, zflag) = get_flags(s, i, ln, k);
        let ghost old_cur = cur as int;
        let ghost old_prev = prev;
        let x = match take_coord(s, cur, xflag, prev.x) {
            Some((v, j)) => {
                cur = j;
                v
            },
            None => {
                proof {
                    reveal(parse_waypoints);
                    lemma_parse_coords_fail_x(s@, old_cur, fb, old_prev, k as int, n as int);
                }
                return None;
            },
        };
        let ghost j1 = cur as int;
        let z = match take_coord(s, cur, zflag, prev.z) {
            Some((v, j)) => {
                cur = j;
                v
            },
            None => {
                proof {
                    reveal(parse_waypoints);
                    lemma_parse_coords_fail_z(s@, old_cur, fb, old_prev, k as int, n as int, j1);
                }
                return None;
            },
        };
        let ghost j2 = cur as int;
        let wp = CompressedWaypoint { x, z };
        acc.push(wp);
        prev = wp;
        k += 1;
        proof {
            assert(acc@[0] == w0);
            if parse_coords(s@, cur as int, fb, prev, k as int, n as int) is Some {
                let (rest, jj) = parse_coords(s@, cur as int, fb, prev, k as int, n as int)->Some_0;
                lemma_parse_coords_step_some(
                    s@,
                    old_cur,
                    fb,
                    old_prev,
                    k - 1 as int,
                    n as int,
                    wp,
                    j2,
                    rest,
                    jj,
                );
                assert(acc@.subrange(1, k - 1 as int).push(wp) =~= acc@.subrange(1, k as int));
                assert(acc@.subrange(1, k - 1 as int) + (seq![wp] + rest) =~= acc@.subrange(
                    1,
                    k as int,
                ) + rest);
            } else {
                lemma_parse_coords_step_none(
                    s@,
                    old_cur,
                    fb,
                    old_prev,
                    k - 1 as int,
                    n as int,
                    wp,
                    j2,
                );
            }
        }
    }
    proof {
        reveal(parse_waypoints);
        assert(parse_coords(s@, cur as int, fb, prev, n as int, n as int) == Some(
            (Seq::<CompressedWaypoint>::empty(), cur as int),
        ));
        assert(acc@.subrange(1, n as int) + Seq::<CompressedWaypoint>::empty() =~= acc@.subrange(
            1,
            n as int,
        ));
        assert(seq![w0] + acc@.subrange(1, n as int) =~= acc@);
    }
    Some((acc, cur))
}

/// A parsed coordinate tail has one waypoint per remaining slot.
pub proof fn lemma_parse_coords_len(
    s: Seq<u8>,
    i: int,
    fb: Seq<u8>,
    prev: CompressedWaypoint,
    k: int,
    n: int,
)
    requires
        k <= n,
        parse_coords(s, i, fb, prev, k, n) is Some,
    ensures
        parse_coords(s, i, fb, prev, k, n)->Some_0.0.len() == n - k,
    decreases n - k,
{
    if k < n {
        let (x, j1) = parse_coord(s, i, flag_of(fb, k, false), prev.x)->Some_0;
        let (z, j2) = parse_coord(s, j1, flag_of(fb, k, true), prev.z)->Some_0;
        let wp = CompressedWaypoint { x, z };
        lemma_parse_coords_len(s, j2, fb, wp, k + 1, n);
    }
}

/// A parsed waypoint list has exactly the announced size.
pub proof fn lemma_parse_waypoints_len(s: Seq<u8>, i: int, n: int)
    requires
        n >= 1,
        parse_waypoints(s, i, n) is Some,
    ensures
        parse_waypoints(s, i, n)->Some_0.0.len() == n,
{
    reveal(parse_waypoints);
    let fb = s.subrange(i, i + flag_len(n));
    let (x0, i2) = parse_i16(s, i + flag_len(n))->Some_0;
    let (z0, i3) = parse_i16(s, i2)->Some_0;
    let w0 = CompressedWaypoint { x: x0, z: z0 };
    lemma_parse_coords_len(s, i3, fb, w0, 1, n);
}

/// Every coordinate pair after the first fits as two delta bytes.
pub open spec fn all_deltas_fit(w: Seq<CompressedWaypoint>) -> bool {
    forall|i: int|
        1 <= i < w.len() ==> slot_flag(w, i, false) && (#[trigger] slot_flag(w, i, true))
}

/// The coordinate tail of an all-delta list takes two bytes per waypoint.
proof fn lemma_wire_coords_len_all_deltas(w: Seq<CompressedWaypoint>, i: int)
    requires
        1 <= i <= w.len(),
        all_deltas_fit(w),
    ensures
        wire_coords(w, i).len() == 2 * (w.len() - i),
    decreases w.len() - i,
{
    if i < w.len() {
        lemma_wire_coords_len_all_deltas(w, i + 1);
    }
}

/// When every delta fits in a signed byte, the encoded list takes the flag
/// bytes, four bytes for the first waypoint, and two for each one after.
pub proof fn lemma_wire_waypoints_len_all_deltas(w: Seq<CompressedWaypoint>)
    requires
        w.len() >= 1,
        all_deltas_fit(w),
    ensures
        wire_waypoints(w).len() == flag_len(w.len() as int) + 4 + 2 * (w.len() - 1),
{
    reveal(wire_waypoints);
    vstd::bytes::lemma_auto_spec_u16_to_from_le_bytes();
    lemma_wire_coords_len_all_deltas(w, 1);
}

} // verus!
