//! Little-endian wire primitives shared by every packet codec.
//!
//! Each primitive comes in three parts: a `wire_*` spec function giving the
//! exact byte image, a `parse_*` spec function giving the value and the next
//! read position (or `None` when the bytes run out), and executable
//! `put_*` / `take_*` functions proved against them.  The `lemma_parse_wire_*`
//! lemmas state that parsing an encoded value in the middle of any buffer
//! yields that value back; packet round-trip proofs are built from them.
use vstd::prelude::*;

verus! {

use vstd::bytes::*;
use vstd::slice::slice_subrange;

/// Relates a spec-level parse result (position as `int`) to the result of an
/// executable decoder (position as `usize`).
pub open spec fn parsed<T>(p: Option<(T, int)>, r: Option<(T, usize)>) -> bool {
    match p {
        Some((x, j)) => r == Some((x, j as usize)),
        None => r is None,
    }
}

// ---------------------------------------------------------------------------
// wire images
// ---------------------------------------------------------------------------

pub open spec fn wire_u8(x: u8) -> Seq<u8> {
    seq![x]
}

pub open spec fn wire_u16(x: u16) -> Seq<u8> {
    spec_u16_to_le_bytes(x)
}

pub open spec fn wire_u32(x: u32) -> Seq<u8> {
    spec_u32_to_le_bytes(x)
}

pub open spec fn wire_u64(x: u64) -> Seq<u8> {
    spec_u64_to_le_bytes(x)
}

pub open spec fn wire_i8(x: i8) -> Seq<u8> {
    seq![x as u8]
}

pub open spec fn wire_i16(x: i16) -> Seq<u8> {
    spec_u16_to_le_bytes(x as u16)
}

pub open spec fn wire_i32(x: i32) -> Seq<u8> {
    spec_u32_to_le_bytes(x as u32)
}

pub open spec fn wire_bool(x: bool) -> Seq<u8> {
    seq![if x { 1u8 } else { 0u8 }]
}

// ---------------------------------------------------------------------------
// parse functions
// ---------------------------------------------------------------------------

pub open spec fn parse_u8(s: Seq<u8>, i: int) -> Option<(u8, int)> {
    if 0 <= i && i + 1 <= s.len() {
        Some((s[i], i + 1))
    } else {
        None
    }
}

pub open spec fn parse_u16(s: Seq<u8>, i: int) -> Option<(u16, int)> {
    if 0 <= i && i + 2 <= s.len() {
        Some((spec_u16_from_le_bytes(s.subrange(i, i + 2)), i + 2))
    } else {
        None
    }
}

pub open spec fn parse_u32(s: Seq<u8>, i: int) -> Option<(u32, int)> {
    if 0 <= i && i + 4 <= s.len() {
        Some((spec_u32_from_le_bytes(s.subrange(i, i + 4)), i + 4))
    } else {
        None
    }
}

pub open spec fn parse_u64(s: Seq<u8>, i: int) -> Option<(u64, int)> {
    if 0 <= i && i + 8 <= s.len() {
        Some((spec_u64_from_le_bytes(s.subrange(i, i + 8)), i + 8))
    } else {
        None
    }
}

pub open spec fn parse_i8(s: Seq<u8>, i: int) -> Option<(i8, int)> {
    if 0 <= i && i + 1 <= s.len() {
        Some((s[i] as i8, i + 1))
    } else {
        None
    }
}

pub open spec fn parse_i16(s: Seq<u8>, i: int) -> Option<(i16, int)> {
    if 0 <= i && i + 2 <= s.len() {
        Some((spec_u16_from_le_bytes(s.subrange(i, i + 2)) as i16, i + 2))
    } else {
        None
    }
}

pub open spec fn parse_i32(s: Seq<u8>, i: int) -> Option<(i32, int)> {
    if 0 <= i && i + 4 <= s.len() {
        Some((spec_u32_from_le_bytes(s.subrange(i, i + 4)) as i32, i + 4))
    } else {
        None
    }
}

/// The wire treats any non-zero byte as `true`.
pub open spec fn parse_bool(s: Seq<u8>, i: int) -> Option<(bool, int)> {
    if 0 <= i && i + 1 <= s.len() {
        Some((s[i] != 0, i + 1))
    } else {
        None
    }
}

// ---------------------------------------------------------------------------
// splicing helper: a subrange taken exactly over the middle of a
// three-way concatenation is that middle part
// ---------------------------------------------------------------------------

pub proof fn lemma_mid_subrange(s: Seq<u8>, pre: Seq<u8>, mid: Seq<u8>, post: Seq<u8>)
    requires
        s == pre + mid + post,
    ensures
        s.subrange(pre.len() as int, (pre.len() + mid.len()) as int) == mid,
{
    assert(s.subrange(pre.len() as int, (pre.len() + mid.len()) as int) =~= mid);
}

// ---------------------------------------------------------------------------
// round-trip lemmas: parsing in the middle of a buffer that carries an
// encoded value yields the value back
// ---------------------------------------------------------------------------

pub proof fn lemma_parse_wire_u8(s: Seq<u8>, pre: Seq<u8>, x: u8, post: Seq<u8>)
    requires
        s == pre + wire_u8(x) + post,
    ensures
        parse_u8(s, pre.len() as int) == Some((x, pre.len() + 1 as int)),
{
    lemma_mid_subrange(s, pre, wire_u8(x), post);
    assert(s.subrange(pre.len() as int, pre.len() + 1 as int)[0] == x);
}

pub proof fn lemma_parse_wire_u16(s: Seq<u8>, pre: Seq<u8>, x: u16, post: Seq<u8>)
    requires
        s == pre + wire_u16(x) + post,
    ensures
        parse_u16(s, pre.len() as int) == Some((x, pre.len() + 2 as int)),
{
    lemma_auto_spec_u16_to_from_le_bytes();
    lemma_mid_subrange(s, pre, wire_u16(x), post);
}

pub proof fn lemma_parse_wire_u32(s: Seq<u8>, pre: Seq<u8>, x: u32, post: Seq<u8>)
    requires
        s == pre + wire_u32(x) + post,
    ensures
        parse_u32(s, pre.len() as int) == Some((x, pre.len() + 4 as int)),
{
    lemma_auto_spec_u32_to_from_le_bytes();
    lemma_mid_subrange(s, pre, wire_u32(x), post);
}

pub proof fn lemma_parse_wire_u64(s: Seq<u8>, pre: Seq<u8>, x: u64, post: Seq<u8>)
    requires
        s == pre + wire_u64(x) + post,
    ensures
        parse_u64(s, pre.len() as int) == Some((x, pre.len() + 8 as int)),
{
    lemma_auto_spec_u64_to_from_le_bytes();
    lemma_mid_subrange(s, pre, wire_u64(x), post);
}

pub proof fn lemma_parse_wire_i8(s: Seq<u8>, pre: Seq<u8>, x: i8, post: Seq<u8>)
    requires
        s == pre + wire_i8(x) + post,
    ensures
        parse_i8(s, pre.len() as int) == Some((x, pre.len() + 1 as int)),
{
    lemma_mid_subrange(s, pre, wire_i8(x), post);
    assert(s.subrange(pre.len() as int, pre.len() + 1 as int)[0] == x as u8);
    assert((x as u8) as i8 == x) by (bit_vector);
}

pub proof fn lemma_parse_wire_i16(s: Seq<u8>, pre: Seq<u8>, x: i16, post: Seq<u8>)
    requires
        s == pre + wire_i16(x) + post,
    ensures
        parse_i16(s, pre.len() as int) == Some((x, pre.len() + 2 as int)),
{
    lemma_auto_spec_u16_to_from_le_bytes();
    lemma_mid_subrange(s, pre, wire_i16(x), post);
    assert((x as u16) as i16 == x) by (bit_vector);
}

pub proof fn lemma_parse_wire_i32(s: Seq<u8>, pre: Seq<u8>, x: i32, post: Seq<u8>)
    requires
        s == pre + wire_i32(x) + post,
    ensures
        parse_i32(s, pre.len() as int) == Some((x, pre.len() + 4 as int)),
{
    lemma_auto_spec_u32_to_from_le_bytes();
    lemma_mid_subrange(s, pre, wire_i32(x), post);
    assert((x as u32) as i32 == x) by (bit_vector);
}

pub proof fn lemma_parse_wire_bool(s: Seq<u8>, pre: Seq<u8>, x: bool, post: Seq<u8>)
    requires
        s == pre + wire_bool(x) + post,
    ensures
        parse_bool(s, pre.len() as int) == Some((x, pre.len() + 1 as int)),
{
    lemma_mid_subrange(s, pre, wire_bool(x), post);
    assert(s.subrange(pre.len() as int, pre.len() + 1 as int)[0] == (if x { 1u8 } else { 0u8 }));
}

// ---------------------------------------------------------------------------
// executable writers
// ---------------------------------------------------------------------------

pub fn put_u8(out: &mut Vec<u8>, x: u8)
    ensures
        final(out)@ == old(out)@ + wire_u8(x),
{
    out.push(x);
    assert(out@ =~= old(out)@ + wire_u8(x));
}

pub fn put_u16(out: &mut Vec<u8>, x: u16)
    ensures
        final(out)@ == old(out)@ + wire_u16(x),
{
    let mut b = u16_to_le_bytes(x);
    out.append(&mut b);
}

pub fn put_u32(out: &mut Vec<u8>, x: u32)
    ensures
        final(out)@ == old(out)@ + wire_u32(x),
{
    let mut b = u32_to_le_bytes(x);
    out.append(&mut b);
}

pub fn put_u64(out: &mut Vec<u8>, x: u64)
    ensures
        final(out)@ == old(out)@ + wire_u64(x),
{
    let mut b = u64_to_le_bytes(x);
    out.append(&mut b);
}

pub fn put_i8(out: &mut Vec<u8>, x: i8)
    ensures
        final(out)@ == old(out)@ + wire_i8(x),
{
    out.push(x as u8);
    assert(out@ =~= old(out)@ + wire_i8(x));
}

pub fn put_i16(out: &mut Vec<u8>, x: i16)
    ensures
        final(out)@ == old(out)@ + wire_i16(x),
{
    put_u16(out, x as u16);
}

pub fn put_i32(out: &mut Vec<u8>, x: i32)
    ensures
        final(out)@ == old(out)@ + wire_i32(x),
{
    put_u32(out, x as u32);
}

pub fn put_bool(out: &mut Vec<u8>, x: bool)
    ensures
        final(out)@ == old(out)@ + wire_bool(x),
{
    out.push(if x { 1u8 } else { 0u8 });
    assert(out@ =~= old(out)@ + wire_bool(x));
}

// ---------------------------------------------------------------------------
// executable readers
// ---------------------------------------------------------------------------

pub fn take_u8(s: &[u8], i: usize) -> (r: Option<(u8, usize)>)
    ensures
        parsed(parse_u8(s@, i as int), r),
{
    if i < s.len() {
        Some((*vstd::slice::slice_index_get(s, i), i + 1))
    } else {
        None
    }
}

pub fn take_u16(s: &[u8], i: usize) -> (r: Option<(u16, usize)>)
    ensures
        parsed(parse_u16(s@, i as int), r),
{
    if s.len() >= 2 && i <= s.len() - 2 {
        let b = slice_subrange(s, i, i + 2);
        Some((u16_from_le_bytes(b), i + 2))
    } else {
        None
    }
}

pub fn take_u32(s: &[u8], i: usize) -> (r: Option<(u32, usize)>)
    ensures
        parsed(parse_u32(s@, i as int), r),
{
    if s.len() >= 4 && i <= s.len() - 4 {
        let b = slice_subrange(s, i, i + 4);
        Some((u32_from_le_bytes(b), i + 4))
    } else {
        None
    }
}

pub fn take_u64(s: &[u8], i: usize) -> (r: Option<(u64, usize)>)
    ensures
        parsed(parse_u64(s@, i as int), r),
{
    if s.len() >= 8 && i <= s.len() - 8 {
        let b = slice_subrange(s, i, i + 8);
        Some((u64_from_le_bytes(b), i + 8))
    } else {
        None
    }
}

pub fn take_i8(s: &[u8], i: usize) -> (r: Option<(i8, usize)>)
    ensures
        parsed(parse_i8(s@, i as int), r),
{
    match take_u8(s, i) {
        Some((x, j)) => Some((x as i8, j)),
        None => None,
    }
}

pub fn take_i16(s: &[u8], i: usize) -> (r: Option<(i16, usize)>)
    ensures
        parsed(parse_i16(s@, i as int), r),
{
    match take_u16(s, i) {
        Some((x, j)) => Some((x as i16, j)),
        None => None,
    }
}

pub fn take_i32(s: &[u8], i: usize) -> (r: Option<(i32, usize)>)
    ensures
        parsed(parse_i32(s@, i as int), r),
{
    match take_u32(s, i) {
        Some((x, j)) => Some((x as i32, j)),
        None => None,
    }
}

pub fn take_bool(s: &[u8], i: usize) -> (r: Option<(bool, usize)>)
    ensures
        parsed(parse_bool(s@, i as int), r),
{
    match take_u8(s, i) {
        Some((x, j)) => Some((x != 0, j)),
        None => None,
    }
}

} // verus!
