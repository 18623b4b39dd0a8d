//! The three string flavours of the wire format.
//!
//! Text travels as raw bytes: null-terminated and unbounded, null-terminated
//! inside a fixed zero-padded buffer of N bytes, or length-prefixed with an
//! optional trailing null.  Contents are held as plain byte vectors; a valid
//! instance of the terminated forms carries no interior null byte.
use vstd::prelude::*;

verus! {

use vstd::slice::{slice_index_get, slice_subrange, slice_to_vec};
use crate::utf8::{is_utf8, is_utf8_bytes};
use crate::wire::{parse_u32, put_u32, put_u8, take_u32, wire_u32, wire_u8};

/// No byte of `s` is the terminator.
pub open spec fn no_nul(s: Seq<u8>) -> bool {
    forall|k: int| 0 <= k < s.len() ==> s[k] != 0
}

/// A run of `k` zero bytes.
pub open spec fn zero_bytes(k: int) -> Seq<u8> {
    Seq::new(k as nat, |_j: int| 0u8)
}

/// Position of the first terminator at or after `i`.
pub open spec fn find_nul(s: Seq<u8>, i: int) -> Option<int>
    decreases s.len() - i,
{
    if i < 0 || i >= s.len() {
        None
    } else if s[i] == 0 {
        Some(i)
    } else {
        find_nul(s, i + 1)
    }
}

pub proof fn lemma_find_nul_at(s: Seq<u8>, i: int, j: int)
    requires
        0 <= i <= j < s.len(),
        forall|k: int| i <= k < j ==> s[k] != 0,
        s[j] == 0,
    ensures
        find_nul(s, i) == Some(j),
    decreases j - i,
{
    if i < j {
        lemma_find_nul_at(s, i + 1, j);
    }
}

pub proof fn lemma_find_nul_none(s: Seq<u8>, i: int)
    requires
        0 <= i,
        forall|k: int| i <= k < s.len() ==> s[k] != 0,
    ensures
        find_nul(s, i) is None,
    decreases s.len() - i,
{
    if i < s.len() {
        lemma_find_nul_none(s, i + 1);
    }
}

// ---------------------------------------------------------------------------
// unbounded null-terminated bytes
// ---------------------------------------------------------------------------

/// Contents a terminated run can carry: no interior terminator, valid
/// UTF-8.
pub open spec fn zbytes_fits(c: Seq<u8>) -> bool {
    no_nul(c) && is_utf8(c)
}

pub open spec fn wire_zbytes(c: Seq<u8>) -> Seq<u8> {
    c + seq![0u8]
}

pub open spec fn parse_zbytes(s: Seq<u8>, i: int) -> Option<(Seq<u8>, int)> {
    match find_nul(s, i) {
        Some(j) => if is_utf8(s.subrange(i, j)) {
            Some((s.subrange(i, j), j + 1))
        } else {
            None
        },
        None => None,
    }
}

/// Parsing a terminated run out of the middle of a buffer restores it.
pub proof fn lemma_parse_wire_zbytes(s: Seq<u8>, pre: Seq<u8>, c: Seq<u8>, post: Seq<u8>)
    requires
        zbytes_fits(c),
        s == pre + wire_zbytes(c) + post,
    ensures
        parse_zbytes(s, pre.len() as int) == Some((c, (pre.len() + c.len() + 1) as int)),
{
    let i = pre.len() as int;
    let j = i + c.len() as int;
    assert(forall|k: int| i <= k < j ==> s[k] == c[k - i] && s[k] != 0);
    assert(s[j] == 0);
    lemma_find_nul_at(s, i, j);
    assert(s.subrange(i, j) =~= c);
}

pub fn take_zbytes(s: &[u8], i: usize) -> (r: Option<(Vec<u8>, usize)>)
    ensures
        match parse_zbytes(s@, i as int) {
            Some((c, j)) => r is Some && r->Some_0.0@ == c && r->Some_0.1 == j,
            None => r is None,
        },
{
    if i > s.len() {
        proof {
            assert(find_nul(s@, i as int) is None);
        }
        return None;
    }
    let mut k = i;
    while k < s.len() && *slice_index_get(s, k) != 0
        invariant
            i <= k <= s@.len(),
            forall|m: int| i <= m < k ==> s@[m] != 0,
        decreases s@.len() - k,
    {
        k += 1;
    }
    if k == s.len() {
        proof {
            lemma_find_nul_none(s@, i as int);
        }
        None
    } else {
        proof {
            lemma_find_nul_at(s@, i as int, k as int);
        }
        let body = slice_subrange(s, i, k);
        if !is_utf8_bytes(body) {
            return None;
        }
        let c = slice_to_vec(body);
        Some((c, k + 1))
    }
}

pub fn put_zbytes(out: &mut Vec<u8>, c: &Vec<u8>)
    ensures
        final(out)@ == old(out)@ + wire_zbytes(c@),
{
    let ghost base = out@;
    out.extend_from_slice(c.as_slice());
    out.push(0);
    assert(out@ =~= base + wire_zbytes(c@));
}

// ---------------------------------------------------------------------------
// null-terminated bytes inside a fixed buffer of n bytes
// ---------------------------------------------------------------------------

/// Contents must leave room for the terminator inside the buffer and be
/// valid UTF-8.
pub open spec fn fixed_fits(c: Seq<u8>, n: int) -> bool {
    no_nul(c) && c.len() < n && is_utf8(c)
}

pub open spec fn wire_fixed(c: Seq<u8>, n: int) -> Seq<u8> {
    c + zero_bytes(n - c.len())
}

pub open spec fn parse_fixed(s: Seq<u8>, i: int, n: int) -> Option<(Seq<u8>, int)> {
    if 0 <= i && i + n <= s.len() {
        match find_nul(s, i) {
            Some(j) => if j < i + n && is_utf8(s.subrange(i, j)) {
                Some((s.subrange(i, j), i + n))
            } else {
                None
            },
            None => None,
        }
    } else {
        None
    }
}

/// Parsing a fixed zero-padded buffer out of the middle of a buffer restores
/// its contents.
pub proof fn lemma_parse_wire_fixed(s: Seq<u8>, pre: Seq<u8>, c: Seq<u8>, n: int, post: Seq<u8>)
    requires
        fixed_fits(c, n),
        s == pre + wire_fixed(c, n) + post,
    ensures
        parse_fixed(s, pre.len() as int, n) == Some((c, pre.len() + n)),
{
    let i = pre.len() as int;
    let j = i + c.len() as int;
    assert(wire_fixed(c, n).len() == n);
    assert(forall|k: int| i <= k < j ==> s[k] == c[k - i] && s[k] != 0);
    assert(s[j] == 0);
    lemma_find_nul_at(s, i, j);
    assert(s.subrange(i, j) =~= c);
}

/// What a fixed buffer parse returns always fits the buffer again.
pub proof fn lemma_parse_fixed_fits(s: Seq<u8>, i: int, n: int)
    requires
        parse_fixed(s, i, n) is Some,
    ensures
        fixed_fits(parse_fixed(s, i, n)->Some_0.0, n),
{
    let j = find_nul(s, i)->Some_0;
    lemma_find_nul_first(s, i);
}

/// The first terminator found is a terminator, and nothing before it is.
pub proof fn lemma_find_nul_first(s: Seq<u8>, i: int)
    requires
        0 <= i,
        find_nul(s, i) is Some,
    ensures
        ({
            let j = find_nul(s, i)->Some_0;
            i <= j < s.len() && s[j] == 0 && forall|m: int| i <= m < j ==> s[m] != 0
        }),
    decreases s.len() - i,
{
    if i < s.len() && s[i] != 0 {
        lemma_find_nul_first(s, i + 1);
    }
}

pub fn take_fixed(s: &[u8], i: usize, n: usize) -> (r: Option<(Vec<u8>, usize)>)
    ensures
        match parse_fixed(s@, i as int, n as int) {
            Some((c, j)) => r is Some && r->Some_0.0@ == c && r->Some_0.1 == j,
            None => r is None,
        },
{
    if i > s.len() || n > s.len() - i {
        return None;
    }
    let mut k = i;
    while k < s.len() && *slice_index_get(s, k) != 0
        invariant
            i <= k <= s@.len(),
            forall|m: int| i <= m < k ==> s@[m] != 0,
        decreases s@.len() - k,
    {
        k += 1;
    }
    if k == s.len() {
        proof {
            lemma_find_nul_none(s@, i as int);
        }
        None
    } else {
        proof {
            lemma_find_nul_at(s@, i as int, k as int);
        }
        if k < i + n {
            let body = slice_subrange(s, i, k);
            if !is_utf8_bytes(body) {
                return None;
            }
            let c = slice_to_vec(body);
            Some((c, i + n))
        } else {
            None
        }
    }
}

/// Writes the contents zero-padded to `n` bytes, truncating to `n - 1`
/// content bytes when they would not fit.
pub fn put_fixed(out: &mut Vec<u8>, c: &Vec<u8>, n: usize)
    requires
        n >= 1,
    ensures
        c@.len() < n ==> final(out)@ == old(out)@ + wire_fixed(c@, n as int),
        c@.len() >= n ==> final(out)@ == old(out)@ + wire_fixed(c@.subrange(0, n - 1), n as int),
{
    let ghost base = out@;
    let len = if c.len() < n {
        c.len()
    } else {
        n - 1
    };
    out.extend_from_slice(slice_subrange(c.as_slice(), 0, len));
    let mut k = len;
    while k < n
        invariant
            len <= k <= n,
            out@ == base + c@.subrange(0, len as int) + zero_bytes(k - len),
        decreases n - k,
    {
        out.push(0);
        assert(out@ =~= base + c@.subrange(0, len as int) + zero_bytes(k + 1 - len));
        k += 1;
    }
    proof {
        if c@.len() < n {
            assert(c@.subrange(0, len as int) =~= c@);
        }
        assert(out@ =~= base + wire_fixed(c@.subrange(0, len as int), n as int));
    }
}

/// Append `n` zero bytes.
pub fn put_zeros(out: &mut Vec<u8>, n: usize)
    ensures
        final(out)@ == old(out)@ + zero_bytes(n as int),
{
    let ghost base = out@;
    let mut k: usize = 0;
    while k < n
        invariant
            k <= n,
            out@ == base + zero_bytes(k as int),
        decreases n - k,
    {
        out.push(0);
        assert(out@ =~= base + zero_bytes(k + 1 as int));
        k += 1;
    }
}

// ---------------------------------------------------------------------------
// length-prefixed bytes, bare and with a trailing null
// ---------------------------------------------------------------------------

pub open spec fn sized_fits(c: Seq<u8>) -> bool {
    c.len() <= u32::MAX && is_utf8(c)
}

pub open spec fn wire_sized(c: Seq<u8>) -> Seq<u8> {
    wire_u32(c.len() as u32) + c
}

pub open spec fn parse_sized(s: Seq<u8>, i: int) -> Option<(Seq<u8>, int)> {
    match parse_u32(s, i) {
        Some((n, j)) => if j + n <= s.len() && is_utf8(s.subrange(j, j + n)) {
            Some((s.subrange(j, j + n), j + n))
        } else {
            None
        },
        None => None,
    }
}

/// The length-prefixed chat form: prefix, contents, then one terminator that
/// is skipped without inspection.
pub open spec fn wire_sized_nul(c: Seq<u8>) -> Seq<u8> {
    wire_u32(c.len() as u32) + c + seq![0u8]
}

pub open spec fn parse_sized_nul(s: Seq<u8>, i: int) -> Option<(Seq<u8>, int)> {
    match parse_u32(s, i) {
        Some((n, j)) => if j + n + 1 <= s.len() && is_utf8(s.subrange(j, j + n)) {
            Some((s.subrange(j, j + n), j + n + 1))
        } else {
            None
        },
        None => None,
    }
}

pub proof fn lemma_parse_wire_sized(s: Seq<u8>, pre: Seq<u8>, c: Seq<u8>, post: Seq<u8>)
    requires
        sized_fits(c),
        s == pre + wire_sized(c) + post,
    ensures
        parse_sized(s, pre.len() as int) == Some((c, (pre.len() + 4 + c.len()) as int)),
{
    vstd::bytes::lemma_auto_spec_u32_to_from_le_bytes();
    assert(s =~= pre + wire_u32(c.len() as u32) + (c + post));
    crate::wire::lemma_parse_wire_u32(s, pre, c.len() as u32, c + post);
    let j = pre.len() + 4 as int;
    assert(s.subrange(j, j + c.len() as int) =~= c);
}

pub proof fn lemma_parse_wire_sized_nul(s: Seq<u8>, pre: Seq<u8>, c: Seq<u8>, post: Seq<u8>)
    requires
        sized_fits(c),
        s == pre + wire_sized_nul(c) + post,
    ensures
        parse_sized_nul(s, pre.len() as int) == Some((c, (pre.len() + 4 + c.len() + 1) as int)),
{
    vstd::bytes::lemma_auto_spec_u32_to_from_le_bytes();
    assert(s =~= pre + wire_u32(c.len() as u32) + (c + seq![0u8] + post));
    crate::wire::lemma_parse_wire_u32(s, pre, c.len() as u32, c + seq![0u8] + post);
    let j = pre.len() + 4 as int;
    assert(s.subrange(j, j + c.len() as int) =~= c);
}

pub fn take_sized(s: &[u8], i: usize) -> (r: Option<(Vec<u8>, usize)>)
    ensures
        match parse_sized(s@, i as int) {
            Some((c, j)) => r is Some && r->Some_0.0@ == c && r->Some_0.1 == j,
            None => r is None,
        },
{
    match take_u32(s, i) {
        Some((n, j)) => {
            if (n as usize) <= s.len() - j {
                let end = j + (n as usize);
                let body = slice_subrange(s, j, end);
                if !is_utf8_bytes(body) {
                    return None;
                }
                Some((slice_to_vec(body), end))
            } else {
                None
            }
        },
        None => None,
    }
}

pub fn take_sized_nul(s: &[u8], i: usize) -> (r: Option<(Vec<u8>, usize)>)
    ensures
        match parse_sized_nul(s@, i as int) {
            Some((c, j)) => r is Some && r->Some_0.0@ == c && r->Some_0.1 == j,
            None => r is None,
        },
{
    match take_u32(s, i) {
        Some((n, j)) => {
            if s.len() - j >= 1 && (n as usize) <= s.len() - j - 1 {
                let end = j + (n as usize);
                let body = slice_subrange(s, j, end);
                if !is_utf8_bytes(body) {
                    return None;
                }
                Some((slice_to_vec(body), end + 1))
            } else {
                None
            }
        },
        None => None,
    }
}

pub fn put_sized(out: &mut Vec<u8>, c: &Vec<u8>)
    requires
        c@.len() <= u32::MAX,
    ensures
        final(out)@ == old(out)@ + wire_sized(c@),
{
    let ghost base = out@;
    put_u32(out, c.len() as u32);
    out.extend_from_slice(c.as_slice());
    assert(out@ =~= base + wire_sized(c@));
}

pub fn put_sized_nul(out: &mut Vec<u8>, c: &Vec<u8>)
    requires
        c@.len() <= u32::MAX,
    ensures
        final(out)@ == old(out)@ + wire_sized_nul(c@),
{
    let ghost base = out@;
    put_u32(out, c.len() as u32);
    out.extend_from_slice(c.as_slice());
    put_u8(out, 0);
    assert(out@ =~= base + wire_sized_nul(c@));
}

} // verus!
