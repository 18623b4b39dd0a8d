//! Element-count directed list codecs.
//!
//! Several packets carry `[count][element...]` runs: size-prefixed vectors
//! and fixed arrays.  Each element type gets a recursive wire image and
//! parse function plus a round-trip lemma proved by induction; the
//! executable coders loop against them.
use vstd::prelude::*;

verus! {

use crate::wire::{
    lemma_parse_wire_u32,
    lemma_parse_wire_u64,
    parse_u32,
    parse_u64,
    put_u32,
    put_u64,
    take_u32,
    take_u64,
    wire_u32,
    wire_u64,
};

// ---------------------------------------------------------------------------
// runs of u64 words
// ---------------------------------------------------------------------------

/// The wire image of a run of u64 words, front first.
pub open spec fn wire_u64s(l: Seq<u64>) -> Seq<u8>
    decreases l.len(),
{
    if l.len() == 0 {
        Seq::empty()
    } else {
        wire_u64(l[0]) + wire_u64s(l.drop_first())
    }
}

/// Parse a run of `count` u64 words.
pub open spec fn parse_u64s(s: Seq<u8>, i: int, count: int) -> Option<(Seq<u64>, int)>
    decreases count,
{
    if count <= 0 {
        Some((Seq::empty(), i))
    } else {
        match parse_u64(s, i) {
            Some((e, j)) => match parse_u64s(s, j, count - 1) {
                Some((rest, k)) => Some((seq![e] + rest, k)),
                None => None,
            },
            None => None,
        }
    }
}

/// Appending one word extends the wire image at the back.
pub proof fn lemma_wire_u64s_snoc(l: Seq<u64>, e: u64)
    ensures
        wire_u64s(l.push(e)) == wire_u64s(l) + wire_u64(e),
    decreases l.len(),
{
    let lp = l.push(e);
    assert(lp[0] == if l.len() == 0 { e } else { l[0] });
    assert(wire_u64s(Seq::<u64>::empty()) == Seq::<u8>::empty());
    if l.len() == 0 {
        assert(lp.drop_first() =~= Seq::<u64>::empty());
        assert(wire_u64s(lp.drop_first()) == Seq::<u8>::empty());
        assert(wire_u64s(lp) == wire_u64(lp[0]) + wire_u64s(lp.drop_first()));
        assert(wire_u64s(lp) =~= wire_u64s(l) + wire_u64(e));
    } else {
        assert(lp.drop_first() =~= l.drop_first().push(e));
        lemma_wire_u64s_snoc(l.drop_first(), e);
        assert(wire_u64s(lp) == wire_u64(l[0]) + wire_u64s(lp.drop_first()));
        assert(wire_u64s(lp) =~= wire_u64s(l) + wire_u64(e));
    }
}

/// Parsing an encoded run of its own length restores it.
pub proof fn lemma_parse_wire_u64s(l: Seq<u64>, s: Seq<u8>, pre: Seq<u8>, post: Seq<u8>)
    requires
        s == pre + wire_u64s(l) + post,
    ensures
        parse_u64s(s, pre.len() as int, l.len() as int) == Some(
            (l, (pre.len() + wire_u64s(l).len()) as int),
        ),
    decreases l.len(),
{
    vstd::bytes::lemma_auto_spec_u64_to_from_le_bytes();
    if l.len() == 0 {
        assert(l =~= Seq::<u64>::empty());
    } else {
        let e = l[0];
        let rest = l.drop_first();
        let tail = wire_u64s(rest);
        assert(s =~= pre + wire_u64(e) + (tail + post));
        lemma_parse_wire_u64(s, pre, e, tail + post);
        let pre2 = pre + wire_u64(e);
        assert(s =~= pre2 + tail + post);
        lemma_parse_wire_u64s(rest, s, pre2, post);
        assert(seq![e] + rest =~= l);
    }
}

/// One unfolding of [`parse_u64s`] at a step whose word parsed.
pub proof fn lemma_parse_u64s_step(s: Seq<u8>, i: int, count: int, e: u64, j: int)
    requires
        count > 0,
        parse_u64(s, i) == Some((e, j)),
    ensures
        parse_u64s(s, i, count) == (match parse_u64s(s, j, count - 1) {
            Some((rest, k)) => Some((seq![e] + rest, k)),
            None => None::<(Seq<u64>, int)>,
        }),
{
}

/// One unfolding of [`parse_u64s`] at a step whose word failed.
pub proof fn lemma_parse_u64s_fail(s: Seq<u8>, i: int, count: int)
    requires
        count > 0,
        parse_u64(s, i) is None,
    ensures
        parse_u64s(s, i, count) is None,
{
}

/// Append the wire image of a run of u64 words.
pub fn put_u64s(out: &mut Vec<u8>, l: &Vec<u64>)
    ensures
        final(out)@ == old(out)@ + wire_u64s(l@),
{
    let ghost base = out@;
    let mut t: usize = 0;
    while t < l.len()
        invariant
            t <= l@.len(),
            out@ == base + wire_u64s(l@.subrange(0, t as int)),
        decreases l@.len() - t,
    {
        put_u64(out, l[t]);
        proof {
            lemma_wire_u64s_snoc(l@.subrange(0, t as int), l@[t as int]);
            assert(l@.subrange(0, t as int).push(l@[t as int]) =~= l@.subrange(0, t as int + 1));
            assert(out@ =~= base + wire_u64s(l@.subrange(0, t as int + 1)));
        }
        t += 1;
    }
    assert(l@.subrange(0, l@.len() as int) =~= l@);
}

/// Decode a run of `count` u64 words.
pub fn take_u64s(s: &[u8], i: usize, count: usize) -> (r: Option<(Vec<u64>, usize)>)
    ensures
        match parse_u64s(s@, i as int, count as int) {
            Some((l, j)) => r is Some && r->Some_0.0@ == l && r->Some_0.1 == j,
            None => r is None,
        },
{
    let slen = s.len();
    assert(s@.len() == slen);
    let mut acc: Vec<u64> = Vec::new();
    let mut cur = i;
    let mut t: usize = 0;
    while t < count
        invariant
            t <= count,
            s@.len() <= usize::MAX,
            acc@.len() == t,
            match parse_u64s(s@, cur as int, count - t) {
                Some((rest, j)) => parse_u64s(s@, i as int, count as int) == Some(
                    (acc@ + rest, j),
                ),
                None => parse_u64s(s@, i as int, count as int) is None,
            },
        decreases count - t,
    {
        let ghost old_cur = cur as int;
        match take_u64(s, cur) {
            Some((v, j)) => {
                proof {
                    lemma_parse_u64s_step(s@, old_cur, count - t, v, j as int);
                }
                acc.push(v);
                cur = j;
            },
            None => {
                proof {
                    lemma_parse_u64s_fail(s@, old_cur, count - t);
                }
                return None;
            },
        }
        t += 1;
        proof {
            if parse_u64s(s@, cur as int, count - t) is Some {
                let (rest, j) = parse_u64s(s@, cur as int, count - t)->Some_0;
                assert(acc@.subrange(0, t - 1 as int) + (seq![acc@[t - 1 as int]] + rest) =~= acc@
                    + rest);
            }
        }
    }
    proof {
        assert(parse_u64s(s@, cur as int, 0) == Some((Seq::<u64>::empty(), cur as int)));
        assert(acc@ + Seq::<u64>::empty() =~= acc@);
    }
    Some((acc, cur))
}

// ---------------------------------------------------------------------------
// runs of u32 words
// ---------------------------------------------------------------------------

/// The wire image of a run of u32 words, front first.
pub open spec fn wire_u32s(l: Seq<u32>) -> Seq<u8>
    decreases l.len(),
{
    if l.len() == 0 {
        Seq::empty()
    } else {
        wire_u32(l[0]) + wire_u32s(l.drop_first())
    }
}

/// Parse a run of `count` u32 words.
pub open spec fn parse_u32s(s: Seq<u8>, i: int, count: int) -> Option<(Seq<u32>, int)>
    decreases count,
{
    if count <= 0 {
        Some((Seq::empty(), i))
    } else {
        match parse_u32(s, i) {
            Some((e, j)) => match parse_u32s(s, j, count - 1) {
                Some((rest, k)) => Some((seq![e] + rest, k)),
                None => None,
            },
            None => None,
        }
    }
}

/// Appending one word extends the wire image at the back.
pub proof fn lemma_wire_u32s_snoc(l: Seq<u32>, e: u32)
    ensures
        wire_u32s(l.push(e)) == wire_u32s(l) + wire_u32(e),
    decreases l.len(),
{
    let lp = l.push(e);
    assert(lp[0] == if l.len() == 0 { e } else { l[0] });
    assert(wire_u32s(Seq::<u32>::empty()) == Seq::<u8>::empty());
    if l.len() == 0 {
        assert(lp.drop_first() =~= Seq::<u32>::empty());
        assert(wire_u32s(lp.drop_first()) == Seq::<u8>::empty());
        assert(wire_u32s(lp) == wire_u32(lp[0]) + wire_u32s(lp.drop_first()));
        assert(wire_u32s(lp) =~= wire_u32s(l) + wire_u32(e));
    } else {
        assert(lp.drop_first() =~= l.drop_first().push(e));
        lemma_wire_u32s_snoc(l.drop_first(), e);
        assert(wire_u32s(lp) == wire_u32(l[0]) + wire_u32s(lp.drop_first()));
        assert(wire_u32s(lp) =~= wire_u32s(l) + wire_u32(e));
    }
}

/// Parsing an encoded run of its own length restores it.
pub proof fn lemma_parse_wire_u32s(l: Seq<u32>, s: Seq<u8>, pre: Seq<u8>, post: Seq<u8>)
    requires
        s == pre + wire_u32s(l) + post,
    ensures
        parse_u32s(s, pre.len() as int, l.len() as int) == Some(
            (l, (pre.len() + wire_u32s(l).len()) as int),
        ),
    decreases l.len(),
{
    vstd::bytes::lemma_auto_spec_u32_to_from_le_bytes();
    if l.len() == 0 {
        assert(l =~= Seq::<u32>::empty());
    } else {
        let e = l[0];
        let rest = l.drop_first();
        let tail = wire_u32s(rest);
        assert(s =~= pre + wire_u32(e) + (tail + post));
        lemma_parse_wire_u32(s, pre, e, tail + post);
        let pre2 = pre + wire_u32(e);
        assert(s =~= pre2 + tail + post);
        lemma_parse_wire_u32s(rest, s, pre2, post);
        assert(seq![e] + rest =~= l);
    }
}

/// One unfolding of [`parse_u32s`] at a step whose word parsed.
pub proof fn lemma_parse_u32s_step(s: Seq<u8>, i: int, count: int, e: u32, j: int)
    requires
        count > 0,
        parse_u32(s, i) == Some((e, j)),
    ensures
        parse_u32s(s, i, count) == (match parse_u32s(s, j, count - 1) {
            Some((rest, k)) => Some((seq![e] + rest, k)),
            None => None::<(Seq<u32>, int)>,
        }),
{
}

/// One unfolding of [`parse_u32s`] at a step whose word failed.
pub proof fn lemma_parse_u32s_fail(s: Seq<u8>, i: int, count: int)
    requires
        count > 0,
        parse_u32(s, i) is None,
    ensures
        parse_u32s(s, i, count) is None,
{
}

/// Append the wire image of a run of u32 words.
pub fn put_u32s(out: &mut Vec<u8>, l: &Vec<u32>)
    ensures
        final(out)@ == old(out)@ + wire_u32s(l@),
{
    let ghost base = out@;
    let mut t: usize = 0;
    while t < l.len()
        invariant
            t <= l@.len(),
            out@ == base + wire_u32s(l@.subrange(0, t as int)),
        decreases l@.len() - t,
    {
        put_u32(out, l[t]);
        proof {
            lemma_wire_u32s_snoc(l@.subrange(0, t as int), l@[t as int]);
            assert(l@.subrange(0, t as int).push(l@[t as int]) =~= l@.subrange(0, t as int + 1));
            assert(out@ =~= base + wire_u32s(l@.subrange(0, t as int + 1)));
        }
        t += 1;
    }
    assert(l@.subrange(0, l@.len() as int) =~= l@);
}

/// Decode a run of `count` u32 words.
pub fn take_u32s(s: &[u8], i: usize, count: usize) -> (r: Option<(Vec<u32>, usize)>)
    ensures
        match parse_u32s(s@, i as int, count as int) {
            Some((l, j)) => r is Some && r->Some_0.0@ == l && r->Some_0.1 == j,
            None => r is None,
        },
{
    let slen = s.len();
    assert(s@.len() == slen);
    let mut acc: Vec<u32> = Vec::new();
    let mut cur = i;
    let mut t: usize = 0;
    while t < count
        invariant
            t <= count,
            s@.len() <= usize::MAX,
            acc@.len() == t,
            match parse_u32s(s@, cur as int, count - t) {
                Some((rest, j)) => parse_u32s(s@, i as int, count as int) == Some(
                    (acc@ + rest, j),
                ),
                None => parse_u32s(s@, i as int, count as int) is None,
            },
        decreases count - t,
    {
        let ghost old_cur = cur as int;
        match take_u32(s, cur) {
            Some((v, j)) => {
                proof {
                    lemma_parse_u32s_step(s@, old_cur, count - t, v, j as int);
                }
                acc.push(v);
                cur = j;
            },
            None => {
                proof {
                    lemma_parse_u32s_fail(s@, old_cur, count - t);
                }
                return None;
            },
        }
        t += 1;
        proof {
            if parse_u32s(s@, cur as int, count - t) is Some {
                let (rest, j) = parse_u32s(s@, cur as int, count - t)->Some_0;
                assert(acc@.subrange(0, t - 1 as int) + (seq![acc@[t - 1 as int]] + rest) =~= acc@
                    + rest);
            }
        }
    }
    proof {
        assert(parse_u32s(s@, cur as int, 0) == Some((Seq::<u32>::empty(), cur as int)));
        assert(acc@ + Seq::<u32>::empty() =~= acc@);
    }
    Some((acc, cur))
}

// ---------------------------------------------------------------------------
// runs of raw bytes of fixed width: the wire image is the bytes themselves
// ---------------------------------------------------------------------------

pub open spec fn parse_raw(s: Seq<u8>, i: int, n: int) -> Option<(Seq<u8>, int)> {
    if 0 <= i && i + n <= s.len() && n >= 0 {
        Some((s.subrange(i, i + n), i + n))
    } else {
        None
    }
}

/// Decode a fixed-width run of raw bytes.
pub fn take_raw(s: &[u8], i: usize, n: usize) -> (r: Option<(Vec<u8>, usize)>)
    ensures
        match parse_raw(s@, i as int, n as int) {
            Some((c, j)) => r is Some && r->Some_0.0@ == c && r->Some_0.1 == j,
            None => r is None,
        },
{
    let slen = s.len();
    assert(s@.len() == slen);
    if i > slen || n > slen - i {
        return None;
    }
    let c = vstd::slice::slice_to_vec(vstd::slice::slice_subrange(s, i, i + n));
    Some((c, i + n))
}

} // verus!
