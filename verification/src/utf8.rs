//! UTF-8 validity of wire text.
//!
//! String fields are held as byte vectors; the decoders accept only valid
//! UTF-8 (shortest-form, no surrogates), as the wire format defines its
//! text.  The table below follows RFC 3629.
use vstd::prelude::*;

verus! {

/// A continuation byte.
pub open spec fn utf8_cont(b: u8) -> bool {
    0x80 <= b <= 0xBF
}

/// The width of the character starting at `i`, or zero when the bytes
/// there are not a valid character.
pub open spec fn char_width(s: Seq<u8>, i: int) -> int {
    if i < 0 || i >= s.len() {
        0
    } else {
        let b0 = s[i];
        if b0 < 0x80 {
            1
        } else if 0xC2 <= b0 <= 0xDF {
            if i + 2 <= s.len() && utf8_cont(s[i + 1]) {
                2
            } else {
                0
            }
        } else if b0 == 0xE0 {
            if i + 3 <= s.len() && 0xA0 <= s[i + 1] <= 0xBF && utf8_cont(s[i + 2]) {
                3
            } else {
                0
            }
        } else if b0 == 0xED {
            if i + 3 <= s.len() && 0x80 <= s[i + 1] <= 0x9F && utf8_cont(s[i + 2]) {
                3
            } else {
                0
            }
        } else if 0xE1 <= b0 <= 0xEF {
            if i + 3 <= s.len() && utf8_cont(s[i + 1]) && utf8_cont(s[i + 2]) {
                3
            } else {
                0
            }
        } else if b0 == 0xF0 {
            if i + 4 <= s.len() && 0x90 <= s[i + 1] <= 0xBF && utf8_cont(s[i + 2]) && utf8_cont(
                s[i + 3],
            ) {
                4
            } else {
                0
            }
        } else if b0 == 0xF4 {
            if i + 4 <= s.len() && 0x80 <= s[i + 1] <= 0x8F && utf8_cont(s[i + 2]) && utf8_cont(
                s[i + 3],
            ) {
                4
            } else {
                0
            }
        } else if 0xF1 <= b0 <= 0xF3 {
            if i + 4 <= s.len() && utf8_cont(s[i + 1]) && utf8_cont(s[i + 2]) && utf8_cont(
                s[i + 3],
            ) {
                4
            } else {
                0
            }
        } else {
            0
        }
    }
}

/// The bytes from `i` on are a run of valid characters.
pub open spec fn is_utf8_from(s: Seq<u8>, i: int) -> bool
    decreases s.len() - i,
{
    if i >= s.len() {
        true
    } else {
        let w = char_width(s, i);
        w > 0 && is_utf8_from(s, i + w)
    }
}

/// The whole byte run is valid UTF-8.
#[verifier::opaque]
pub open spec fn is_utf8(s: Seq<u8>) -> bool {
    is_utf8_from(s, 0)
}

/// A run of bytes in the printable seven-bit range is one-byte characters
/// throughout.
pub proof fn lemma_ascii_is_utf8(s: Seq<u8>)
    requires
        forall|k: int| 0 <= k < s.len() ==> (#[trigger] s[k]) < 0x80,
    ensures
        is_utf8(s),
{
    reveal(is_utf8);
    lemma_ascii_is_utf8_from(s, 0);
}

proof fn lemma_ascii_is_utf8_from(s: Seq<u8>, i: int)
    requires
        0 <= i,
        forall|k: int| 0 <= k < s.len() ==> (#[trigger] s[k]) < 0x80,
    ensures
        is_utf8_from(s, i),
    decreases s.len() - i,
{
    if i < s.len() {
        assert(char_width(s, i) == 1);
        lemma_ascii_is_utf8_from(s, i + 1);
    }
}

/// Executable width of the character starting at `i`.
fn char_width_at(v: &[u8], i: usize) -> (w: usize)
    requires
        i < v@.len(),
    ensures
        w == char_width(v@, i as int),
        w <= 4,
        i + w <= v@.len(),
{
    let n = v.len();
    let b0 = *vstd::slice::slice_index_get(v, i);
    if b0 < 0x80 {
        1
    } else if 0xC2 <= b0 && b0 <= 0xDF {
        if n - i >= 2 && cont_at(v, i + 1) {
            2
        } else {
            0
        }
    } else if b0 == 0xE0 {
        if n - i >= 3 && in_range(v, i + 1, 0xA0, 0xBF) && cont_at(v, i + 2) {
            3
        } else {
            0
        }
    } else if b0 == 0xED {
        if n - i >= 3 && in_range(v, i + 1, 0x80, 0x9F) && cont_at(v, i + 2) {
            3
        } else {
            0
        }
    } else if 0xE1 <= b0 && b0 <= 0xEF {
        if n - i >= 3 && cont_at(v, i + 1) && cont_at(v, i + 2) {
            3
        } else {
            0
        }
    } else if b0 == 0xF0 {
        if n - i >= 4 && in_range(v, i + 1, 0x90, 0xBF) && cont_at(v, i + 2) && cont_at(v, i + 3) {
            4
        } else {
            0
        }
    } else if b0 == 0xF4 {
        if n - i >= 4 && in_range(v, i + 1, 0x80, 0x8F) && cont_at(v, i + 2) && cont_at(v, i + 3) {
            4
        } else {
            0
        }
    } else if 0xF1 <= b0 && b0 <= 0xF3 {
        if n - i >= 4 && cont_at(v, i + 1) && cont_at(v, i + 2) && cont_at(v, i + 3) {
            4
        } else {
            0
        }
    } else {
        0
    }
}

fn cont_at(v: &[u8], i: usize) -> (r: bool)
    requires
        i < v@.len(),
    ensures
        r == utf8_cont(v@[i as int]),
{
    let b = *vstd::slice::slice_index_get(v, i);
    0x80 <= b && b <= 0xBF
}

fn in_range(v: &[u8], i: usize, lo: u8, hi: u8) -> (r: bool)
    requires
        i < v@.len(),
    ensures
        r == (lo <= v@[i as int] <= hi),
{
    let b = *vstd::slice::slice_index_get(v, i);
    lo <= b && b <= hi
}

/// Test a byte run for UTF-8 validity.
pub fn is_utf8_bytes(v: &[u8]) -> (r: bool)
    ensures
        r == is_utf8(v@),
{
    proof {
        reveal(is_utf8);
    }
    let n = v.len();
    let mut i: usize = 0;
    while i < n
        invariant
            i <= n,
            n == v@.len(),
            is_utf8(v@) == is_utf8_from(v@, i as int),
        decreases n - i,
    {
        let w = char_width_at(v, i);
        if w == 0 {
            return false;
        }
        i += w;
    }
    true
}

} // verus!
