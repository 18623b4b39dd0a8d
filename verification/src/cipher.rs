//! Per-peer block cipher over whole-block prefixes.
//!
//! Each connected peer owns a Blowfish context keyed by the first 16 bytes
//! of its roster secret.  A buffer of `len` bytes is transformed in
//! electronic-codebook fashion on its whole-block prefix
//! `len - (len mod 8)` only; the 0..7 trailing bytes pass through
//! untouched.  What one 64-bit block encrypts or decrypts to is named, not
//! written out: the outside cipher is relied on as a keyed permutation,
//! and every claim above the block level is proved here.
use vstd::prelude::*;

verus! {

use vstd::pervasive::VecAdditionalExecFns;
use vstd::slice::slice_subrange;

/// The 64-bit block permutation of the keyed Blowfish cipher.
pub uninterp spec fn bf_encrypt_block(key: Seq<u8>, block: Seq<u8>) -> Seq<u8>;

/// The inverse permutation.
pub uninterp spec fn bf_decrypt_block(key: Seq<u8>, block: Seq<u8>) -> Seq<u8>;

/// The encrypted image of one block, normalized to its eight bytes.
pub open spec fn enc_block8(key: Seq<u8>, b: Seq<u8>) -> Seq<u8> {
    Seq::new(8, |u: int| bf_encrypt_block(key, b)[u])
}

/// The decrypted image of one block, normalized to its eight bytes.
pub open spec fn dec_block8(key: Seq<u8>, b: Seq<u8>) -> Seq<u8> {
    Seq::new(8, |u: int| bf_decrypt_block(key, b)[u])
}

/// A per-peer cipher, keyed by the first bytes of the roster secret.  The
/// Blowfish state is expanded from the stored key at each block call.
pub struct CipherContext {
    key: Vec<u8>,
}

impl CipherContext {
    pub closed spec fn key_bytes(self) -> Seq<u8> {
        self.key@
    }

    /// Blowfish accepts keys of 4 to 56 bytes.
    pub open spec fn key_valid(self) -> bool {
        4 <= self.key_bytes().len() <= 56
    }

    pub fn new(key: &[u8]) -> (r: CipherContext)
        requires
            4 <= key@.len() <= 56,
        ensures
            r.key_bytes() == key@,
            r.key_valid(),
    {
        CipherContext { key: vstd::slice::slice_to_vec(key) }
    }

    /// Relies on blowfish's encrypt_block: a keyed, deterministic
    /// permutation of one 8-byte block, inverted by decrypt_block under
    /// the same key.
    #[verifier::external_body]
    fn encrypt_block8(&self, b: &[u8]) -> (r: Vec<u8>)
        requires
            self.key_valid(),
            b@.len() == 8,
        ensures
            r@.len() == 8,
            forall|u: int|
                0 <= u < 8 ==> #[trigger] r@[u] == bf_encrypt_block(self.key_bytes(), b@)[u],
            r@ == enc_block8(self.key_bytes(), b@),
            b@ == dec_block8(self.key_bytes(), r@),
            forall|y: Seq<u8>|
                y.len() == 8 && b@ == #[trigger] dec_block8(self.key_bytes(), y) ==> r@ == y,
    {
        let fish: blowfish::Blowfish =
            <blowfish::Blowfish as cipher::KeyInit>::new_from_slice(&self.key).unwrap();
        let mut block = cipher::Block::<blowfish::Blowfish>::try_from(b).unwrap();
        cipher::BlockCipherEncrypt::encrypt_block(&fish, &mut block);
        block.as_slice().to_vec()
    }

    /// Relies on blowfish's decrypt_block: the inverse permutation of
    /// encrypt_block under the same key.
    #[verifier::external_body]
    fn decrypt_block8(&self, b: &[u8]) -> (r: Vec<u8>)
        requires
            self.key_valid(),
            b@.len() == 8,
        ensures
            r@.len() == 8,
            forall|u: int|
                0 <= u < 8 ==> #[trigger] r@[u] == bf_decrypt_block(self.key_bytes(), b@)[u],
            r@ == dec_block8(self.key_bytes(), b@),
            b@ == enc_block8(self.key_bytes(), r@),
            forall|y: Seq<u8>|
                y.len() == 8 && b@ == #[trigger] enc_block8(self.key_bytes(), y) ==> r@ == y,
    {
        let fish: blowfish::Blowfish =
            <blowfish::Blowfish as cipher::KeyInit>::new_from_slice(&self.key).unwrap();
        let mut block = cipher::Block::<blowfish::Blowfish>::try_from(b).unwrap();
        cipher::BlockCipherDecrypt::decrypt_block(&fish, &mut block);
        block.as_slice().to_vec()
    }
}

/// The length of the whole-block prefix that the cipher transforms.
pub open spec fn whole_len(n: int) -> int {
    n - n % 8
}

/// The buffer after blockwise encryption of its whole-block prefix.
pub open spec fn ecb_encrypt(key: Seq<u8>, d: Seq<u8>) -> Seq<u8> {
    Seq::new(
        d.len(),
        |i: int|
            if i < whole_len(d.len() as int) {
                enc_block8(key, d.subrange(8 * (i / 8), 8 * (i / 8) + 8))[i % 8]
            } else {
                d[i]
            },
    )
}

/// The buffer after blockwise decryption of its whole-block prefix.
pub open spec fn ecb_decrypt(key: Seq<u8>, d: Seq<u8>) -> Seq<u8> {
    Seq::new(
        d.len(),
        |i: int|
            if i < whole_len(d.len() as int) {
                dec_block8(key, d.subrange(8 * (i / 8), 8 * (i / 8) + 8))[i % 8]
            } else {
                d[i]
            },
    )
}

impl CipherContext {
    /// Encrypt the whole-block prefix of `data` in place; trailing bytes
    /// at indices at or above `len - (len mod 8)` are left untouched.
    pub fn encrypt_data(&self, data: &mut Vec<u8>)
        requires
            self.key_valid(),
        ensures
            final(data)@ == ecb_encrypt(self.key_bytes(), old(data)@),
            final(data)@.len() == old(data)@.len(),
            forall|i: int|
                whole_len(old(data)@.len() as int) <= i < old(data)@.len() ==> final(data)@[i]
                    == old(data)@[i],
    {
        let ghost orig = data@;
        let len = data.len();
        let nblocks = len / 8;
        let mut bi: usize = 0;
        while bi < nblocks
            invariant
                self.key_valid(),
                data@.len() == orig.len(),
                len == orig.len(),
                len == data@.len(),
                nblocks == orig.len() as int / 8,
                bi <= nblocks,
                forall|j: int| 0 <= j < 8 * bi ==> data@[j] == ecb_encrypt(self.key_bytes(), orig)[j],
                forall|j: int| 8 * bi <= j < orig.len() ==> data@[j] == orig[j],
            decreases nblocks - bi,
        {
            let base = 8 * bi;
            assert(base + 8 <= len) by (nonlinear_arith)
                requires
                    bi < nblocks,
                    base == 8 * bi,
                    nblocks == len as int / 8,
            ;
            let blk = slice_subrange(data.as_slice(), base, base + 8);
            assert(blk@ =~= orig.subrange(base as int, base as int + 8));
            let enc = self.encrypt_block8(blk);
            let mut t: usize = 0;
            while t < 8
                invariant
                    t <= 8,
                    base + 8 <= len,
                    len == data@.len(),
                    data@.len() == orig.len(),
                    enc@.len() == 8,
                    forall|j: int| 0 <= j < base ==> data@[j] == ecb_encrypt(self.key_bytes(), orig)[j],
                    forall|j: int| base <= j < base + t ==> data@[j] == enc@[j - base],
                    forall|j: int| base + t <= j < orig.len() ==> data@[j] == orig[j],
                decreases 8 - t,
            {
                data.set(base + t, enc[t]);
                t += 1;
            }
            proof {
                assert forall|j: int| base <= j < base + 8 implies data@[j] == ecb_encrypt(
                    self.key_bytes(),
                    orig,
                )[j] by {
                    assert(j / 8 == bi && j % 8 == j - base && j < whole_len(orig.len() as int))
                        by (nonlinear_arith)
                        requires
                            base == 8 * bi,
                            base <= j < base + 8,
                            bi < nblocks,
                            nblocks == orig.len() as int / 8,
                    ;
                    assert(orig.subrange(8 * (j / 8), 8 * (j / 8) + 8) == blk@);
                    assert(data@[j] == enc@[j - base]);
                }
            }
            bi += 1;
        }
        proof {
            assert(whole_len(orig.len() as int) == 8 * nblocks) by (nonlinear_arith)
                requires
                    nblocks == orig.len() as int / 8,
            ;
            assert(data@ =~= ecb_encrypt(self.key_bytes(), orig));
        }
    }

    /// Decrypt the whole-block prefix of `data` in place; trailing bytes
    /// pass through.  Decrypting a buffer that was encrypted under the
    /// same key restores it.
    pub fn decrypt_data(&self, data: &mut Vec<u8>)
        requires
            self.key_valid(),
        ensures
            final(data)@ == ecb_decrypt(self.key_bytes(), old(data)@),
            final(data)@.len() == old(data)@.len(),
            forall|i: int|
                whole_len(old(data)@.len() as int) <= i < old(data)@.len() ==> final(data)@[i]
                    == old(data)@[i],
            forall|b: Seq<u8>|
                old(data)@ == #[trigger] ecb_encrypt(self.key_bytes(), b) ==> final(data)@ == b,
    {
        let ghost orig = data@;
        let len = data.len();
        let nblocks = len / 8;
        let mut bi: usize = 0;
        while bi < nblocks
            invariant
                self.key_valid(),
                data@.len() == orig.len(),
                len == orig.len(),
                len == data@.len(),
                nblocks == orig.len() as int / 8,
                bi <= nblocks,
                forall|j: int| 0 <= j < 8 * bi ==> data@[j] == ecb_decrypt(self.key_bytes(), orig)[j],
                forall|j: int| 8 * bi <= j < orig.len() ==> data@[j] == orig[j],
                forall|b: Seq<u8>, j: int|
                    #![trigger ecb_encrypt(self.key_bytes(), b), b[j]]
                    orig == ecb_encrypt(self.key_bytes(), b) && 0 <= j < 8 * bi ==> data@[j]
                        == b[j],
            decreases nblocks - bi,
        {
            let base = 8 * bi;
            assert(base + 8 <= len) by (nonlinear_arith)
                requires
                    bi < nblocks,
                    base == 8 * bi,
                    nblocks == len as int / 8,
            ;
            let blk = slice_subrange(data.as_slice(), base, base + 8);
            assert(blk@ =~= orig.subrange(base as int, base as int + 8));
            let dec = self.decrypt_block8(blk);
            let mut t: usize = 0;
            while t < 8
                invariant
                    t <= 8,
                    base + 8 <= len,
                    len == data@.len(),
                    data@.len() == orig.len(),
                    dec@.len() == 8,
                    forall|j: int| 0 <= j < base ==> data@[j] == ecb_decrypt(self.key_bytes(), orig)[j],
                    forall|b: Seq<u8>, j: int|
                        #![trigger ecb_encrypt(self.key_bytes(), b), b[j]]
                        orig == ecb_encrypt(self.key_bytes(), b) && 0 <= j < base ==> data@[j]
                            == b[j],
                    forall|j: int| base <= j < base + t ==> data@[j] == dec@[j - base],
                    forall|j: int| base + t <= j < orig.len() ==> data@[j] == orig[j],
                decreases 8 - t,
            {
                data.set(base + t, dec[t]);
                t += 1;
            }
            proof {
                assert forall|j: int| base <= j < base + 8 implies data@[j] == ecb_decrypt(
                    self.key_bytes(),
                    orig,
                )[j] by {
                    assert(j / 8 == bi && j % 8 == j - base && j < whole_len(orig.len() as int))
                        by (nonlinear_arith)
                        requires
                            base == 8 * bi,
                            base <= j < base + 8,
                            bi < nblocks,
                            nblocks == orig.len() as int / 8,
                    ;
                    assert(orig.subrange(8 * (j / 8), 8 * (j / 8) + 8) == blk@);
                    assert(data@[j] == dec@[j - base]);
                }
                assert forall|b: Seq<u8>, j: int|
                    #![trigger ecb_encrypt(self.key_bytes(), b), b[j]]
                    orig == ecb_encrypt(self.key_bytes(), b) && base <= j < base + 8 implies data@[j]
                        == b[j] by {
                    let key = self.key_bytes();
                    assert(b.len() == orig.len());
                    assert(j / 8 == bi && j % 8 == j - base && j < whole_len(orig.len() as int))
                        by (nonlinear_arith)
                        requires
                            base == 8 * bi,
                            base <= j < base + 8,
                            bi < nblocks,
                            nblocks == orig.len() as int / 8,
                    ;
                    let bblk = b.subrange(base as int, base as int + 8);
                    assert forall|m: int| base <= m < base + 8 implies orig[m] == enc_block8(
                        key,
                        bblk,
                    )[m - base] by {
                        assert(m / 8 == bi && m % 8 == m - base && m < whole_len(orig.len() as int))
                            by (nonlinear_arith)
                            requires
                                base == 8 * bi,
                                base <= m < base + 8,
                                bi < nblocks,
                                nblocks == orig.len() as int / 8,
                        ;
                        assert(b.subrange(8 * (m / 8), 8 * (m / 8) + 8) == bblk);
                        assert(orig[m] == ecb_encrypt(key, b)[m]);
                    }
                    assert(bblk.len() == 8);
                    assert(blk@ =~= enc_block8(key, bblk));
                    assert(dec@ == bblk);
                    assert(data@[j] == dec@[j - base]);
                }
            }
            bi += 1;
        }
        proof {
            assert(whole_len(orig.len() as int) == 8 * nblocks) by (nonlinear_arith)
                requires
                    nblocks == orig.len() as int / 8,
            ;
            assert(data@ =~= ecb_decrypt(self.key_bytes(), orig));
            assert forall|b: Seq<u8>| orig == #[trigger] ecb_encrypt(self.key_bytes(), b)
                implies data@ == b by {
                assert(b.len() == orig.len());
                assert forall|j: int| 0 <= j < orig.len() implies data@[j] == b[j] by {
                    if j >= 8 * nblocks {
                        assert(orig[j] == ecb_encrypt(self.key_bytes(), b)[j]);
                        assert(orig[j] == b[j]);
                        assert(data@[j] == orig[j]);
                    }
                }
                assert(data@ =~= b);
            }
        }
    }
}

impl CipherContext {
    /// Encrypt one 8-byte block; used for key-check material.
    pub fn encrypt_check(&self, b: &Vec<u8>) -> (r: Vec<u8>)
        requires
            self.key_valid(),
            b@.len() == 8,
        ensures
            r@.len() == 8,
            r@ == enc_block8(self.key_bytes(), b@),
            b@ == dec_block8(self.key_bytes(), r@),
            forall|y: Seq<u8>|
                y.len() == 8 && b@ == #[trigger] dec_block8(self.key_bytes(), y) ==> r@ == y,
    {
        self.encrypt_block8(b.as_slice())
    }

    /// Decrypt one 8-byte block; used to test a handshake challenge.
    pub fn decrypt_check(&self, b: &Vec<u8>) -> (r: Vec<u8>)
        requires
            self.key_valid(),
            b@.len() == 8,
        ensures
            r@.len() == 8,
            r@ == dec_block8(self.key_bytes(), b@),
            b@ == enc_block8(self.key_bytes(), r@),
            forall|y: Seq<u8>|
                y.len() == 8 && b@ == #[trigger] enc_block8(self.key_bytes(), y) ==> r@ == y,
    {
        self.decrypt_block8(b.as_slice())
    }
}

} // verus!
