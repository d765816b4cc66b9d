//! Streaming MD5 digests, computed through the `md5` crate.
//!
//! The digest itself is outside logic: its value is only named here, never
//! restated. Everything the pipeline decides from a digest goes through the
//! hexadecimal rendering `md5_hex_of`, so a caller's contract can say
//! exactly which strings compare equal without claiming what MD5 of a given
//! input is.

use crate::strnum::{hex_of, to_hex_lower};
use vstd::prelude::*;

verus! {

/// The bytes fed so far into a hasher.
pub uninterp spec fn md5_fed(h: Md5Stream) -> Seq<u8>;

/// The 16-byte MD5 digest of a byte string; a function of the bytes alone.
pub uninterp spec fn md5_digest_of(fed: Seq<u8>) -> Seq<u8>;

/// The digest in the form the pipeline compares: lower-case hexadecimal,
/// two digits per byte.
pub open spec fn md5_hex_of(fed: Seq<u8>) -> Seq<char> {
    hex_of(md5_digest_of(fed))
}

/// An MD5 hasher fed incrementally, so that large files can be digested
/// in fixed-size blocks without ever being resident in memory whole.
#[verifier::external_body]
pub struct Md5Stream {
    inner: md5::Md5,
}

impl Md5Stream {
    /// Relies on md5::Md5::new (the Digest trait): a fresh hasher has
    /// consumed nothing.
    #[verifier::external_body]
    pub fn new() -> (h: Md5Stream)
        ensures
            md5_fed(h) == Seq::<u8>::empty(),
    {
        Md5Stream { inner: <md5::Md5 as md5::Digest>::new() }
    }

    /// Relies on md5::Md5::update (the Digest trait): feeding appends the
    /// block to the consumed bytes.
    #[verifier::external_body]
    pub fn update(&mut self, data: &[u8])
        ensures
            md5_fed(*final(self)) == md5_fed(*old(self)) + data@,
    {
        <md5::Md5 as md5::Digest>::update(&mut self.inner, data);
    }

    /// Relies on md5::Md5::finalize (the Digest trait): the digest of the
    /// consumed bytes, always 16 bytes (MD5 is a 128-bit digest).
    #[verifier::external_body]
    pub fn finalize_digest(self) -> (r: Vec<u8>)
        ensures
            r@ == md5_digest_of(md5_fed(self)),
            r@.len() == 16,
    {
        let out = <md5::Md5 as md5::Digest>::finalize(self.inner);
        out.as_slice().to_vec()
    }

    /// The digest of the consumed bytes as a lower-case hexadecimal
    /// string, the form remote entity tags carry.
    pub fn finalize_hex(self) -> (r: String)
        ensures
            r@ == md5_hex_of(md5_fed(self)),
    {
        let digest = self.finalize_digest();
        to_hex_lower(digest.as_slice())
    }
}

/// The MD5 of a byte string already in memory, as lower-case hexadecimal.
pub fn md5_hex_of_bytes(data: &[u8]) -> (r: String)
    ensures
        r@ == md5_hex_of(data@),
{
    let mut h = Md5Stream::new();
    h.update(data);
    assert(md5_fed(h) =~= data@);
    h.finalize_hex()
}

} // verus!
