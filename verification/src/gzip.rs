//! Decompression of one compressed chunk, through the `flate2` crate.
//!
//! What decompression yields is a function of the compressed bytes alone,
//! so its result is only named here; the merge engine's contracts are
//! stated over that name.

use vstd::prelude::*;

verus! {

/// What decompressing a byte string yields: the decompressed bytes, or
/// nothing when the input is not a well-formed compressed stream.
pub uninterp spec fn gunzip_result(compressed: Seq<u8>) -> Option<Seq<u8>>;

/// Relies on flate2::read::GzDecoder (read_to_end): decompresses one
/// gzip stream; the outcome and the bytes are a function of the input
/// bytes alone. On failure the error's rendering is returned.
#[verifier::external_body]
pub fn gunzip(compressed: &[u8]) -> (r: Result<Vec<u8>, String>)
    ensures
        (r is Ok) == (gunzip_result(compressed@) is Some),
        r matches Ok(out) ==> (Some(out@) == gunzip_result(compressed@)),
{
    let mut decoder = flate2::read::GzDecoder::new(compressed);
    let mut out = Vec::new();
    match std::io::Read::read_to_end(&mut decoder, &mut out) {
        Ok(_) => Ok(out),
        Err(e) => Err(format!("{}", e)),
    }
}

} // verus!
