//! The one compression this server offers. The compressed bytes are known to
//! the rest of the library only by name: everything after compression — the
//! Content-Length, the body placement — is proved about that name.

use vstd::prelude::*;
use std::io::Write;
use flate2::Compression;
use flate2::write::GzEncoder;

verus! {

/// The gzip compression of `s`: what flate2's encoder emits for `s` at its
/// default level.
pub uninterp spec fn gzip_of(s: Seq<u8>) -> Seq<u8>;

/// Relies on flate2's `GzEncoder` over an in-memory buffer, at the default
/// level with the default header (no time stamp, fixed platform byte), whose
/// output is a function of the input bytes alone; writing to a `Vec` cannot
/// fail.
#[verifier::external_body]
pub(crate) fn gzip_compress(data: &[u8]) -> (r: Vec<u8>)
    ensures
        r@ == gzip_of(data@),
{
    let mut encoder = GzEncoder::new(Vec::new(), Compression::default());
    encoder.write_all(data).unwrap();
    encoder.finish().unwrap()
}

} // verus!
