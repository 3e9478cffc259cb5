//! Compression of a serialized snapshot before it is written out.
use vstd::prelude::*;

verus! {

/// The gzip stream that flate2 produces for `data` at the default level,
/// with no file name, a zero modification time and an unknown OS byte.
pub uninterp spec fn gzip_of(data: Seq<u8>) -> Seq<u8>;

/// Relies on flate2's `write::GzEncoder` (`new` with `Compression::default()`,
/// `write_all`, `finish`): the header it writes is fixed, so the stream
/// depends on the input bytes alone. Writing into a `Vec<u8>` never fails, and
/// the encoder reports no error of its own while compressing, so a stream
/// always comes back.
#[verifier::external_body]
fn gzip(data: &Vec<u8>) -> (r: Option<Vec<u8>>)
    ensures
        r is Some,
        r->0@ == gzip_of(data@),
{
    let mut gz = flate2::write::GzEncoder::new(Vec::new(), flate2::Compression::default());
    match std::io::Write::write_all(&mut gz, data) {
        Ok(()) => gz.finish().ok(),
        Err(_) => None,
    }
}

/// Compresses the serialized snapshot `serialized` into a gzip stream.
pub fn compress_snapshot(serialized: &Vec<u8>) -> (r: Vec<u8>)
    ensures
        r@ == gzip_of(serialized@),
{
    gzip(serialized).unwrap()
}

} // verus!
