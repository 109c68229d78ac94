//! Compression adapter: wraps a byte payload into a gzip-framed stream for
//! echo responses negotiated with `Accept-Encoding: gzip`.
use vstd::prelude::*;

use crate::dec::dec_of;
use crate::dec::dec_rep;
use crate::response::encode_response;
use crate::response::pairs_view;
use crate::response::response_bytes;
use crate::text::enc_gzip;
use crate::text::enc_gzip_vec;
use crate::text::hdr_content_encoding;
use crate::text::hdr_content_encoding_vec;
use crate::text::hdr_content_length;
use crate::text::hdr_content_length_vec;
use crate::text::hdr_content_type;
use crate::text::hdr_content_type_vec;
use crate::text::mime_text_plain;
use crate::text::mime_text_plain_vec;
use crate::text::reason_ok;
use crate::text::reason_ok_vec;

verus! {

/// The gzip-framed compression of `data`: a deflate payload between a gzip
/// header and a trailer carrying checksum and size. The exact bytes are a
/// function of the input alone; contracts use this name rather than spelling
/// the format out.
pub uninterp spec fn gzip_of(data: Seq<u8>) -> Seq<u8>;

/// Relies on flate2's `GzEncoder` writing into an in-memory buffer at the
/// default compression level: the produced gzip stream depends on the input
/// bytes alone, and writing to a `Vec` sink does not fail.
#[verifier::external_body]
pub(crate) fn gzip_compress(input: &Vec<u8>) -> (r: Vec<u8>)
    ensures
        r@ == gzip_of(input@),
{
    let mut encoder = flate2::write::GzEncoder::new(Vec::new(), flate2::Compression::default());
    std::io::Write::write_all(&mut encoder, input.as_slice()).expect(
        "writing to an in-memory encoder cannot fail",
    );
    encoder.finish().expect("finishing an in-memory gzip stream cannot fail")
}

/// A 200 text/plain response carrying the gzip compression of `c`, marked
/// `Content-Encoding: gzip`, with `Content-Length` equal to the byte length
/// of the compressed body actually framed.
pub open spec fn gzip_response(c: Seq<u8>) -> Seq<u8> {
    response_bytes(
        200,
        crate::text::reason_ok(),
        seq![
            (hdr_content_type(), mime_text_plain()),
            (hdr_content_encoding(), enc_gzip()),
            (hdr_content_length(), dec_rep(gzip_of(c).len())),
        ],
        gzip_of(c),
    )
}

/// Builds the gzip-compressed echo response for `content`.
pub fn respond_with_gzip(content: &Vec<u8>) -> (r: Vec<u8>)
    ensures
        r@ == gzip_response(content@),
{
    let compressed = gzip_compress(content);
    let mut headers: Vec<(Vec<u8>, Vec<u8>)> = Vec::new();
    headers.push((hdr_content_type_vec(), mime_text_plain_vec()));
    headers.push((hdr_content_encoding_vec(), enc_gzip_vec()));
    headers.push((hdr_content_length_vec(), dec_of(compressed.len())));
    let reason = reason_ok_vec();
    let r = encode_response(200, &reason, &headers, &compressed);
    proof {
        assert(pairs_view(headers@) =~= seq![
            (hdr_content_type(), mime_text_plain()),
            (hdr_content_encoding(), enc_gzip()),
            (hdr_content_length(), dec_rep(gzip_of(content@).len())),
        ]);
    }
    r
}

} // verus!
