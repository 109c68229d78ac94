//! The literal byte strings of the wire protocol: header names, reason
//! phrases, route prefixes, and the fixed pieces of the response framing.
use vstd::prelude::*;

verus! {

/// No byte of `s` is a carriage return or a line feed.
pub open spec fn crlf_free(s: Seq<u8>) -> bool {
    forall|k: int| 0 <= k < s.len() ==> s[k] != 13 && s[k] != 10
}

/// `"\r\n"` as bytes.
pub open spec fn crlf() -> Seq<u8> {
    seq![13u8, 10u8]
}

pub fn crlf_vec() -> (r: Vec<u8>)
    ensures
        r@ == crlf(),
{
    let v: Vec<u8> = vec![13u8, 10u8];
    proof {
        assert(v@ =~= crlf());
    }
    v
}

/// `"\r\n\r\n"` as bytes.
pub open spec fn crlf2() -> Seq<u8> {
    seq![13u8, 10u8, 13u8, 10u8]
}

pub fn crlf2_vec() -> (r: Vec<u8>)
    ensures
        r@ == crlf2(),
{
    let v: Vec<u8> = vec![13u8, 10u8, 13u8, 10u8];
    proof {
        assert(v@ =~= crlf2());
    }
    v
}

/// `": "` as bytes.
pub open spec fn colon_sp() -> Seq<u8> {
    seq![58u8, 32u8]
}

pub fn colon_sp_vec() -> (r: Vec<u8>)
    ensures
        r@ == colon_sp(),
{
    let v: Vec<u8> = vec![58u8, 32u8];
    proof {
        assert(v@ =~= colon_sp());
    }
    v
}

/// `"HTTP/1.1 "` as bytes.
pub open spec fn http_sig() -> Seq<u8> {
    seq![72u8, 84u8, 84u8, 80u8, 47u8, 49u8, 46u8, 49u8, 32u8]
}

pub fn http_sig_vec() -> (r: Vec<u8>)
    ensures
        r@ == http_sig(),
{
    let v: Vec<u8> = vec![72u8, 84u8, 84u8, 80u8, 47u8, 49u8, 46u8, 49u8, 32u8];
    proof {
        assert(v@ =~= http_sig());
    }
    v
}

/// `" "` as bytes.
pub open spec fn sp() -> Seq<u8> {
    seq![32u8]
}

pub fn sp_vec() -> (r: Vec<u8>)
    ensures
        r@ == sp(),
{
    let v: Vec<u8> = vec![32u8];
    proof {
        assert(v@ =~= sp());
    }
    v
}

/// `"OK"` as bytes.
pub open spec fn reason_ok() -> Seq<u8> {
    seq![79u8, 75u8]
}

pub fn reason_ok_vec() -> (r: Vec<u8>)
    ensures
        r@ == reason_ok(),
{
    let v: Vec<u8> = vec![79u8, 75u8];
    proof {
        assert(v@ =~= reason_ok());
    }
    v
}

/// `"Created"` as bytes.
pub open spec fn reason_created() -> Seq<u8> {
    seq![67u8, 114u8, 101u8, 97u8, 116u8, 101u8, 100u8]
}

pub fn reason_created_vec() -> (r: Vec<u8>)
    ensures
        r@ == reason_created(),
{
    let v: Vec<u8> = vec![67u8, 114u8, 101u8, 97u8, 116u8, 101u8, 100u8];
    proof {
        assert(v@ =~= reason_created());
    }
    v
}

/// `"Not Found"` as bytes.
pub open spec fn reason_not_found() -> Seq<u8> {
    seq![78u8, 111u8, 116u8, 32u8, 70u8, 111u8, 117u8, 110u8, 100u8]
}

pub fn reason_not_found_vec() -> (r: Vec<u8>)
    ensures
        r@ == reason_not_found(),
{
    let v: Vec<u8> = vec![78u8, 111u8, 116u8, 32u8, 70u8, 111u8, 117u8, 110u8, 100u8];
    proof {
        assert(v@ =~= reason_not_found());
    }
    v
}

/// `"Bad Request"` as bytes.
pub open spec fn reason_bad_request() -> Seq<u8> {
    seq![66u8, 97u8, 100u8, 32u8, 82u8, 101u8, 113u8, 117u8, 101u8, 115u8, 116u8]
}

pub fn reason_bad_request_vec() -> (r: Vec<u8>)
    ensures
        r@ == reason_bad_request(),
{
    let v: Vec<u8> = vec![66u8, 97u8, 100u8, 32u8, 82u8, 101u8, 113u8, 117u8, 101u8, 115u8, 116u8];
    proof {
        assert(v@ =~= reason_bad_request());
    }
    v
}

/// `"Method Not Allowed"` as bytes.
pub open spec fn reason_method_not_allowed() -> Seq<u8> {
    seq![77u8, 101u8, 116u8, 104u8, 111u8, 100u8, 32u8, 78u8, 111u8, 116u8, 32u8, 65u8, 108u8, 108u8, 111u8, 119u8, 101u8, 100u8]
}

pub fn reason_method_not_allowed_vec() -> (r: Vec<u8>)
    ensures
        r@ == reason_method_not_allowed(),
{
    let v: Vec<u8> = vec![77u8, 101u8, 116u8, 104u8, 111u8, 100u8, 32u8, 78u8, 111u8, 116u8, 32u8, 65u8, 108u8, 108u8, 111u8, 119u8, 101u8, 100u8];
    proof {
        assert(v@ =~= reason_method_not_allowed());
    }
    v
}

/// `"Internal Server Error"` as bytes.
pub open spec fn reason_server_error() -> Seq<u8> {
    seq![73u8, 110u8, 116u8, 101u8, 114u8, 110u8, 97u8, 108u8, 32u8, 83u8, 101u8, 114u8, 118u8, 101u8, 114u8, 32u8, 69u8, 114u8, 114u8, 111u8, 114u8]
}

pub fn reason_server_error_vec() -> (r: Vec<u8>)
    ensures
        r@ == reason_server_error(),
{
    let v: Vec<u8> = vec![73u8, 110u8, 116u8, 101u8, 114u8, 110u8, 97u8, 108u8, 32u8, 83u8, 101u8, 114u8, 118u8, 101u8, 114u8, 32u8, 69u8, 114u8, 114u8, 111u8, 114u8];
    proof {
        assert(v@ =~= reason_server_error());
    }
    v
}

/// `"Content-Type"` as bytes.
pub open spec fn hdr_content_type() -> Seq<u8> {
    seq![67u8, 111u8, 110u8, 116u8, 101u8, 110u8, 116u8, 45u8, 84u8, 121u8, 112u8, 101u8]
}

pub fn hdr_content_type_vec() -> (r: Vec<u8>)
    ensures
        r@ == hdr_content_type(),
{
    let v: Vec<u8> = vec![67u8, 111u8, 110u8, 116u8, 101u8, 110u8, 116u8, 45u8, 84u8, 121u8, 112u8, 101u8];
    proof {
        assert(v@ =~= hdr_content_type());
    }
    v
}

/// `"Content-Length"` as bytes.
pub open spec fn hdr_content_length() -> Seq<u8> {
    seq![67u8, 111u8, 110u8, 116u8, 101u8, 110u8, 116u8, 45u8, 76u8, 101u8, 110u8, 103u8, 116u8, 104u8]
}

pub fn hdr_content_length_vec() -> (r: Vec<u8>)
    ensures
        r@ == hdr_content_length(),
{
    let v: Vec<u8> = vec![67u8, 111u8, 110u8, 116u8, 101u8, 110u8, 116u8, 45u8, 76u8, 101u8, 110u8, 103u8, 116u8, 104u8];
    proof {
        assert(v@ =~= hdr_content_length());
    }
    v
}

/// `"Content-Encoding"` as bytes.
pub open spec fn hdr_content_encoding() -> Seq<u8> {
    seq![67u8, 111u8, 110u8, 116u8, 101u8, 110u8, 116u8, 45u8, 69u8, 110u8, 99u8, 111u8, 100u8, 105u8, 110u8, 103u8]
}

pub fn hdr_content_encoding_vec() -> (r: Vec<u8>)
    ensures
        r@ == hdr_content_encoding(),
{
    let v: Vec<u8> = vec![67u8, 111u8, 110u8, 116u8, 101u8, 110u8, 116u8, 45u8, 69u8, 110u8, 99u8, 111u8, 100u8, 105u8, 110u8, 103u8];
    proof {
        assert(v@ =~= hdr_content_encoding());
    }
    v
}

/// `"text/plain"` as bytes.
pub open spec fn mime_text_plain() -> Seq<u8> {
    seq![116u8, 101u8, 120u8, 116u8, 47u8, 112u8, 108u8, 97u8, 105u8, 110u8]
}

pub fn mime_text_plain_vec() -> (r: Vec<u8>)
    ensures
        r@ == mime_text_plain(),
{
    let v: Vec<u8> = vec![116u8, 101u8, 120u8, 116u8, 47u8, 112u8, 108u8, 97u8, 105u8, 110u8];
    proof {
        assert(v@ =~= mime_text_plain());
    }
    v
}

/// `"application/octet-stream"` as bytes.
pub open spec fn mime_octet_stream() -> Seq<u8> {
    seq![97u8, 112u8, 112u8, 108u8, 105u8, 99u8, 97u8, 116u8, 105u8, 111u8, 110u8, 47u8, 111u8, 99u8, 116u8, 101u8, 116u8, 45u8, 115u8, 116u8, 114u8, 101u8, 97u8, 109u8]
}

pub fn mime_octet_stream_vec() -> (r: Vec<u8>)
    ensures
        r@ == mime_octet_stream(),
{
    let v: Vec<u8> = vec![97u8, 112u8, 112u8, 108u8, 105u8, 99u8, 97u8, 116u8, 105u8, 111u8, 110u8, 47u8, 111u8, 99u8, 116u8, 101u8, 116u8, 45u8, 115u8, 116u8, 114u8, 101u8, 97u8, 109u8];
    proof {
        assert(v@ =~= mime_octet_stream());
    }
    v
}

/// `"gzip"` as bytes.
pub open spec fn enc_gzip() -> Seq<u8> {
    seq![103u8, 122u8, 105u8, 112u8]
}

pub fn enc_gzip_vec() -> (r: Vec<u8>)
    ensures
        r@ == enc_gzip(),
{
    let v: Vec<u8> = vec![103u8, 122u8, 105u8, 112u8];
    proof {
        assert(v@ =~= enc_gzip());
    }
    v
}

/// `"Welcome to the HTTP server"` as bytes.
pub open spec fn greeting() -> Seq<u8> {
    seq![87u8, 101u8, 108u8, 99u8, 111u8, 109u8, 101u8, 32u8, 116u8, 111u8, 32u8, 116u8, 104u8, 101u8, 32u8, 72u8, 84u8, 84u8, 80u8, 32u8, 115u8, 101u8, 114u8, 118u8, 101u8, 114u8]
}

pub fn greeting_vec() -> (r: Vec<u8>)
    ensures
        r@ == greeting(),
{
    let v: Vec<u8> = vec![87u8, 101u8, 108u8, 99u8, 111u8, 109u8, 101u8, 32u8, 116u8, 111u8, 32u8, 116u8, 104u8, 101u8, 32u8, 72u8, 84u8, 84u8, 80u8, 32u8, 115u8, 101u8, 114u8, 118u8, 101u8, 114u8];
    proof {
        assert(v@ =~= greeting());
    }
    v
}

/// `"user-agent"` as bytes.
pub open spec fn ua_name() -> Seq<u8> {
    seq![117u8, 115u8, 101u8, 114u8, 45u8, 97u8, 103u8, 101u8, 110u8, 116u8]
}

pub fn ua_name_vec() -> (r: Vec<u8>)
    ensures
        r@ == ua_name(),
{
    let v: Vec<u8> = vec![117u8, 115u8, 101u8, 114u8, 45u8, 97u8, 103u8, 101u8, 110u8, 116u8];
    proof {
        assert(v@ =~= ua_name());
    }
    v
}

/// `"accept-encoding"` as bytes.
pub open spec fn ae_name() -> Seq<u8> {
    seq![97u8, 99u8, 99u8, 101u8, 112u8, 116u8, 45u8, 101u8, 110u8, 99u8, 111u8, 100u8, 105u8, 110u8, 103u8]
}

pub fn ae_name_vec() -> (r: Vec<u8>)
    ensures
        r@ == ae_name(),
{
    let v: Vec<u8> = vec![97u8, 99u8, 99u8, 101u8, 112u8, 116u8, 45u8, 101u8, 110u8, 99u8, 111u8, 100u8, 105u8, 110u8, 103u8];
    proof {
        assert(v@ =~= ae_name());
    }
    v
}

/// `"/"` as bytes.
pub open spec fn slash() -> Seq<u8> {
    seq![47u8]
}

pub fn slash_vec() -> (r: Vec<u8>)
    ensures
        r@ == slash(),
{
    let v: Vec<u8> = vec![47u8];
    proof {
        assert(v@ =~= slash());
    }
    v
}

/// `"/echo/"` as bytes.
pub open spec fn echo_prefix() -> Seq<u8> {
    seq![47u8, 101u8, 99u8, 104u8, 111u8, 47u8]
}

pub fn echo_prefix_vec() -> (r: Vec<u8>)
    ensures
        r@ == echo_prefix(),
{
    let v: Vec<u8> = vec![47u8, 101u8, 99u8, 104u8, 111u8, 47u8];
    proof {
        assert(v@ =~= echo_prefix());
    }
    v
}

/// `"/user-agent"` as bytes.
pub open spec fn ua_path() -> Seq<u8> {
    seq![47u8, 117u8, 115u8, 101u8, 114u8, 45u8, 97u8, 103u8, 101u8, 110u8, 116u8]
}

pub fn ua_path_vec() -> (r: Vec<u8>)
    ensures
        r@ == ua_path(),
{
    let v: Vec<u8> = vec![47u8, 117u8, 115u8, 101u8, 114u8, 45u8, 97u8, 103u8, 101u8, 110u8, 116u8];
    proof {
        assert(v@ =~= ua_path());
    }
    v
}

/// `"/files/"` as bytes.
pub open spec fn files_prefix() -> Seq<u8> {
    seq![47u8, 102u8, 105u8, 108u8, 101u8, 115u8, 47u8]
}

pub fn files_prefix_vec() -> (r: Vec<u8>)
    ensures
        r@ == files_prefix(),
{
    let v: Vec<u8> = vec![47u8, 102u8, 105u8, 108u8, 101u8, 115u8, 47u8];
    proof {
        assert(v@ =~= files_prefix());
    }
    v
}

/// `"GET"` as bytes.
pub open spec fn method_get() -> Seq<u8> {
    seq![71u8, 69u8, 84u8]
}

pub fn method_get_vec() -> (r: Vec<u8>)
    ensures
        r@ == method_get(),
{
    let v: Vec<u8> = vec![71u8, 69u8, 84u8];
    proof {
        assert(v@ =~= method_get());
    }
    v
}

/// `"POST"` as bytes.
pub open spec fn method_post() -> Seq<u8> {
    seq![80u8, 79u8, 83u8, 84u8]
}

pub fn method_post_vec() -> (r: Vec<u8>)
    ensures
        r@ == method_post(),
{
    let v: Vec<u8> = vec![80u8, 79u8, 83u8, 84u8];
    proof {
        assert(v@ =~= method_post());
    }
    v
}

/// The fixed protocol strings contain no carriage return or line feed,
/// so they can stand inside a single line of a response head.
pub proof fn lemma_literals_crlf_free()
    ensures
        crlf_free(colon_sp()),
        crlf_free(http_sig()),
        crlf_free(sp()),
        crlf_free(reason_ok()),
        crlf_free(reason_created()),
        crlf_free(reason_not_found()),
        crlf_free(reason_bad_request()),
        crlf_free(reason_method_not_allowed()),
        crlf_free(reason_server_error()),
        crlf_free(hdr_content_type()),
        crlf_free(hdr_content_length()),
        crlf_free(hdr_content_encoding()),
        crlf_free(mime_text_plain()),
        crlf_free(mime_octet_stream()),
        crlf_free(enc_gzip()),
        crlf_free(greeting()),
        crlf_free(ua_name()),
        crlf_free(ae_name()),
        crlf_free(slash()),
        crlf_free(echo_prefix()),
        crlf_free(ua_path()),
        crlf_free(files_prefix()),
        crlf_free(method_get()),
        crlf_free(method_post()),
{
}

} // verus!
