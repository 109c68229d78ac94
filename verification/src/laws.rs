//! The laws of the request/response pipeline, stated over the same spec
//! functions the executable contracts use and proved once for all inputs.
use vstd::prelude::*;

use crate::bytes::ci_has_prefix;
use crate::bytes::find_byte_at;
use crate::bytes::has_prefix;
use crate::bytes::is_match;
use crate::bytes::is_ws_b;
use crate::bytes::lemma_find_byte_value;
use crate::bytes::lemma_find_byte_none;
use crate::bytes::lemma_find_sub_value;
use crate::bytes::lemma_skip_ws_value;
use crate::bytes::lemma_tok_end_value;
use crate::bytes::lower;
use crate::bytes::rskip_ws_at;
use crate::bytes::trim_of;
use crate::dec::dec_rep;
use crate::dec::dec_val;
use crate::dec::lemma_dec_roundtrip;
use crate::gzip::gzip_of;
use crate::gzip::gzip_response;
use crate::request::accepts_gzip;
use crate::request::ae_value_of;
use crate::request::body_of;
use crate::request::encodings_of;
use crate::request::find_header_from;
use crate::request::first_line_of;
use crate::request::line_at;
use crate::request::method_of;
use crate::request::path_of;
use crate::request::req_tokens_ok;
use crate::request::split2_of;
use crate::request::split_commas_from;
use crate::request::trims_of;
use crate::request::user_agent_of;
use crate::response::file_response;
use crate::response::lemma_crlf_free_concat;
use crate::response::lemma_dec_rep_crlf_free;
use crate::response::lemma_response_body;
use crate::response::lemma_response_prefix;
use crate::response::status_line;
use crate::response::status_response;
use crate::response::text_response;
use crate::route::action_of;
use crate::route::decision_of;
use crate::route::file_path;
use crate::route::file_read_outcome;
use crate::route::file_write_outcome;
use crate::route::ActionSpec;
use crate::route::Decision;
use crate::text::ae_name;
use crate::text::colon_sp;
use crate::text::crlf;
use crate::text::crlf_free;
use crate::text::echo_prefix;
use crate::text::method_get;
use crate::text::slash;
use crate::text::sp;
use crate::text::greeting;
use crate::text::hdr_content_encoding;
use crate::text::hdr_content_length;
use crate::text::hdr_content_type;
use crate::text::lemma_literals_crlf_free;
use crate::text::mime_octet_stream;
use crate::text::mime_text_plain;
use crate::text::enc_gzip;
use crate::text::reason_bad_request;
use crate::text::reason_created;
use crate::text::reason_not_found;
use crate::text::reason_ok;

verus! {

/// A text response frames its content verbatim: the bytes after the first
/// blank line are exactly `c`, and the response opens with a 200 status line.
pub proof fn lemma_text_response_facts(c: Seq<u8>)
    ensures
        body_of(text_response(c)) == c,
        has_prefix(text_response(c), status_line(200, reason_ok()) + crlf()),
{
    lemma_literals_crlf_free();
    lemma_dec_rep_crlf_free(c.len());
    let headers = seq![
        (hdr_content_type(), mime_text_plain()),
        (hdr_content_length(), dec_rep(c.len())),
    ];
    assert forall|k: int|
        0 <= k < headers.len() implies crlf_free(#[trigger] headers[k].0) && crlf_free(
        headers[k].1,
    ) by {
        if k == 0 {
            assert(headers[0] == (hdr_content_type(), mime_text_plain()));
        } else {
            assert(headers[1] == (hdr_content_length(), dec_rep(c.len())));
        }
    }
    lemma_response_body(200, reason_ok(), headers, c);
    lemma_response_prefix(200, reason_ok(), headers, c);
}

/// A binary file response frames its content verbatim and opens with a 200
/// status line.
pub proof fn lemma_file_response_facts(c: Seq<u8>)
    ensures
        body_of(file_response(c)) == c,
        has_prefix(file_response(c), status_line(200, reason_ok()) + crlf()),
{
    lemma_literals_crlf_free();
    lemma_dec_rep_crlf_free(c.len());
    let headers = seq![
        (hdr_content_type(), mime_octet_stream()),
        (hdr_content_length(), dec_rep(c.len())),
    ];
    assert forall|k: int|
        0 <= k < headers.len() implies crlf_free(#[trigger] headers[k].0) && crlf_free(
        headers[k].1,
    ) by {
        if k == 0 {
            assert(headers[0] == (hdr_content_type(), mime_octet_stream()));
        } else {
            assert(headers[1] == (hdr_content_length(), dec_rep(c.len())));
        }
    }
    lemma_response_body(200, reason_ok(), headers, c);
    lemma_response_prefix(200, reason_ok(), headers, c);
}

/// A gzip echo response frames the compressed bytes verbatim, opens with a
/// 200 status line, and its `Content-Length` reads back as the byte length
/// of the compressed body actually framed.
pub proof fn lemma_gzip_response_facts(c: Seq<u8>)
    ensures
        body_of(gzip_response(c)) == gzip_of(c),
        has_prefix(gzip_response(c), status_line(200, reason_ok()) + crlf()),
        dec_val(dec_rep(gzip_of(c).len())) == gzip_of(c).len(),
{
    lemma_literals_crlf_free();
    lemma_dec_rep_crlf_free(gzip_of(c).len());
    lemma_dec_roundtrip(gzip_of(c).len());
    let headers = seq![
        (hdr_content_type(), mime_text_plain()),
        (hdr_content_encoding(), enc_gzip()),
        (hdr_content_length(), dec_rep(gzip_of(c).len())),
    ];
    assert forall|k: int|
        0 <= k < headers.len() implies crlf_free(#[trigger] headers[k].0) && crlf_free(
        headers[k].1,
    ) by {
        if k == 0 {
            assert(headers[0] == (hdr_content_type(), mime_text_plain()));
        } else if k == 1 {
            assert(headers[1] == (hdr_content_encoding(), enc_gzip()));
        } else {
            assert(headers[2] == (hdr_content_length(), dec_rep(gzip_of(c).len())));
        }
    }
    lemma_response_body(200, reason_ok(), headers, gzip_of(c));
    lemma_response_prefix(200, reason_ok(), headers, gzip_of(c));
}

/// A bare status response has an empty body and opens with its status line.
pub proof fn lemma_status_response_facts(status: nat, reason: Seq<u8>)
    requires
        crlf_free(reason),
    ensures
        body_of(status_response(status, reason)) == Seq::<u8>::empty(),
        has_prefix(status_response(status, reason), status_line(status, reason) + crlf()),
{
    let headers = Seq::<(Seq<u8>, Seq<u8>)>::empty();
    lemma_response_body(status, reason, headers, Seq::empty());
    lemma_response_prefix(status, reason, headers, Seq::empty());
}

/// Echo without gzip: every request routed to `Echo(s)` that does not accept
/// gzip is answered with a 200 text response whose `Content-Length` reads
/// back as the byte length of `s` and whose body is exactly `s`.
pub proof fn lemma_echo_plain(r: Seq<u8>, root: Seq<u8>, s: Seq<u8>)
    requires
        decision_of(r) == Decision::Echo(s),
        !accepts_gzip(r),
    ensures
        action_of(r, root) == ActionSpec::Respond(text_response(s)),
        body_of(text_response(s)) == s,
        has_prefix(text_response(s), status_line(200, reason_ok()) + crlf()),
        dec_val(dec_rep(s.len())) == s.len(),
{
    lemma_text_response_facts(s);
    lemma_dec_roundtrip(s.len());
}

/// Echo with gzip: every request routed to `Echo(s)` that accepts gzip is
/// answered with a 200 response whose body is exactly the gzip compression
/// of `s` and whose `Content-Length` reads back as the compressed length.
/// That the body decompresses back to `s` is the compressor's round trip,
/// exercised by tests against the real compressor.
pub proof fn lemma_echo_gzip(r: Seq<u8>, root: Seq<u8>, s: Seq<u8>)
    requires
        decision_of(r) == Decision::Echo(s),
        accepts_gzip(r),
    ensures
        action_of(r, root) == ActionSpec::Respond(gzip_response(s)),
        body_of(gzip_response(s)) == gzip_of(s),
        dec_val(dec_rep(gzip_of(s).len())) == gzip_of(s).len(),
{
    lemma_gzip_response_facts(s);
    lemma_dec_roundtrip(gzip_of(s).len());
}

/// A `/user-agent` request whose header is present is answered with a 200
/// text response whose body is exactly the header's value.
pub proof fn lemma_user_agent_found(r: Seq<u8>, root: Seq<u8>, v: Seq<u8>)
    requires
        decision_of(r) == Decision::UserAgent,
        user_agent_of(r) == Some(v),
    ensures
        action_of(r, root) == ActionSpec::Respond(text_response(v)),
        body_of(text_response(v)) == v,
{
    lemma_text_response_facts(v);
}

/// A `/user-agent` request without the header is answered with 400.
pub proof fn lemma_user_agent_missing(r: Seq<u8>, root: Seq<u8>)
    requires
        decision_of(r) == Decision::BadRequest,
    ensures
        action_of(r, root) == ActionSpec::Respond(status_response(400, reason_bad_request())),
        has_prefix(status_response(400, reason_bad_request()), status_line(
            400,
            reason_bad_request(),
        ) + crlf()),
{
    lemma_literals_crlf_free();
    lemma_status_response_facts(400, reason_bad_request());
}

/// File store round trip: a POST and a GET for the same name resolve to the
/// same confined path; the write carries the request body verbatim and is
/// acknowledged with 201; a read handing back exactly the written bytes is
/// answered with a 200 binary response whose body is those bytes.
pub proof fn lemma_files_round_trip(
    r1: Seq<u8>,
    r2: Seq<u8>,
    root: Seq<u8>,
    name: Seq<u8>,
    contents: Seq<u8>,
)
    requires
        decision_of(r1) == Decision::FilePost(name, contents),
        decision_of(r2) == Decision::FileGet(name),
    ensures
        action_of(r1, root) == ActionSpec::WriteFile(file_path(root, name), contents),
        action_of(r2, root) == ActionSpec::ReadFile(file_path(root, name)),
        file_write_outcome(true) == status_response(201, reason_created()),
        body_of(file_read_outcome(Some(contents))) == contents,
{
    lemma_file_response_facts(contents);
}

/// A read of a name the store does not hold is answered with 404.
pub proof fn lemma_file_missing(r: Seq<u8>, root: Seq<u8>, name: Seq<u8>)
    requires
        decision_of(r) == Decision::FileGet(name),
    ensures
        action_of(r, root) == ActionSpec::ReadFile(file_path(root, name)),
        file_read_outcome(None) == status_response(404, reason_not_found()),
        body_of(file_read_outcome(None)) == Seq::<u8>::empty(),
{
    lemma_literals_crlf_free();
    lemma_status_response_facts(404, reason_not_found());
}

/// The root route is answered with a 200 text response carrying a non-empty
/// greeting, and an unmatched path is answered with 404.
pub proof fn lemma_root_and_not_found(r1: Seq<u8>, r2: Seq<u8>, root: Seq<u8>)
    requires
        decision_of(r1) == Decision::Root,
        decision_of(r2) == Decision::NotFound,
    ensures
        action_of(r1, root) == ActionSpec::Respond(text_response(greeting())),
        body_of(text_response(greeting())) == greeting(),
        greeting().len() > 0,
        action_of(r2, root) == ActionSpec::Respond(status_response(404, reason_not_found())),
{
    lemma_text_response_facts(greeting());
}

/// Overwrite idempotence at the router: two POSTs of the same name and body
/// resolve to identical write actions on the same path with the same bytes,
/// so performing the overwrite twice leaves the same final file content.
pub proof fn lemma_post_idempotent(
    r1: Seq<u8>,
    r2: Seq<u8>,
    root: Seq<u8>,
    name: Seq<u8>,
    contents: Seq<u8>,
)
    requires
        decision_of(r1) == Decision::FilePost(name, contents),
        decision_of(r2) == Decision::FilePost(name, contents),
    ensures
        action_of(r1, root) == action_of(r2, root),
        action_of(r1, root) == ActionSpec::WriteFile(file_path(root, name), contents),
{
}

/// Connection isolation: the response of each echo exchange is a function of
/// that exchange's own request alone; two concurrent echo requests each
/// receive the body matching their own content, whatever the other carries.
pub proof fn lemma_connection_isolation(
    r1: Seq<u8>,
    r2: Seq<u8>,
    root: Seq<u8>,
    s1: Seq<u8>,
    s2: Seq<u8>,
)
    requires
        decision_of(r1) == Decision::Echo(s1),
        !accepts_gzip(r1),
        decision_of(r2) == Decision::Echo(s2),
        !accepts_gzip(r2),
    ensures
        action_of(r1, root) == ActionSpec::Respond(text_response(s1)),
        action_of(r2, root) == ActionSpec::Respond(text_response(s2)),
        body_of(text_response(s1)) == s1,
        body_of(text_response(s2)) == s2,
{
    lemma_echo_plain(r1, root, s1);
    lemma_echo_plain(r2, root, s2);
}

/// A value fit for a path segment: free of ASCII whitespace (which includes
/// CR and LF), as any token on a request line must be.
pub open spec fn token_ok(s: Seq<u8>) -> bool {
    forall|k: int| 0 <= k < s.len() ==> !is_ws_b(#[trigger] s[k])
}

/// The wire bytes of `GET /echo/s` with no headers.
pub open spec fn echo_request(s: Seq<u8>) -> Seq<u8> {
    method_get() + sp() + echo_prefix() + s + crlf() + crlf()
}

/// The wire bytes of `GET /echo/s` carrying `accept-encoding: gzip`.
pub open spec fn echo_request_gzip(s: Seq<u8>) -> Seq<u8> {
    method_get() + sp() + echo_prefix() + s + crlf() + ae_name() + colon_sp() + enc_gzip() + crlf()
        + crlf()
}

/// Any request whose first line reads `GET /echo/s` is routed to `Echo(s)`,
/// whatever follows that line.
proof fn lemma_echo_request_line(s: Seq<u8>, rest: Seq<u8>)
    requires
        token_ok(s),
    ensures
        ({
            let r = method_get() + sp() + echo_prefix() + s + crlf() + rest;
            let n = s.len() as int;
            &&& decision_of(r) == Decision::Echo(s)
            &&& find_byte_at(r, 10, 0) == Some(11 + n)
            &&& line_at(r, 0) == method_get() + sp() + echo_prefix() + s
            &&& !ci_has_prefix(line_at(r, 0), ae_name())
        }),
{
    let m = method_get();
    let ep = echo_prefix();
    let pre = m + sp() + ep + s;
    let r = pre + crlf() + rest;
    let n = s.len() as int;
    assert(pre.len() == 10 + n);
    assert(r[0] == 71 && r[1] == 69 && r[2] == 84 && r[3] == 32);
    assert(r[4] == 47 && r[5] == 101 && r[6] == 99 && r[7] == 104 && r[8] == 111 && r[9] == 47);
    assert(forall|t: int| 10 <= t < 10 + n ==> #[trigger] r[t] == s[t - 10]);
    assert(r[10 + n] == 13);
    assert(r[11 + n] == 10);
    assert forall|t: int| 0 <= t < 11 + n implies r[t] != 10 by {
        if 10 <= t < 10 + n {
            assert(!is_ws_b(s[t - 10]));
        }
    }
    lemma_find_byte_value(r, 10, 0, 11 + n);
    let fl = first_line_of(r);
    assert(fl =~= pre + seq![13u8]);
    assert(fl.len() == 11 + n);
    assert(fl[0] == 71 && fl[1] == 69 && fl[2] == 84 && fl[3] == 32);
    assert(fl[4] == 47 && fl[5] == 101 && fl[6] == 99 && fl[7] == 104 && fl[8] == 111 && fl[9]
        == 47);
    assert(forall|t: int| 10 <= t < 10 + n ==> #[trigger] fl[t] == s[t - 10]);
    assert(fl[10 + n] == 13);
    lemma_skip_ws_value(fl, 0, 0);
    lemma_tok_end_value(fl, 0, 3);
    lemma_skip_ws_value(fl, 3, 4);
    assert forall|t: int| 4 <= t < 10 + n implies !is_ws_b(fl[t]) by {
        if 10 <= t {
            assert(fl[t] == s[t - 10]);
            assert(!is_ws_b(s[t - 10]));
        }
    }
    lemma_tok_end_value(fl, 4, 10 + n);
    assert(req_tokens_ok(r));
    assert(method_of(r) =~= m);
    let p = path_of(r);
    assert(p =~= ep + s);
    assert(p.len() == 6 + n);
    assert(p != slash()) by {
        assert(p.len() != slash().len());
    }
    assert(has_prefix(p, ep)) by {
        assert(forall|k: int| 0 <= k < 6 ==> #[trigger] p[k] == ep[k]);
    }
    assert(p.skip(6) =~= s);
    assert(decision_of(r) == Decision::Echo(s));
    // the request line is not an accept-encoding header line
    assert(line_at(r, 0) =~= pre) by {
        assert(r.subrange(0, 11 + n) =~= fl);
        assert(fl.last() == 13);
        assert(fl.drop_last() =~= pre);
    }
    assert(!ci_has_prefix(pre, ae_name())) by {
        if ci_has_prefix(pre, ae_name()) {
            assert(lower(pre[0]) == ae_name()[0]);
        }
    }
}

/// Echo on the wire, plain: for every path-fit value `s`, the raw request
/// `GET /echo/s` without headers is routed to `Echo(s)`, negotiates no
/// compression, and is answered with the text response whose body is `s`.
pub proof fn lemma_echo_wire_plain(s: Seq<u8>, root: Seq<u8>)
    requires
        token_ok(s),
    ensures
        ({
            let r = echo_request(s);
            &&& decision_of(r) == Decision::Echo(s)
            &&& !accepts_gzip(r)
            &&& action_of(r, root) == ActionSpec::Respond(text_response(s))
            &&& body_of(text_response(s)) == s
        }),
{
    let r = echo_request(s);
    let n = s.len() as int;
    assert(r =~= method_get() + sp() + echo_prefix() + s + crlf() + crlf());
    lemma_echo_request_line(s, crlf());
    assert(r.len() == 14 + n);
    // the scan for an accept-encoding header walks two lines and finds none
    assert(find_header_from(r, ae_name(), 0) == find_header_from(r, ae_name(), 12 + n));
    assert(r[12 + n] == 13 && r[13 + n] == 10);
    lemma_find_byte_value(r, 10, 12 + n, 13 + n);
    assert(line_at(r, 12 + n) =~= Seq::<u8>::empty()) by {
        let raw = r.subrange(12 + n, 13 + n);
        assert(raw =~= seq![13u8]);
        assert(raw.last() == 13);
        assert(raw.drop_last() =~= Seq::<u8>::empty());
    }
    assert(!ci_has_prefix(line_at(r, 12 + n), ae_name()));
    assert(find_header_from(r, ae_name(), 12 + n) == find_header_from(r, ae_name(), 14 + n));
    assert(find_header_from(r, ae_name(), 14 + n) is None);
    assert(ae_value_of(r) is None);
    assert(!accepts_gzip(r));
    lemma_echo_plain(r, root, s);
}

/// Echo on the wire, gzip: for every path-fit value `s`, the raw request
/// `GET /echo/s` carrying `accept-encoding: gzip` is routed to `Echo(s)`,
/// negotiates compression, and is answered with the gzip response whose body
/// is the compression of `s`.
#[verifier::rlimit(100)]
pub proof fn lemma_echo_wire_gzip(s: Seq<u8>, root: Seq<u8>)
    requires
        token_ok(s),
    ensures
        ({
            let r = echo_request_gzip(s);
            &&& decision_of(r) == Decision::Echo(s)
            &&& accepts_gzip(r)
            &&& action_of(r, root) == ActionSpec::Respond(gzip_response(s))
            &&& body_of(gzip_response(s)) == gzip_of(s)
        }),
{
    let aeline = ae_name() + colon_sp() + enc_gzip();
    let rest = aeline + crlf() + crlf();
    let r = echo_request_gzip(s);
    let n = s.len() as int;
    assert(r =~= method_get() + sp() + echo_prefix() + s + crlf() + rest);
    lemma_echo_request_line(s, rest);
    assert(aeline.len() == 21);
    assert(r.len() == 37 + n);
    // the scan for an accept-encoding header finds the second line
    assert(find_header_from(r, ae_name(), 0) == find_header_from(r, ae_name(), 12 + n));
    assert(forall|t: int| 0 <= t < 15 ==> #[trigger] aeline[t] == ae_name()[t]);
    assert(aeline[15] == 58 && aeline[16] == 32);
    assert(aeline[17] == 103 && aeline[18] == 122 && aeline[19] == 105 && aeline[20] == 112);
    assert(forall|t: int| 12 + n <= t < 33 + n ==> #[trigger] r[t] == aeline[t - 12 - n]);
    assert(r[33 + n] == 13 && r[34 + n] == 10);
    assert(r[35 + n] == 13 && r[36 + n] == 10);
    assert forall|t: int| 12 + n <= t < 34 + n implies r[t] != 10 by {
        if t < 33 + n {
            assert(r[t] == aeline[t - 12 - n]);
            assert(forall|k: int| 0 <= k < 21 ==> aeline[k] != 10);
        }
    }
    lemma_find_byte_value(r, 10, 12 + n, 34 + n);
    assert(line_at(r, 12 + n) =~= aeline) by {
        let raw = r.subrange(12 + n, 34 + n);
        assert(raw =~= aeline + seq![13u8]);
        assert(raw.last() == 13);
        assert(raw.drop_last() =~= aeline);
    }
    assert(ci_has_prefix(aeline, ae_name())) by {
        assert forall|k: int| 0 <= k < 15 implies lower(aeline[k]) == ae_name()[k] by {
            assert(aeline[k] == ae_name()[k]);
            assert(!(65 <= ae_name()[k] <= 90));
        }
    }
    assert(find_header_from(r, ae_name(), 12 + n) == Some(line_at(r, 12 + n)));
    assert(find_header_from(r, ae_name(), 0) == Some(aeline));
    // the header value is the single token `gzip`
    assert(is_match(aeline, colon_sp(), 15)) by {
        assert(forall|k: int| 0 <= k < 2 ==> #[trigger] aeline[15 + k] == colon_sp()[k]);
    }
    assert forall|t: int| 0 <= t < 15 implies !is_match(aeline, colon_sp(), t) by {
        if is_match(aeline, colon_sp(), t) {
            assert(aeline[t] == 58);
            assert(ae_name()[t] != 58);
        }
    }
    lemma_find_sub_value(aeline, colon_sp(), 0, 15);
    let v = aeline.subrange(17, 21);
    assert(v =~= enc_gzip());
    assert(split2_of(aeline) == Some(v));
    assert(ae_value_of(r) == Some(enc_gzip()));
    // one comma-free token, already trimmed
    assert(forall|t: int| 0 <= t < 4 ==> #[trigger] enc_gzip()[t] != 44);
    lemma_find_byte_none(enc_gzip(), 44, 0);
    assert(split_commas_from(enc_gzip(), 0) == seq![enc_gzip().subrange(0, 4)]);
    assert(enc_gzip().subrange(0, 4) =~= enc_gzip());
    assert(trim_of(enc_gzip()) == enc_gzip()) by {
        lemma_skip_ws_value(enc_gzip(), 0, 0);
        assert(rskip_ws_at(enc_gzip(), 4) == 4);
        assert(enc_gzip().subrange(0, 4) =~= enc_gzip());
    }
    let toks = trims_of(split_commas_from(enc_gzip(), 0));
    assert(toks[0] == trim_of(enc_gzip()));
    assert(encodings_of(r) == Some(toks));
    let etoks = encodings_of(r).unwrap();
    assert(etoks[0] == enc_gzip());
    assert(0 <= 0 < etoks.len());
    assert(accepts_gzip(r));
    lemma_echo_gzip(r, root, s);
}

} // verus!
