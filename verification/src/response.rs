//! Wire codec, encode side: frames a status line, an ordered header list and
//! a body into response bytes. The `Content-Length` header of every response
//! built here is computed from the body that is actually framed, so the
//! length on the wire always equals the byte length of the body.
use vstd::prelude::*;

use crate::bytes::append_bytes;
use crate::bytes::find_sub_at;
use crate::bytes::has_prefix;
use crate::bytes::is_match;
use crate::bytes::lemma_find_sub_range;
use crate::dec::dec_of;
use crate::dec::dec_rep;
use crate::dec::lemma_dec_rep_digits;
use crate::request::body_of;
use crate::text::colon_sp;
use crate::text::colon_sp_vec;
use crate::text::crlf;
use crate::text::crlf2;
use crate::text::crlf_free;
use crate::text::crlf_vec;
use crate::text::hdr_content_length;
use crate::text::hdr_content_length_vec;
use crate::text::hdr_content_type;
use crate::text::hdr_content_type_vec;
use crate::text::http_sig;
use crate::text::http_sig_vec;
use crate::text::lemma_literals_crlf_free;
use crate::text::mime_octet_stream;
use crate::text::mime_octet_stream_vec;
use crate::text::mime_text_plain;
use crate::text::mime_text_plain_vec;
use crate::text::reason_ok;
use crate::text::reason_ok_vec;
use crate::text::sp;
use crate::text::sp_vec;

verus! {

/// Each line in order, every line followed by CRLF.
pub open spec fn head_of(lines: Seq<Seq<u8>>) -> Seq<u8>
    decreases lines.len(),
{
    if lines.len() == 0 {
        Seq::empty()
    } else {
        lines[0] + crlf() + head_of(lines.skip(1))
    }
}

/// The status line, without its terminator.
pub open spec fn status_line(status: nat, reason: Seq<u8>) -> Seq<u8> {
    http_sig() + dec_rep(status) + sp() + reason
}

/// One header line, without its terminator.
pub open spec fn header_line(h: (Seq<u8>, Seq<u8>)) -> Seq<u8> {
    h.0 + colon_sp() + h.1
}

/// The lines of a response head: the status line, then one line per header.
pub open spec fn resp_lines(status: nat, reason: Seq<u8>, headers: Seq<(Seq<u8>, Seq<u8>)>) -> Seq<
    Seq<u8>,
> {
    seq![status_line(status, reason)] + headers.map_values(|h: (Seq<u8>, Seq<u8>)| header_line(h))
}

/// A whole response on the wire: status line, header lines, a blank line,
/// then the body bytes unmodified.
pub open spec fn response_bytes(
    status: nat,
    reason: Seq<u8>,
    headers: Seq<(Seq<u8>, Seq<u8>)>,
    body: Seq<u8>,
) -> Seq<u8> {
    head_of(resp_lines(status, reason, headers)) + crlf() + body
}

/// A plain-text success response carrying `c` verbatim.
pub open spec fn text_response(c: Seq<u8>) -> Seq<u8> {
    response_bytes(
        200,
        reason_ok(),
        seq![
            (hdr_content_type(), mime_text_plain()),
            (hdr_content_length(), dec_rep(c.len())),
        ],
        c,
    )
}

/// A binary success response carrying `c` verbatim.
pub open spec fn file_response(c: Seq<u8>) -> Seq<u8> {
    response_bytes(
        200,
        reason_ok(),
        seq![
            (hdr_content_type(), mime_octet_stream()),
            (hdr_content_length(), dec_rep(c.len())),
        ],
        c,
    )
}

/// A bare status response: status line, blank line, no headers, no body.
pub open spec fn status_response(status: nat, reason: Seq<u8>) -> Seq<u8> {
    response_bytes(status, reason, Seq::empty(), Seq::empty())
}

/// The view of an exec header list.
pub open spec fn pairs_view(hs: Seq<(Vec<u8>, Vec<u8>)>) -> Seq<(Seq<u8>, Seq<u8>)> {
    hs.map_values(|h: (Vec<u8>, Vec<u8>)| (h.0@, h.1@))
}

/// Appending one line to a head appends the line and its terminator.
pub proof fn lemma_head_of_push(lines: Seq<Seq<u8>>, l: Seq<u8>)
    ensures
        head_of(lines.push(l)) == head_of(lines) + l + crlf(),
    decreases lines.len(),
{
    assert(head_of(Seq::<Seq<u8>>::empty()) == Seq::<u8>::empty());
    if lines.len() == 0 {
        assert(lines.push(l)[0] == l);
        assert(lines.push(l).skip(1) =~= Seq::<Seq<u8>>::empty());
        assert(head_of(lines.push(l)) == lines.push(l)[0] + crlf() + head_of(
            lines.push(l).skip(1),
        ));
        assert(head_of(lines.push(l)) =~= head_of(lines) + l + crlf());
    } else {
        lemma_head_of_push(lines.skip(1), l);
        assert(lines.push(l).skip(1) =~= lines.skip(1).push(l));
        assert(lines.push(l)[0] == lines[0]);
        assert(head_of(lines.push(l)) == lines.push(l)[0] + crlf() + head_of(
            lines.push(l).skip(1),
        ));
        assert(head_of(lines) == lines[0] + crlf() + head_of(lines.skip(1)));
        assert(head_of(lines.push(l)) =~= head_of(lines) + l + crlf());
    }
}

/// Builds the wire bytes of a response from its parts.
pub(crate) fn encode_response(status: usize, reason: &Vec<u8>, headers: &Vec<(Vec<u8>, Vec<u8>)>, body: &Vec<
    u8,
>) -> (r: Vec<u8>)
    ensures
        r@ == response_bytes(status as nat, reason@, pairs_view(headers@), body@),
{
    let ghost lines = resp_lines(status as nat, reason@, pairs_view(headers@));
    let mut out = http_sig_vec();
    let num = dec_of(status);
    append_bytes(&mut out, &num);
    let s = sp_vec();
    append_bytes(&mut out, &s);
    append_bytes(&mut out, reason);
    let nl = crlf_vec();
    append_bytes(&mut out, &nl);
    proof {
        assert(lines[0] == status_line(status as nat, reason@));
        assert(lines.take(1).skip(1) =~= Seq::<Seq<u8>>::empty());
        assert(lines.take(1)[0] == lines[0]);
        assert(head_of(Seq::<Seq<u8>>::empty()) == Seq::<u8>::empty());
        assert(head_of(lines.take(1)) == lines.take(1)[0] + crlf() + head_of(
            lines.take(1).skip(1),
        ));
        assert(head_of(lines.take(1)) =~= status_line(status as nat, reason@) + crlf());
        assert(out@ =~= head_of(lines.take(1)));
    }
    let mut i: usize = 0;
    let cs = colon_sp_vec();
    while i < headers.len()
        invariant
            i <= headers.len(),
            lines == resp_lines(status as nat, reason@, pairs_view(headers@)),
            lines.len() == 1 + headers@.len(),
            cs@ == colon_sp(),
            nl@ == crlf(),
            out@ == head_of(lines.take(i + 1)),
        decreases headers.len() - i,
    {
        let ghost before = out@;
        append_bytes(&mut out, &headers[i].0);
        append_bytes(&mut out, &cs);
        append_bytes(&mut out, &headers[i].1);
        append_bytes(&mut out, &nl);
        proof {
            let h = pairs_view(headers@)[i as int];
            assert(h == (headers@[i as int].0@, headers@[i as int].1@));
            assert(out@ =~= before + header_line(h) + crlf());
            assert(lines[i + 1] == header_line(h));
            lemma_head_of_push(lines.take(i + 1), lines[i + 1]);
            assert(lines.take(i + 2) =~= lines.take(i + 1).push(lines[i + 1]));
            assert(out@ =~= head_of(lines.take(i + 2)));
        }
        i = i + 1;
    }
    proof {
        assert(lines.take(lines.len() as int) =~= lines);
    }
    append_bytes(&mut out, &nl);
    append_bytes(&mut out, body);
    proof {
        assert(out@ =~= response_bytes(status as nat, reason@, pairs_view(headers@), body@));
    }
    out
}

/// A 200 text/plain response whose body is `content` and whose
/// `Content-Length` is the byte length of `content`.
pub fn respond_with_text(content: &Vec<u8>) -> (r: Vec<u8>)
    ensures
        r@ == text_response(content@),
{
    let mut headers: Vec<(Vec<u8>, Vec<u8>)> = Vec::new();
    headers.push((hdr_content_type_vec(), mime_text_plain_vec()));
    headers.push((hdr_content_length_vec(), dec_of(content.len())));
    let reason = reason_ok_vec();
    let r = encode_response(200, &reason, &headers, content);
    proof {
        assert(pairs_view(headers@) =~= seq![
            (hdr_content_type(), mime_text_plain()),
            (hdr_content_length(), dec_rep(content@.len())),
        ]);
    }
    r
}

/// A 200 application/octet-stream response whose body is `content` and whose
/// `Content-Length` is the byte length of `content`.
pub fn respond_with_file(content: &Vec<u8>) -> (r: Vec<u8>)
    ensures
        r@ == file_response(content@),
{
    let mut headers: Vec<(Vec<u8>, Vec<u8>)> = Vec::new();
    headers.push((hdr_content_type_vec(), mime_octet_stream_vec()));
    headers.push((hdr_content_length_vec(), dec_of(content.len())));
    let reason = reason_ok_vec();
    let r = encode_response(200, &reason, &headers, content);
    proof {
        assert(pairs_view(headers@) =~= seq![
            (hdr_content_type(), mime_octet_stream()),
            (hdr_content_length(), dec_rep(content@.len())),
        ]);
    }
    r
}

/// A response of the given status and reason with no headers and no body.
pub fn respond_with_status(status: u16, message: &Vec<u8>) -> (r: Vec<u8>)
    ensures
        r@ == status_response(status as nat, message@),
{
    let headers: Vec<(Vec<u8>, Vec<u8>)> = Vec::new();
    let body: Vec<u8> = Vec::new();
    let r = encode_response(status as usize, message, &headers, &body);
    proof {
        assert(pairs_view(headers@) =~= Seq::<(Seq<u8>, Seq<u8>)>::empty());
        assert(body@ =~= Seq::<u8>::empty());
    }
    r
}

/// A line that may stand in a response head: free of CR and LF.
pub open spec fn head_line_ok(l: Seq<u8>) -> bool {
    l.len() > 0 && crlf_free(l)
}

/// In a head whose lines are nonempty and free of CR and LF, the first blank
/// line of the framed bytes stands exactly between head and body.
proof fn lemma_head_first_blank(lines: Seq<Seq<u8>>, body: Seq<u8>)
    requires
        lines.len() > 0,
        forall|k: int| 0 <= k < lines.len() ==> head_line_ok(#[trigger] lines[k]),
    ensures
        head_of(lines).len() >= 2,
        find_sub_at(head_of(lines) + crlf() + body, crlf2(), 0) == Some(
            head_of(lines).len() - 2,
        ),
    decreases lines.len(),
{
    let s = head_of(lines) + crlf() + body;
    let l0 = lines[0];
    if lines.len() == 1 {
        assert(head_of(lines.skip(1)) == Seq::<u8>::empty());
        assert(head_of(lines) =~= l0 + crlf());
        assert(s.len() == l0.len() + 4 + body.len());
        let n = l0.len() as int;
        assert(is_match(s, crlf2(), n)) by {
            assert(s[n] == 13 && s[n + 1] == 10 && s[n + 2] == 13 && s[n + 3] == 10);
            assert(forall|k: int| 0 <= k < 4 ==> #[trigger] s[n + k] == crlf2()[k]);
        }
        assert forall|t: int| 0 <= t < n implies !is_match(s, crlf2(), t) by {
            assert(s[t] == l0[t]);
            assert(l0[t] != 13);
            assert(crlf2()[0] == 13);
        }
        crate::bytes::lemma_find_sub_value(s, crlf2(), 0, n);
    } else {
        let rest = lines.skip(1);
        let hr = head_of(rest);
        let sr = hr + crlf() + body;
        assert(forall|k: int| 0 <= k < rest.len() ==> head_line_ok(#[trigger] rest[k]));
        lemma_head_first_blank(rest, body);
        lemma_find_sub_range(sr, crlf2(), 0);
        let jr = (hr.len() - 2) as int;
        assert(is_match(sr, crlf2(), jr));
        assert(head_of(lines) == l0 + crlf() + hr);
        assert(s =~= (l0 + crlf()) + sr);
        let off = l0.len() + 2;
        assert(forall|t: int| 0 <= t < sr.len() ==> s[off + t] == sr[t]);
        // the head of `rest` begins with a byte of its nonempty first line
        assert(rest[0].len() > 0);
        assert(hr == rest[0] + crlf() + head_of(rest.skip(1)));
        assert(sr[0] == rest[0][0]);
        assert(sr[0] != 13);
        let j = off + jr;
        assert(is_match(s, crlf2(), j)) by {
            assert(forall|k: int| 0 <= k < 4 ==> #[trigger] s[j + k] == sr[jr + k]);
        }
        assert forall|t: int| 0 <= t < j implies !is_match(s, crlf2(), t) by {
            if t < l0.len() {
                assert(s[t] == l0[t]);
                assert(l0[t] != 13);
                assert(crlf2()[0] == 13);
            } else if t == l0.len() {
                // here the bytes run CR LF x with x the head's first byte
                if is_match(s, crlf2(), t) {
                    assert(s[t + 2] == sr[0]);
                    assert(crlf2()[2] == 13);
                }
            } else if t == l0.len() + 1 {
                if is_match(s, crlf2(), t) {
                    assert(s[t] == crlf()[1]);
                    assert(crlf2()[0] == 13);
                }
            } else {
                let tr = t - off;
                assert(0 <= tr < jr);
                assert(!is_match(sr, crlf2(), tr));
                if is_match(s, crlf2(), t) {
                    assert(forall|k: int| 0 <= k < 4 ==> #[trigger] sr[tr + k] == s[t + k]);
                    assert(t + 4 <= s.len());
                    assert(is_match(sr, crlf2(), tr));
                }
            }
        }
        crate::bytes::lemma_find_sub_value(s, crlf2(), 0, j);
    }
}

/// Every response starts with its own status line: the protocol signature,
/// the decimal status code, a space, the reason phrase and a line ending.
pub proof fn lemma_response_prefix(
    status: nat,
    reason: Seq<u8>,
    headers: Seq<(Seq<u8>, Seq<u8>)>,
    body: Seq<u8>,
)
    ensures
        has_prefix(response_bytes(status, reason, headers, body), status_line(status, reason)
            + crlf()),
{
    let lines = resp_lines(status, reason, headers);
    let s = response_bytes(status, reason, headers, body);
    assert(lines[0] == status_line(status, reason));
    assert(head_of(lines) == lines[0] + crlf() + head_of(lines.skip(1)));
    let a = status_line(status, reason) + crlf();
    assert(s =~= a + (head_of(lines.skip(1)) + crlf() + body));
    assert(forall|k: int| 0 <= k < a.len() ==> #[trigger] s[k] == a[k]);
}

/// Concatenations of CR/LF-free pieces are CR/LF-free.
pub proof fn lemma_crlf_free_concat(a: Seq<u8>, b: Seq<u8>)
    requires
        crlf_free(a),
        crlf_free(b),
    ensures
        crlf_free(a + b),
{
    assert forall|k: int| 0 <= k < (a + b).len() implies (a + b)[k] != 13 && (a + b)[k] != 10 by {
        if k < a.len() {
            assert((a + b)[k] == a[k]);
        } else {
            assert((a + b)[k] == b[k - a.len()]);
        }
    }
}

/// Decimal digits are CR/LF-free.
pub proof fn lemma_dec_rep_crlf_free(n: nat)
    ensures
        crlf_free(dec_rep(n)),
{
    lemma_dec_rep_digits(n);
}

/// Framing round trip: when the reason phrase and all header names and
/// values are free of CR and LF, the body recovered from the encoded
/// response — everything after its first blank line — is exactly the body
/// that was framed, whatever bytes the body holds.
pub proof fn lemma_response_body(
    status: nat,
    reason: Seq<u8>,
    headers: Seq<(Seq<u8>, Seq<u8>)>,
    body: Seq<u8>,
)
    requires
        crlf_free(reason),
        forall|k: int|
            0 <= k < headers.len() ==> crlf_free(#[trigger] headers[k].0) && crlf_free(
                headers[k].1,
            ),
    ensures
        body_of(response_bytes(status, reason, headers, body)) == body,
{
    lemma_literals_crlf_free();
    let lines = resp_lines(status, reason, headers);
    assert forall|k: int| 0 <= k < lines.len() implies head_line_ok(#[trigger] lines[k]) by {
        if k == 0 {
            assert(lines[0] == status_line(status, reason));
            lemma_dec_rep_crlf_free(status);
            lemma_crlf_free_concat(http_sig(), dec_rep(status));
            lemma_crlf_free_concat(http_sig() + dec_rep(status), sp());
            lemma_crlf_free_concat(http_sig() + dec_rep(status) + sp(), reason);
            assert(status_line(status, reason).len() >= http_sig().len());
            assert((http_sig() + dec_rep(status))[0] == http_sig()[0]);
        } else {
            let h = headers[k - 1];
            assert(lines[k] == header_line(h));
            lemma_crlf_free_concat(h.0, colon_sp());
            lemma_crlf_free_concat(h.0 + colon_sp(), h.1);
            assert(header_line(h).len() >= colon_sp().len());
        }
    }
    lemma_head_first_blank(lines, body);
    let s = response_bytes(status, reason, headers, body);
    let hl = head_of(lines).len() as int;
    assert(find_sub_at(s, crlf2(), 0) == Some(hl - 2));
    assert(body_of(s) == s.subrange(hl + 2, s.len() as int));
    assert(s.subrange(hl + 2, s.len() as int) =~= body);
}

} // verus!
