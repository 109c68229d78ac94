//! Wire codec, decode side: turns the byte buffer captured from one socket
//! read into the request line's method and path, header values looked up by
//! case-insensitive line prefix, and the body after the first blank line.
use vstd::prelude::*;

use crate::bytes::ci_has_prefix;
use crate::bytes::copy_range;
use crate::bytes::find_byte_at;
use crate::bytes::find_byte_from;
use crate::bytes::find_sub_at;
use crate::bytes::find_sub_from;
use crate::bytes::lemma_find_byte_range;
use crate::bytes::skip_ws_at;
use crate::bytes::skip_ws_from;
use crate::bytes::starts_with_ci;
use crate::bytes::tok_end_at;
use crate::bytes::tok_end_from;
use crate::bytes::trim;
use crate::bytes::trim_of;
use crate::text::ae_name;
use crate::text::ae_name_vec;
use crate::text::colon_sp;
use crate::text::colon_sp_vec;
use crate::text::crlf2;
use crate::text::crlf2_vec;
use crate::text::ua_name;
use crate::text::ua_name_vec;

verus! {

/// The request line: everything before the first line feed.
pub open spec fn first_line_of(r: Seq<u8>) -> Seq<u8> {
    match find_byte_at(r, 10, 0) {
        None => r,
        Some(i) => r.subrange(0, i),
    }
}

/// The request line holds at least two whitespace-separated tokens.
pub open spec fn req_tokens_ok(r: Seq<u8>) -> bool {
    let fl = first_line_of(r);
    let a1 = skip_ws_at(fl, 0);
    let e1 = tok_end_at(fl, a1);
    let a2 = skip_ws_at(fl, e1);
    a1 < fl.len() && a2 < fl.len()
}

/// The first token of the request line (the method), or empty if the line
/// does not hold two tokens.
pub open spec fn method_of(r: Seq<u8>) -> Seq<u8> {
    let fl = first_line_of(r);
    let a1 = skip_ws_at(fl, 0);
    let e1 = tok_end_at(fl, a1);
    if req_tokens_ok(r) {
        fl.subrange(a1, e1)
    } else {
        Seq::empty()
    }
}

/// The second token of the request line (the target path), or empty if the
/// line does not hold two tokens.
pub open spec fn path_of(r: Seq<u8>) -> Seq<u8> {
    let fl = first_line_of(r);
    let a1 = skip_ws_at(fl, 0);
    let e1 = tok_end_at(fl, a1);
    let a2 = skip_ws_at(fl, e1);
    let e2 = tok_end_at(fl, a2);
    if req_tokens_ok(r) {
        fl.subrange(a2, e2)
    } else {
        Seq::empty()
    }
}

/// Splits the request line into method and path. A request line with fewer
/// than two tokens degrades to a pair of empty strings rather than an error.
pub fn parse_request(request: &Vec<u8>) -> (r: (Vec<u8>, Vec<u8>))
    ensures
        r.0@ == method_of(request@),
        r.1@ == path_of(request@),
{
    let end = match find_byte_from(request, 10, 0) {
        Some(j) => j,
        None => request.len(),
    };
    let fl = copy_range(request, 0, end);
    proof {
        assert(fl@ == first_line_of(request@));
    }
    let a1 = skip_ws_from(&fl, 0);
    let e1 = tok_end_from(&fl, a1);
    let a2 = skip_ws_from(&fl, e1);
    let e2 = tok_end_from(&fl, a2);
    if a1 < fl.len() && a2 < fl.len() {
        (copy_range(&fl, a1, e1), copy_range(&fl, a2, e2))
    } else {
        let m: Vec<u8> = Vec::new();
        let p: Vec<u8> = Vec::new();
        proof {
            assert(m@ =~= method_of(request@));
            assert(p@ =~= path_of(request@));
        }
        (m, p)
    }
}

/// Position just past the content of the line starting at `i`: the position
/// of the next line feed, or the end of the buffer.
pub open spec fn line_end_at(r: Seq<u8>, i: int) -> int {
    match find_byte_at(r, 10, i) {
        None => r.len() as int,
        Some(j) => j,
    }
}

/// Removes one trailing carriage return, as splitting on line endings does.
pub open spec fn strip_cr(l: Seq<u8>) -> Seq<u8> {
    if l.len() > 0 && l.last() == 13 {
        l.drop_last()
    } else {
        l
    }
}

/// The content of the line starting at position `i`.
pub open spec fn line_at(r: Seq<u8>, i: int) -> Seq<u8> {
    strip_cr(r.subrange(i, line_end_at(r, i)))
}

/// The first line at or after position `i` whose start matches `name` up to
/// ASCII case, `i` being a line start.
pub open spec fn find_header_from(r: Seq<u8>, name: Seq<u8>, i: int) -> Option<Seq<u8>>
    decreases r.len() - i
        when 0 <= i <= r.len()
{
    if i >= r.len() {
        None
    } else if ci_has_prefix(line_at(r, i), name) {
        Some(line_at(r, i))
    } else {
        match find_byte_at(r, 10, i) {
            None => None,
            Some(j) => {
                proof {
                    lemma_find_byte_range(r, 10, i);
                }
                find_header_from(r, name, j + 1)
            },
        }
    }
}

fn find_header(request: &Vec<u8>, name: &Vec<u8>, i: usize) -> (r: Option<Vec<u8>>)
    requires
        i <= request.len(),
    ensures
        match r {
            Some(l) => find_header_from(request@, name@, i as int) == Some(l@),
            None => find_header_from(request@, name@, i as int) is None,
        },
    decreases request.len() - i,
{
    if i >= request.len() {
        None
    } else {
        let nl = find_byte_from(request, 10, i);
        let e = match nl {
            Some(j) => j,
            None => request.len(),
        };
        let le = if e > i && request[e - 1] == 13 {
            e - 1
        } else {
            e
        };
        let l = copy_range(request, i, le);
        proof {
            let raw = request@.subrange(i as int, e as int);
            if e > i && request@[e - 1] == 13 {
                assert(raw.last() == request@[e - 1]);
                assert(l@ =~= raw.drop_last());
            }
            assert(l@ == line_at(request@, i as int));
        }
        if starts_with_ci(&l, name) {
            Some(l)
        } else {
            match nl {
                None => None,
                Some(j) => find_header(request, name, j + 1),
            }
        }
    }
}

/// The text after the first `": "` separator of `l`, to the end of the
/// line, if a separator exists at all.
pub open spec fn split2_of(l: Seq<u8>) -> Option<Seq<u8>> {
    match find_sub_at(l, colon_sp(), 0) {
        None => None,
        Some(i) => Some(l.subrange(i + 2, l.len() as int)),
    }
}

fn split2(l: &Vec<u8>) -> (r: Option<Vec<u8>>)
    ensures
        match r {
            Some(v) => split2_of(l@) == Some(v@),
            None => split2_of(l@) is None,
        },
{
    let pat = colon_sp_vec();
    match find_sub_from(l, &pat, 0) {
        None => None,
        Some(i) => Some(copy_range(l, i + 2, l.len())),
    }
}

/// The value of the first header line matching `User-Agent`, or `None` when
/// no such line exists. A matching line without a `": "` separator yields an
/// empty value.
pub open spec fn user_agent_of(r: Seq<u8>) -> Option<Seq<u8>> {
    match find_header_from(r, ua_name(), 0) {
        None => None,
        Some(l) => match split2_of(l) {
            None => Some(Seq::empty()),
            Some(v) => Some(v),
        },
    }
}

/// Looks up the `User-Agent` header by case-insensitive line prefix.
pub fn extract_user_agent(request: &Vec<u8>) -> (r: Option<Vec<u8>>)
    ensures
        match r {
            Some(v) => user_agent_of(request@) == Some(v@),
            None => user_agent_of(request@) is None,
        },
{
    let name = ua_name_vec();
    match find_header(request, &name, 0) {
        None => None,
        Some(l) => match split2(&l) {
            None => {
                let v: Vec<u8> = Vec::new();
                proof {
                    assert(v@ =~= Seq::<u8>::empty());
                }
                Some(v)
            },
            Some(v) => Some(v),
        },
    }
}

/// The raw value of the first `Accept-Encoding` header line, or `None` when
/// no such line exists or the line has no `": "` separator.
pub open spec fn ae_value_of(r: Seq<u8>) -> Option<Seq<u8>> {
    match find_header_from(r, ae_name(), 0) {
        None => None,
        Some(l) => split2_of(l),
    }
}

/// The comma-separated segments of `v` starting at `i`, untrimmed.
pub open spec fn split_commas_from(v: Seq<u8>, i: int) -> Seq<Seq<u8>>
    decreases v.len() - i
        when 0 <= i <= v.len()
{
    match find_byte_at(v, 44, i) {
        None => seq![v.subrange(i, v.len() as int)],
        Some(j) => {
            proof {
                lemma_find_byte_range(v, 44, i);
            }
            seq![v.subrange(i, j)] + split_commas_from(v, j + 1)
        },
    }
}

/// The views of a list of byte vectors.
pub open spec fn views_of(ts: Seq<Vec<u8>>) -> Seq<Seq<u8>> {
    ts.map_values(|t: Vec<u8>| t@)
}

/// Each segment with surrounding ASCII whitespace removed.
pub open spec fn trims_of(ss: Seq<Seq<u8>>) -> Seq<Seq<u8>> {
    ss.map_values(|s: Seq<u8>| trim_of(s))
}

/// The trimmed encoding tokens of the `Accept-Encoding` header, or `None`
/// when the header is absent or carries no `": "` separator.
pub open spec fn encodings_of(r: Seq<u8>) -> Option<Seq<Seq<u8>>> {
    match ae_value_of(r) {
        None => None,
        Some(v) => Some(trims_of(split_commas_from(v, 0))),
    }
}

fn split_commas(v: &Vec<u8>, i: usize) -> (r: Vec<Vec<u8>>)
    requires
        i <= v.len(),
    ensures
        views_of(r@) == trims_of(split_commas_from(v@, i as int)),
    decreases v.len() - i,
{
    match find_byte_from(v, 44, i) {
        None => {
            let seg = copy_range(v, i, v.len());
            let tok = trim(&seg);
            let mut out: Vec<Vec<u8>> = Vec::new();
            out.push(tok);
            proof {
                assert(views_of(out@) =~= trims_of(split_commas_from(v@, i as int)));
            }
            out
        },
        Some(j) => {
            let seg = copy_range(v, i, j);
            let tok = trim(&seg);
            let mut rest = split_commas(v, j + 1);
            let ghost rest0 = rest@;
            rest.insert(0, tok);
            proof {
                let lhs = views_of(rest@);
                let segs = split_commas_from(v@, i as int);
                let rhs = trims_of(segs);
                let tail = split_commas_from(v@, j + 1);
                assert(segs == seq![v@.subrange(i as int, j as int)] + tail);
                assert(views_of(rest0) == trims_of(tail));
                assert(views_of(rest0).len() == rest0.len());
                assert(trims_of(tail).len() == tail.len());
                assert(lhs.len() == rhs.len());
                assert forall|k: int| 0 <= k < lhs.len() implies lhs[k] == rhs[k] by {
                    if k == 0 {
                        assert(rest@[0] == tok);
                        assert(segs[0] == v@.subrange(i as int, j as int));
                        assert(rhs[0] == trim_of(segs[0]));
                    } else {
                        assert(rest@[k] == rest0[k - 1]);
                        assert(lhs[k] == views_of(rest0)[k - 1]);
                        assert(segs[k] == tail[k - 1]);
                        assert(rhs[k] == trim_of(segs[k]));
                        assert(trims_of(tail)[k - 1] == trim_of(tail[k - 1]));
                    }
                }
                assert(lhs =~= rhs);
            }
            rest
        },
    }
}

/// Splits the `Accept-Encoding` header value on commas and trims each token.
pub fn extract_accept_encoding(request: &Vec<u8>) -> (r: Option<Vec<Vec<u8>>>)
    ensures
        match r {
            Some(toks) => encodings_of(request@) == Some(views_of(toks@)),
            None => encodings_of(request@) is None,
        },
{
    let name = ae_name_vec();
    match find_header(request, &name, 0) {
        None => None,
        Some(l) => match split2(&l) {
            None => None,
            Some(v) => Some(split_commas(&v, 0)),
        },
    }
}

/// The request names `gzip` among its accepted encodings.
pub open spec fn accepts_gzip(r: Seq<u8>) -> bool {
    match encodings_of(r) {
        None => false,
        Some(toks) => exists|k: int| 0 <= k < toks.len() && toks[k] == crate::text::enc_gzip(),
    }
}

/// Tests whether the request accepts a gzip-compressed response body.
pub fn request_accepts_gzip(request: &Vec<u8>) -> (r: bool)
    ensures
        r == accepts_gzip(request@),
{
    match extract_accept_encoding(request) {
        None => false,
        Some(toks) => {
            let gz = crate::text::enc_gzip_vec();
            let mut k: usize = 0;
            let ghost all = views_of(toks@);
            while k < toks.len()
                invariant
                    k <= toks.len(),
                    all == views_of(toks@),
                    all.len() == toks@.len(),
                    encodings_of(request@) == Some(all),
                    gz@ == crate::text::enc_gzip(),
                    forall|t: int| 0 <= t < k ==> all[t] != crate::text::enc_gzip(),
                decreases toks.len() - k,
            {
                if crate::bytes::vec_eq(&toks[k], &gz) {
                    proof {
                        assert(all[k as int] == toks@[k as int]@);
                        let etoks = encodings_of(request@).unwrap();
                        assert(etoks == all);
                        assert(0 <= k < etoks.len() && etoks[k as int]
                            == crate::text::enc_gzip());
                        assert(accepts_gzip(request@));
                    }
                    return true;
                }
                proof {
                    assert(all[k as int] == toks@[k as int]@);
                }
                k = k + 1;
            }
            false
        },
    }
}

/// The request body: everything after the first blank line, taken verbatim,
/// or empty when no blank line is present.
pub open spec fn body_of(r: Seq<u8>) -> Seq<u8> {
    match find_sub_at(r, crlf2(), 0) {
        None => Seq::empty(),
        Some(i) => r.subrange(i + 4, r.len() as int),
    }
}

/// Extracts the request body following the first blank line.
pub fn extract_body(request: &Vec<u8>) -> (r: Vec<u8>)
    ensures
        r@ == body_of(request@),
{
    let pat = crlf2_vec();
    match find_sub_from(request, &pat, 0) {
        None => {
            let v: Vec<u8> = Vec::new();
            proof {
                assert(v@ =~= body_of(request@));
            }
            v
        },
        Some(i) => copy_range(request, i + 4, request.len()),
    }
}

} // verus!
