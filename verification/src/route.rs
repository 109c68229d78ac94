//! Router: maps a decoded request to one of the fixed behaviours, and builds
//! either the full response bytes or the file-store action the caller must
//! perform. File reads and writes themselves happen outside this crate; the
//! routing decision and every response byte are computed here.
use vstd::prelude::*;

use crate::bytes::append_bytes;
use crate::bytes::copy_range;
use crate::bytes::has_prefix;
use crate::bytes::starts_with;
use crate::bytes::vec_eq;
use crate::gzip::gzip_response;
use crate::gzip::respond_with_gzip;
use crate::request::accepts_gzip;
use crate::request::body_of;
use crate::request::extract_body;
use crate::request::extract_user_agent;
use crate::request::method_of;
use crate::request::parse_request;
use crate::request::path_of;
use crate::request::request_accepts_gzip;
use crate::request::user_agent_of;
use crate::response::file_response;
use crate::response::respond_with_file;
use crate::response::respond_with_status;
use crate::response::respond_with_text;
use crate::response::status_response;
use crate::response::text_response;
use crate::text::echo_prefix;
use crate::text::echo_prefix_vec;
use crate::text::files_prefix;
use crate::text::files_prefix_vec;
use crate::text::greeting;
use crate::text::greeting_vec;
use crate::text::method_get;
use crate::text::method_get_vec;
use crate::text::method_post;
use crate::text::method_post_vec;
use crate::text::reason_bad_request;
use crate::text::reason_bad_request_vec;
use crate::text::reason_created;
use crate::text::reason_created_vec;
use crate::text::reason_method_not_allowed;
use crate::text::reason_method_not_allowed_vec;
use crate::text::reason_not_found;
use crate::text::reason_not_found_vec;
use crate::text::reason_server_error;
use crate::text::reason_server_error_vec;
use crate::text::slash;
use crate::text::slash_vec;
use crate::text::ua_path;
use crate::text::ua_path_vec;

verus! {

/// What a request asks for, derived from method and path prefix in priority
/// order, with the header and body data each behaviour consumes.
pub enum Decision {
    Root,
    Echo(Seq<u8>),
    UserAgent,
    BadRequest,
    FileGet(Seq<u8>),
    FilePost(Seq<u8>, Seq<u8>),
    MethodNotAllowed,
    NotFound,
}

/// The routing table: `/` exactly, then the `/echo/`, `/user-agent` and
/// `/files/` prefixes in that order, then not-found. File routes accept GET
/// and POST only; a `/user-agent` request without the header is bad.
pub open spec fn decision_of(r: Seq<u8>) -> Decision {
    let m = method_of(r);
    let p = path_of(r);
    if p == slash() {
        Decision::Root
    } else if has_prefix(p, echo_prefix()) {
        Decision::Echo(p.skip(echo_prefix().len() as int))
    } else if has_prefix(p, ua_path()) {
        if user_agent_of(r) is Some {
            Decision::UserAgent
        } else {
            Decision::BadRequest
        }
    } else if has_prefix(p, files_prefix()) {
        if m == method_post() {
            Decision::FilePost(p.skip(files_prefix().len() as int), body_of(r))
        } else if m == method_get() {
            Decision::FileGet(p.skip(files_prefix().len() as int))
        } else {
            Decision::MethodNotAllowed
        }
    } else {
        Decision::NotFound
    }
}

/// The path of a file entity: the root directory, a separator, the name.
pub open spec fn file_path(root: Seq<u8>, name: Seq<u8>) -> Seq<u8> {
    root + slash() + name
}

/// What one request/response exchange must do next: write response bytes
/// back, or consult the file store first.
pub enum ActionSpec {
    Respond(Seq<u8>),
    ReadFile(Seq<u8>),
    WriteFile(Seq<u8>, Seq<u8>),
}

/// The action owed for a request: the exact response bytes for every route
/// that needs no file access, and the confined file path (plus contents to
/// write) for the file routes.
pub open spec fn action_of(r: Seq<u8>, root: Seq<u8>) -> ActionSpec {
    match decision_of(r) {
        Decision::Root => ActionSpec::Respond(text_response(greeting())),
        Decision::Echo(c) => if accepts_gzip(r) {
            ActionSpec::Respond(gzip_response(c))
        } else {
            ActionSpec::Respond(text_response(c))
        },
        Decision::UserAgent => ActionSpec::Respond(text_response(user_agent_of(r).unwrap())),
        Decision::BadRequest => ActionSpec::Respond(status_response(400, reason_bad_request())),
        Decision::FileGet(name) => ActionSpec::ReadFile(file_path(root, name)),
        Decision::FilePost(name, body) => ActionSpec::WriteFile(file_path(root, name), body),
        Decision::MethodNotAllowed => ActionSpec::Respond(
            status_response(405, reason_method_not_allowed()),
        ),
        Decision::NotFound => ActionSpec::Respond(status_response(404, reason_not_found())),
    }
}

/// The executable form of the next action.
pub enum HttpAction {
    Respond { response: Vec<u8> },
    ReadFile { path: Vec<u8> },
    WriteFile { path: Vec<u8>, contents: Vec<u8> },
}

impl View for HttpAction {
    type V = ActionSpec;

    open spec fn view(&self) -> ActionSpec {
        match self {
            HttpAction::Respond { response } => ActionSpec::Respond(response@),
            HttpAction::ReadFile { path } => ActionSpec::ReadFile(path@),
            HttpAction::WriteFile { path, contents } => ActionSpec::WriteFile(path@, contents@),
        }
    }
}

/// Joins the root directory and a file name with a separator.
pub fn build_file_path(root: &Vec<u8>, name: &Vec<u8>) -> (r: Vec<u8>)
    ensures
        r@ == file_path(root@, name@),
{
    let mut out = copy_range(root, 0, root.len());
    out.push(47);
    append_bytes(&mut out, name);
    proof {
        assert(out@ =~= file_path(root@, name@));
    }
    out
}

/// Decodes one request and routes it: returns the exact bytes to write back,
/// or the file-store action the connection must perform next.
pub fn handle_request(request: &Vec<u8>, root_dir: &Vec<u8>) -> (a: HttpAction)
    ensures
        a@ == action_of(request@, root_dir@),
{
    let (method, path) = parse_request(request);
    let sl = slash_vec();
    if vec_eq(&path, &sl) {
        let g = greeting_vec();
        return HttpAction::Respond { response: respond_with_text(&g) };
    }
    let ep = echo_prefix_vec();
    if starts_with(&path, &ep) {
        let content = copy_range(&path, ep.len(), path.len());
        proof {
            assert(content@ =~= path@.skip(echo_prefix().len() as int));
        }
        if request_accepts_gzip(request) {
            return HttpAction::Respond { response: respond_with_gzip(&content) };
        } else {
            return HttpAction::Respond { response: respond_with_text(&content) };
        }
    }
    let up = ua_path_vec();
    if starts_with(&path, &up) {
        match extract_user_agent(request) {
            Some(ua) => {
                return HttpAction::Respond { response: respond_with_text(&ua) };
            },
            None => {
                let msg = reason_bad_request_vec();
                return HttpAction::Respond { response: respond_with_status(400, &msg) };
            },
        }
    }
    let fp = files_prefix_vec();
    if starts_with(&path, &fp) {
        let name = copy_range(&path, fp.len(), path.len());
        proof {
            assert(name@ =~= path@.skip(files_prefix().len() as int));
        }
        let post = method_post_vec();
        if vec_eq(&method, &post) {
            let body = extract_body(request);
            return HttpAction::WriteFile {
                path: build_file_path(root_dir, &name),
                contents: body,
            };
        }
        let get = method_get_vec();
        if vec_eq(&method, &get) {
            return HttpAction::ReadFile { path: build_file_path(root_dir, &name) };
        }
        let msg = reason_method_not_allowed_vec();
        return HttpAction::Respond { response: respond_with_status(405, &msg) };
    }
    let msg = reason_not_found_vec();
    HttpAction::Respond { response: respond_with_status(404, &msg) }
}

/// The response owed after a file read: the file's bytes as a binary
/// success, or not-found when the store has no such file.
pub open spec fn file_read_outcome(found: Option<Seq<u8>>) -> Seq<u8> {
    match found {
        Some(c) => file_response(c),
        None => status_response(404, reason_not_found()),
    }
}

/// Builds the response for the outcome of a file read.
pub fn file_read_response(content: Option<Vec<u8>>) -> (r: Vec<u8>)
    ensures
        match content {
            Some(c) => r@ == file_read_outcome(Some(c@)),
            None => r@ == file_read_outcome(None),
        },
{
    match content {
        Some(c) => respond_with_file(&c),
        None => {
            let msg = reason_not_found_vec();
            respond_with_status(404, &msg)
        },
    }
}

/// The response owed after a file write: created on success, a server error
/// on any I/O failure.
pub open spec fn file_write_outcome(ok: bool) -> Seq<u8> {
    if ok {
        status_response(201, reason_created())
    } else {
        status_response(500, reason_server_error())
    }
}

/// Builds the response for the outcome of a file write.
pub fn file_write_response(ok: bool) -> (r: Vec<u8>)
    ensures
        r@ == file_write_outcome(ok),
{
    if ok {
        let msg = reason_created_vec();
        respond_with_status(201, &msg)
    } else {
        let msg = reason_server_error_vec();
        respond_with_status(500, &msg)
    }
}

} // verus!
