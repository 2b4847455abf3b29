use vstd::prelude::*;
use vstd::slice::slice_subrange;
use vstd::string::StringSliceAdditionalSpecFns;
use crate::util::append_bytes;
use crate::util::copy_bytes;
use crate::util::bytes_eq;
use crate::util::dec_rep;
use crate::util::push_dec;
use crate::parse::parse;
use crate::parse::spec_parse;
use crate::parse::SpecRequest;
use crate::parse::ParseError;
use crate::decode::decode;
use crate::decode::decoded;
use crate::decode::Leniency;
use crate::store::PasteStore;
use crate::store::Strategy;
use crate::store::spec_load;
use crate::store::random_store_step;
use crate::store::content_store_step;
use crate::ident::is_random_token;
use crate::ident::is_content_token;
use crate::ident::content_token;
use crate::ident::check_random_token;
use crate::ident::check_content_token;

verus! {

/// Capacity of the single bounded read: bytes beyond it never reach
/// the parser, so an oversized request is silently truncated.
pub const READ_CAP: usize = 1024;

/// The part of the incoming data that one bounded read can see.
pub open spec fn read_window(input: Seq<u8>) -> Seq<u8> {
    if input.len() <= READ_CAP {
        input
    } else {
        input.take(READ_CAP as int)
    }
}

/// A full response: status line, Content-Length header, blank line,
/// then the body verbatim.
pub open spec fn response_of(status: Seq<u8>, body: Seq<u8>) -> Seq<u8> {
    status + "Content-Length: ".spec_bytes() + dec_rep(body.len() as int)
        + "\r\n\r\n".spec_bytes() + body
}

pub open spec fn ok_response_of(body: Seq<u8>) -> Seq<u8> {
    response_of("HTTP/1.1 200 OK\r\n".spec_bytes(), body)
}

pub open spec fn not_found_response_of(body: Seq<u8>) -> Seq<u8> {
    response_of("HTTP/1.1 404 Not Found\r\n".spec_bytes(), body)
}

pub open spec fn bad_request_response_of(body: Seq<u8>) -> Seq<u8> {
    response_of("HTTP/1.1 400 Bad Request\r\n".spec_bytes(), body)
}

/// The help text served at the root.
pub open spec fn usage_text() -> Seq<u8> {
    "pastebin: POST / stores the request body; GET /<identifier> returns it\n".spec_bytes()
}

pub open spec fn not_found_text() -> Seq<u8> {
    "not found\n".spec_bytes()
}

pub open spec fn malformed_id_text() -> Seq<u8> {
    "malformed identifier\n".spec_bytes()
}

pub open spec fn unknown_route_text() -> Seq<u8> {
    "no such route\n".spec_bytes()
}

/// One line naming the structural element a rejected buffer lacked.
pub open spec fn parse_error_text(e: ParseError) -> Seq<u8> {
    match e {
        ParseError::MissingMethod => "missing method\n".spec_bytes(),
        ParseError::MissingRequestUri => "missing request uri\n".spec_bytes(),
        ParseError::MissingHttpVersion => "missing http version\n".spec_bytes(),
        ParseError::MissingHeaders => "missing headers\n".spec_bytes(),
        ParseError::MissingMessageBody => "missing message body\n".spec_bytes(),
    }
}

fn build_response(status: &str, body: &[u8]) -> (r: Vec<u8>)
    ensures
        r@ == response_of(status.spec_bytes(), body@),
{
    let mut out: Vec<u8> = Vec::new();
    append_bytes(&mut out, status.as_bytes());
    append_bytes(&mut out, "Content-Length: ".as_bytes());
    push_dec(&mut out, body.len());
    append_bytes(&mut out, "\r\n\r\n".as_bytes());
    append_bytes(&mut out, body);
    proof {
        assert(out@ =~= response_of(status.spec_bytes(), body@));
    }
    out
}

fn usage_body() -> (r: Vec<u8>)
    ensures
        r@ == usage_text(),
{
    copy_bytes("pastebin: POST / stores the request body; GET /<identifier> returns it\n".as_bytes())
}

fn parse_error_body(e: ParseError) -> (r: Vec<u8>)
    ensures
        r@ == parse_error_text(e),
{
    match e {
        ParseError::MissingMethod => copy_bytes("missing method\n".as_bytes()),
        ParseError::MissingRequestUri => copy_bytes("missing request uri\n".as_bytes()),
        ParseError::MissingHttpVersion => copy_bytes("missing http version\n".as_bytes()),
        ParseError::MissingHeaders => copy_bytes("missing headers\n".as_bytes()),
        ParseError::MissingMessageBody => copy_bytes("missing message body\n".as_bytes()),
    }
}

/// The store looks the same: same strategy, same index, same blobs.
pub open spec fn same_state(pre: PasteStore, post: PasteStore) -> bool {
    &&& post.active_strategy() == pre.active_strategy()
    &&& post.index_view() == pre.index_view()
    &&& post.blob_view() == pre.blob_view()
}

/// The identifier shape the active strategy hands out.
pub open spec fn valid_identifier(st: Strategy, id: Seq<u8>) -> bool {
    match st {
        Strategy::RandomIndirection => is_random_token(id),
        Strategy::ContentHash => is_content_token(id),
    }
}

/// An upload happened and the response body is the fresh identifier.
pub open spec fn stored_response_ok(
    pre: PasteStore,
    post: PasteStore,
    body: Seq<u8>,
    resp: Option<Seq<u8>>,
) -> bool {
    match pre.active_strategy() {
        Strategy::ContentHash => content_store_step(pre, post, content_token(body), body) && resp
            == Some(ok_response_of(content_token(body))),
        Strategy::RandomIndirection => exists|id: Seq<u8>, k: Seq<u8>|
            random_store_step(pre, post, id, k, body) && is_random_token(id) && resp == Some(
                ok_response_of(id),
            ),
    }
}

/// A retrieval was answered: a malformed identifier is turned away, an
/// unknown one is reported missing, and a known one comes back with
/// exactly its stored bytes.
pub open spec fn fetch_response_ok(s: PasteStore, id: Seq<u8>, resp: Option<Seq<u8>>) -> bool {
    if !valid_identifier(s.active_strategy(), id) {
        resp == Some(bad_request_response_of(malformed_id_text()))
    } else {
        match spec_load(s, id) {
            Some(b) => resp == Some(ok_response_of(b)),
            None => resp == Some(not_found_response_of(not_found_text())),
        }
    }
}

/// How one parsed request is routed by method and target.
pub open spec fn routed_ok(
    pre: PasteStore,
    post: PasteStore,
    req: SpecRequest,
    resp: Option<Seq<u8>>,
) -> bool {
    if req.method == "GET".spec_bytes() && req.target == "/".spec_bytes() {
        same_state(pre, post) && resp == Some(ok_response_of(usage_text()))
    } else if req.method == "POST".spec_bytes() && req.target == "/".spec_bytes() {
        stored_response_ok(pre, post, req.body, resp)
    } else if req.method == "GET".spec_bytes() && req.target.len() > 1 && req.target[0] == 47 {
        same_state(pre, post) && fetch_response_ok(pre, req.target.skip(1), resp)
    } else {
        same_state(pre, post) && resp == Some(not_found_response_of(unknown_route_text()))
    }
}

/// One whole connection cycle past the read: the bounded window is
/// decoded, parsed, and routed; `None` stands for closing the
/// connection without a response (the strict reaction to bad input).
pub open spec fn cycle_ok(
    pre: PasteStore,
    post: PasteStore,
    mode: Leniency,
    input: Seq<u8>,
    resp: Option<Seq<u8>>,
) -> bool {
    let window = read_window(input);
    match decoded(mode, window) {
        None => same_state(pre, post) && resp is None,
        Some(text) => match spec_parse(text) {
            Err(e) => same_state(pre, post) && (match mode {
                Leniency::Strict => resp is None,
                Leniency::Lenient => resp == Some(bad_request_response_of(parse_error_text(e))),
            }),
            Ok(req) => routed_ok(pre, post, req, resp),
        },
    }
}

/// The response as a sequence, if one is sent at all.
pub open spec fn resp_view(r: Option<Vec<u8>>) -> Option<Seq<u8>> {
    match r {
        Some(v) => Some(v@),
        None => None,
    }
}

/// Runs one request/response cycle against the store: bounded window,
/// decode, parse, route, render. The caller only reads the wire and
/// writes the result back.
pub fn handle(store: &mut PasteStore, mode: Leniency, incoming: &[u8]) -> (resp: Option<Vec<u8>>)
    ensures
        cycle_ok(*old(store), *final(store), mode, incoming@, resp_view(resp)),
{
    let window: &[u8] = if incoming.len() > READ_CAP {
        slice_subrange(incoming, 0, READ_CAP)
    } else {
        incoming
    };
    proof {
        assert(window@ =~= read_window(incoming@));
    }
    let text: Vec<u8> = match decode(mode, window) {
        Ok(t) => t,
        Err(_) => {
            return None;
        },
    };
    let req = match parse(text.as_slice()) {
        Ok(r) => r,
        Err(e) => {
            match mode {
                Leniency::Strict => {
                    return None;
                },
                Leniency::Lenient => {
                    let body = parse_error_body(e);
                    return Some(build_response("HTTP/1.1 400 Bad Request\r\n", body.as_slice()));
                },
            }
        },
    };
    let is_get = bytes_eq(req.method.as_slice(), "GET".as_bytes());
    let is_post = bytes_eq(req.method.as_slice(), "POST".as_bytes());
    let at_root = bytes_eq(req.target.as_slice(), "/".as_bytes());
    if is_get && at_root {
        let body = usage_body();
        return Some(build_response("HTTP/1.1 200 OK\r\n", body.as_slice()));
    }
    if is_post && at_root {
        let id = store.store(req.body.as_slice());
        proof {
            if old(store).active_strategy() == Strategy::RandomIndirection {
                let k = choose|k: Seq<u8>|
                    random_store_step(*old(store), *store, id@, k, req.body@);
                assert(random_store_step(*old(store), *store, id@, k, req.body@));
            }
        }
        return Some(build_response("HTTP/1.1 200 OK\r\n", id.as_slice()));
    }
    if is_get && req.target.len() > 1 && req.target[0] == 47 {
        let id = slice_subrange(req.target.as_slice(), 1, req.target.len());
        proof {
            assert(id@ =~= req.target@.skip(1));
        }
        let shape_ok = match store.strategy() {
            Strategy::RandomIndirection => check_random_token(id),
            Strategy::ContentHash => check_content_token(id),
        };
        if !shape_ok {
            let body = copy_bytes("malformed identifier\n".as_bytes());
            return Some(build_response("HTTP/1.1 400 Bad Request\r\n", body.as_slice()));
        }
        match store.load(id) {
            Ok(bytes) => {
                return Some(build_response("HTTP/1.1 200 OK\r\n", bytes.as_slice()));
            },
            Err(_) => {
                let body = copy_bytes("not found\n".as_bytes());
                return Some(build_response("HTTP/1.1 404 Not Found\r\n", body.as_slice()));
            },
        }
    }
    let body = copy_bytes("no such route\n".as_bytes());
    Some(build_response("HTTP/1.1 404 Not Found\r\n", body.as_slice()))
}

} // verus!
