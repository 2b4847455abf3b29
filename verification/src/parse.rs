use vstd::prelude::*;
use vstd::slice::{slice_subrange, slice_to_vec};
use crate::util::is_ws;
use crate::util::is_ws_byte;

verus! {

/// The structural element that a malformed request buffer lacks. Each
/// variant names exactly one of the five pieces the tokenizer looks for.
#[derive(Debug, Clone, Copy, PartialEq, Eq, Structural)]
pub enum ParseError {
    MissingMethod,
    MissingRequestUri,
    MissingHttpVersion,
    MissingHeaders,
    MissingMessageBody,
}

/// A structured request: the five pieces of the wire format, copied out
/// of the incoming buffer.
#[derive(Debug)]
pub struct Request {
    pub method: Vec<u8>,
    pub target: Vec<u8>,
    pub version: Vec<u8>,
    pub headers: Vec<u8>,
    pub body: Vec<u8>,
}

/// The mathematical shape of a parsed request.
pub ghost struct SpecRequest {
    pub method: Seq<u8>,
    pub target: Seq<u8>,
    pub version: Seq<u8>,
    pub headers: Seq<u8>,
    pub body: Seq<u8>,
}

impl View for Request {
    type V = SpecRequest;

    open spec fn view(&self) -> SpecRequest {
        SpecRequest {
            method: self.method@,
            target: self.target@,
            version: self.version@,
            headers: self.headers@,
            body: self.body@,
        }
    }
}

/// Drops leading ASCII whitespace.
pub open spec fn drop_ws(s: Seq<u8>) -> Seq<u8>
    decreases s.len(),
{
    if s.len() > 0 && is_ws(s[0]) {
        drop_ws(s.drop_first())
    } else {
        s
    }
}

/// Length of the maximal leading run of non-whitespace bytes.
pub open spec fn tok_len(s: Seq<u8>) -> int
    decreases s.len(),
{
    if s.len() > 0 && !is_ws(s[0]) {
        1 + tok_len(s.drop_first())
    } else {
        0
    }
}

/// Index of the first carriage-return + line-feed pair, if any.
pub open spec fn crlf_pos(s: Seq<u8>) -> Option<int>
    decreases s.len(),
{
    if s.len() < 2 {
        None
    } else if s[0] == 13 && s[1] == 10 {
        Some(0int)
    } else {
        match crlf_pos(s.drop_first()) {
            Some(i) => Some(i + 1),
            None => None,
        }
    }
}

/// Drops a leading run of carriage-return + line-feed pairs.
pub open spec fn drop_crlf(s: Seq<u8>) -> Seq<u8>
    decreases s.len(),
{
    if s.len() >= 2 && s[0] == 13 && s[1] == 10 {
        drop_crlf(s.skip(2))
    } else {
        s
    }
}

/// What `parse` computes, stated over sequences. The buffer is split on
/// ASCII whitespace into a method and a target; the remainder is cut at
/// carriage-return + line-feed separators (a run of them counts as one
/// separator) into version, header block, and, verbatim, the body. A
/// piece that comes up empty is reported through its own error variant.
pub open spec fn spec_parse(s: Seq<u8>) -> Result<SpecRequest, ParseError> {
    let s1 = drop_ws(s);
    if s1.len() == 0 {
        Err(ParseError::MissingMethod)
    } else {
        let method = s1.take(tok_len(s1));
        let s2 = drop_ws(s1.skip(tok_len(s1)));
        if s2.len() == 0 {
            Err(ParseError::MissingRequestUri)
        } else {
            let target = s2.take(tok_len(s2));
            let rem = drop_ws(s2.skip(tok_len(s2)));
            if rem.len() == 0 {
                Err(ParseError::MissingHttpVersion)
            } else {
                match crlf_pos(rem) {
                    None => Err(ParseError::MissingHeaders),
                    Some(i) => {
                        let version = rem.take(i);
                        let after_version = drop_crlf(rem.skip(i));
                        if after_version.len() == 0 {
                            Err(ParseError::MissingHeaders)
                        } else {
                            match crlf_pos(after_version) {
                                None => Err(ParseError::MissingMessageBody),
                                Some(j) => {
                                    let headers = after_version.take(j);
                                    let body = drop_crlf(after_version.skip(j));
                                    if body.len() == 0 {
                                        Err(ParseError::MissingMessageBody)
                                    } else {
                                        Ok(SpecRequest { method, target, version, headers, body })
                                    }
                                },
                            }
                        }
                    },
                }
            }
        }
    }
}

/// Relates an executable parse result to the specification-level one.
pub open spec fn parse_matches(r: Result<Request, ParseError>, s: Result<SpecRequest, ParseError>) -> bool {
    match (r, s) {
        (Ok(req), Ok(sr)) => req@ == sr,
        (Err(e1), Err(e2)) => e1 == e2,
        _ => false,
    }
}

proof fn lemma_tok_len_bounds(s: Seq<u8>)
    ensures
        0 <= tok_len(s) <= s.len(),
    decreases s.len(),
{
    if s.len() > 0 && !is_ws(s[0]) {
        lemma_tok_len_bounds(s.drop_first());
    }
}

proof fn lemma_drop_ws_head(s: Seq<u8>)
    ensures
        drop_ws(s).len() > 0 ==> !is_ws(drop_ws(s)[0]),
    decreases s.len(),
{
    if s.len() > 0 && is_ws(s[0]) {
        lemma_drop_ws_head(s.drop_first());
    }
}

proof fn lemma_crlf_pos_some(s: Seq<u8>)
    ensures
        match crlf_pos(s) {
            Some(i) => 0 <= i && i + 1 < s.len() && s[i] == 13 && s[i + 1] == 10,
            None => true,
        },
    decreases s.len(),
{
    if s.len() >= 2 && !(s[0] == 13 && s[1] == 10) {
        lemma_crlf_pos_some(s.drop_first());
    }
}

proof fn lemma_drop_crlf_head(s: Seq<u8>)
    ensures
        !(drop_crlf(s).len() >= 2 && drop_crlf(s)[0] == 13 && drop_crlf(s)[1] == 10),
    decreases s.len(),
{
    if s.len() >= 2 && s[0] == 13 && s[1] == 10 {
        lemma_drop_crlf_head(s.skip(2));
    }
}

/// Parser totality: any buffer at all either parses to a request whose
/// five pieces are all populated (none empty), or is rejected with
/// exactly one of the five named errors; no piece is silently dropped.
pub proof fn lemma_parse_total(s: Seq<u8>)
    ensures
        match spec_parse(s) {
            Ok(r) => r.method.len() > 0 && r.target.len() > 0 && r.version.len() > 0
                && r.headers.len() > 0 && r.body.len() > 0,
            Err(e) => e == ParseError::MissingMethod || e == ParseError::MissingRequestUri
                || e == ParseError::MissingHttpVersion || e == ParseError::MissingHeaders
                || e == ParseError::MissingMessageBody,
        },
{
    let s1 = drop_ws(s);
    lemma_drop_ws_head(s);
    lemma_tok_len_bounds(s1);
    if s1.len() > 0 {
        assert(tok_len(s1) >= 1) by {
            lemma_tok_len_bounds(s1.drop_first());
        }
        let s2 = drop_ws(s1.skip(tok_len(s1)));
        lemma_drop_ws_head(s1.skip(tok_len(s1)));
        lemma_tok_len_bounds(s2);
        if s2.len() > 0 {
            assert(tok_len(s2) >= 1) by {
                lemma_tok_len_bounds(s2.drop_first());
            }
            let rem = drop_ws(s2.skip(tok_len(s2)));
            lemma_drop_ws_head(s2.skip(tok_len(s2)));
            if rem.len() > 0 {
                lemma_crlf_pos_some(rem);
                match crlf_pos(rem) {
                    None => {},
                    Some(i) => {
                        assert(i >= 1) by {
                            if i == 0 {
                                assert(is_ws(rem[0]));
                            }
                        }
                        let after_version = drop_crlf(rem.skip(i));
                        lemma_drop_crlf_head(rem.skip(i));
                        if after_version.len() > 0 {
                            lemma_crlf_pos_some(after_version);
                            match crlf_pos(after_version) {
                                None => {},
                                Some(j) => {
                                    assert(j >= 1);
                                },
                            }
                        }
                    },
                }
            }
        }
    }
}

/// Advances past leading ASCII whitespace, starting at `from`.
fn skip_ws(buf: &[u8], from: usize) -> (r: usize)
    requires
        from <= buf.len(),
    ensures
        from <= r <= buf.len(),
        buf@.skip(r as int) == drop_ws(buf@.skip(from as int)),
        r < buf.len() ==> !is_ws(buf@[r as int]),
{
    let mut i: usize = from;
    while i < buf.len() && is_ws_byte(buf[i])
        invariant
            from <= i <= buf.len(),
            drop_ws(buf@.skip(from as int)) == drop_ws(buf@.skip(i as int)),
        decreases buf.len() - i,
    {
        proof {
            assert(buf@.skip(i as int).drop_first() =~= buf@.skip(i + 1));
        }
        i += 1;
    }
    i
}

/// Advances past the maximal run of non-whitespace bytes at `from`.
fn scan_token(buf: &[u8], from: usize) -> (r: usize)
    requires
        from <= buf.len(),
    ensures
        from <= r <= buf.len(),
        r - from == tok_len(buf@.skip(from as int)),
{
    let mut i: usize = from;
    while i < buf.len() && !is_ws_byte(buf[i])
        invariant
            from <= i <= buf.len(),
            tok_len(buf@.skip(from as int)) == i - from + tok_len(buf@.skip(i as int)),
        decreases buf.len() - i,
    {
        proof {
            assert(buf@.skip(i as int).drop_first() =~= buf@.skip(i + 1));
        }
        i += 1;
    }
    i
}

/// Finds the first carriage-return + line-feed pair at or after `from`.
fn find_crlf(buf: &[u8], from: usize) -> (r: Option<usize>)
    requires
        from <= buf.len(),
    ensures
        match r {
            Some(p) => from <= p && p + 1 < buf.len() && crlf_pos(buf@.skip(from as int)) == Some(
                p - from,
            ),
            None => crlf_pos(buf@.skip(from as int)) is None,
        },
{
    let mut i: usize = from;
    loop
        invariant
            from <= i <= buf.len(),
            match crlf_pos(buf@.skip(i as int)) {
                Some(k) => crlf_pos(buf@.skip(from as int)) == Some(k + i - from),
                None => crlf_pos(buf@.skip(from as int)) is None,
            },
        decreases buf.len() - i,
    {
        if buf.len() - i < 2 {
            return None;
        }
        if buf[i] == 13 && buf[i + 1] == 10 {
            return Some(i);
        }
        proof {
            assert(buf@.skip(i as int).drop_first() =~= buf@.skip(i + 1));
        }
        i += 1;
    }
}

/// Advances past a leading run of carriage-return + line-feed pairs.
fn skip_crlf(buf: &[u8], from: usize) -> (r: usize)
    requires
        from <= buf.len(),
    ensures
        from <= r <= buf.len(),
        buf@.skip(r as int) == drop_crlf(buf@.skip(from as int)),
{
    let mut i: usize = from;
    while buf.len() - i >= 2 && buf[i] == 13 && buf[i + 1] == 10
        invariant
            from <= i <= buf.len(),
            drop_crlf(buf@.skip(from as int)) == drop_crlf(buf@.skip(i as int)),
        decreases buf.len() - i,
    {
        proof {
            assert(buf@.skip(i as int).skip(2) =~= buf@.skip(i + 2));
        }
        i += 2;
    }
    i
}

/// Splits a raw request buffer into its five pieces, or says which piece
/// is missing. The result is exactly `spec_parse` of the buffer.
pub fn parse(buf: &[u8]) -> (r: Result<Request, ParseError>)
    ensures
        parse_matches(r, spec_parse(buf@)),
{
    proof {
        assert(buf@.skip(0) =~= buf@);
    }
    let p0 = skip_ws(buf, 0);
    if p0 == buf.len() {
        return Err(ParseError::MissingMethod);
    }
    let p1 = scan_token(buf, p0);
    proof {
        assert(buf@.skip(p0 as int).skip(p1 - p0) =~= buf@.skip(p1 as int));
    }
    let p2 = skip_ws(buf, p1);
    if p2 == buf.len() {
        return Err(ParseError::MissingRequestUri);
    }
    let p3 = scan_token(buf, p2);
    proof {
        assert(buf@.skip(p2 as int).skip(p3 - p2) =~= buf@.skip(p3 as int));
    }
    let p4 = skip_ws(buf, p3);
    if p4 == buf.len() {
        return Err(ParseError::MissingHttpVersion);
    }
    let q1 = match find_crlf(buf, p4) {
        None => {
            return Err(ParseError::MissingHeaders);
        },
        Some(q) => q,
    };
    proof {
        assert(buf@.skip(p4 as int).skip(q1 - p4) =~= buf@.skip(q1 as int));
    }
    let p5 = skip_crlf(buf, q1);
    if p5 == buf.len() {
        return Err(ParseError::MissingHeaders);
    }
    let q2 = match find_crlf(buf, p5) {
        None => {
            return Err(ParseError::MissingMessageBody);
        },
        Some(q) => q,
    };
    proof {
        assert(buf@.skip(p5 as int).skip(q2 - p5) =~= buf@.skip(q2 as int));
    }
    let p6 = skip_crlf(buf, q2);
    if p6 == buf.len() {
        return Err(ParseError::MissingMessageBody);
    }
    let req = Request {
        method: slice_to_vec(slice_subrange(buf, p0, p1)),
        target: slice_to_vec(slice_subrange(buf, p2, p3)),
        version: slice_to_vec(slice_subrange(buf, p4, q1)),
        headers: slice_to_vec(slice_subrange(buf, p5, q2)),
        body: slice_to_vec(slice_subrange(buf, p6, buf.len())),
    };
    proof {
        assert(buf@.skip(p0 as int).take(p1 - p0) =~= buf@.subrange(p0 as int, p1 as int));
        assert(buf@.skip(p2 as int).take(p3 - p2) =~= buf@.subrange(p2 as int, p3 as int));
        assert(buf@.skip(p4 as int).take(q1 - p4) =~= buf@.subrange(p4 as int, q1 as int));
        assert(buf@.skip(p5 as int).take(q2 - p5) =~= buf@.subrange(p5 as int, q2 as int));
        assert(buf@.skip(p6 as int) =~= buf@.subrange(p6 as int, buf@.len() as int));
    }
    Ok(req)
}

} // verus!
