use pastebin::decode::Leniency;
use pastebin::handler::handle;
use pastebin::store::PasteStore;
use pastebin::store::Strategy;

fn body_of(resp: &[u8]) -> Vec<u8> {
    let sep = b"\r\n\r\n";
    let mut at = None;
    for i in 0..resp.len().saturating_sub(3) {
        if &resp[i..i + 4] == sep {
            at = Some(i);
            break;
        }
    }
    let i = at.expect("response has no blank line");
    resp[i + 4..].to_vec()
}

fn post_request(body: &[u8]) -> Vec<u8> {
    let mut req = b"POST / HTTP/1.1\r\nHost: x\r\n\r\n".to_vec();
    req.extend_from_slice(body);
    req
}

fn get_request(id: &[u8]) -> Vec<u8> {
    let mut req = b"GET /".to_vec();
    req.extend_from_slice(id);
    req.extend_from_slice(b" HTTP/1.1\r\nHost: x\r\n\r\nx");
    req
}

fn end_to_end(strategy: Strategy) {
    let mut store = PasteStore::new(strategy);
    let resp = handle(&mut store, Leniency::Strict, &post_request(b"hello")).unwrap();
    assert!(resp.starts_with(b"HTTP/1.1 200 OK\r\nContent-Length: "));
    let id = body_of(&resp);
    let resp2 = handle(&mut store, Leniency::Strict, &get_request(&id)).unwrap();
    assert!(resp2.starts_with(b"HTTP/1.1 200 OK\r\nContent-Length: 5\r\n\r\n"));
    assert_eq!(body_of(&resp2), b"hello".to_vec());
}

#[test]
fn end_to_end_random() {
    end_to_end(Strategy::RandomIndirection);
}

#[test]
fn end_to_end_content() {
    end_to_end(Strategy::ContentHash);
}

#[test]
fn usage_page_at_root() {
    let mut store = PasteStore::new(Strategy::ContentHash);
    let resp = handle(
        &mut store,
        Leniency::Strict,
        b"GET / HTTP/1.1\r\nHost: x\r\n\r\nx",
    )
    .unwrap();
    assert_eq!(
        body_of(&resp),
        b"pastebin: POST / stores the request body; GET /<identifier> returns it\n".to_vec()
    );
}

#[test]
fn unknown_route_is_not_found() {
    let mut store = PasteStore::new(Strategy::ContentHash);
    let resp = handle(
        &mut store,
        Leniency::Strict,
        b"DELETE / HTTP/1.1\r\nHost: x\r\n\r\nx",
    )
    .unwrap();
    assert_eq!(
        resp,
        b"HTTP/1.1 404 Not Found\r\nContent-Length: 14\r\n\r\nno such route\n".to_vec()
    );
}

#[test]
fn strict_parse_failure_closes_without_response() {
    let mut store = PasteStore::new(Strategy::ContentHash);
    assert!(handle(&mut store, Leniency::Strict, b"GET").is_none());
}

#[test]
fn lenient_parse_failure_names_the_missing_piece() {
    let mut store = PasteStore::new(Strategy::ContentHash);
    let resp = handle(&mut store, Leniency::Lenient, b"GET").unwrap();
    assert_eq!(
        resp,
        b"HTTP/1.1 400 Bad Request\r\nContent-Length: 20\r\n\r\nmissing request uri\n".to_vec()
    );
}

#[test]
fn strict_rejects_ill_formed_bytes() {
    let mut store = PasteStore::new(Strategy::ContentHash);
    let mut req = post_request(b"he");
    req.push(0xff);
    req.extend_from_slice(b"llo");
    assert!(handle(&mut store, Leniency::Strict, &req).is_none());
}

#[test]
fn lenient_replaces_ill_formed_bytes() {
    let mut store = PasteStore::new(Strategy::ContentHash);
    let mut req = post_request(b"he");
    req.push(0xff);
    req.extend_from_slice(b"llo");
    let resp = handle(&mut store, Leniency::Lenient, &req).unwrap();
    let id = body_of(&resp);
    assert_eq!(store.load(&id).unwrap(), b"he?llo".to_vec());
}

#[test]
fn malformed_identifier_is_rejected_content() {
    let mut store = PasteStore::new(Strategy::ContentHash);
    let resp = handle(&mut store, Leniency::Strict, &get_request(b"abc")).unwrap();
    assert_eq!(
        resp,
        b"HTTP/1.1 400 Bad Request\r\nContent-Length: 21\r\n\r\nmalformed identifier\n".to_vec()
    );
}

#[test]
fn malformed_identifier_is_rejected_random() {
    let mut store = PasteStore::new(Strategy::RandomIndirection);
    let resp = handle(&mut store, Leniency::Strict, &get_request(b"nonexistent-id")).unwrap();
    assert!(resp.starts_with(b"HTTP/1.1 400 Bad Request\r\n"));
}

#[test]
fn well_formed_unknown_identifier_is_not_found() {
    let mut store = PasteStore::new(Strategy::ContentHash);
    let resp = handle(&mut store, Leniency::Strict, &get_request(b"0000000000000000")).unwrap();
    assert_eq!(
        resp,
        b"HTTP/1.1 404 Not Found\r\nContent-Length: 10\r\n\r\nnot found\n".to_vec()
    );
    let mut store2 = PasteStore::new(Strategy::RandomIndirection);
    let resp2 = handle(
        &mut store2,
        Leniency::Strict,
        &get_request(b"00000000-0000-0000-0000-000000000000"),
    )
    .unwrap();
    assert!(resp2.starts_with(b"HTTP/1.1 404 Not Found\r\n"));
}

#[test]
fn oversized_body_is_truncated_on_store() {
    let mut store = PasteStore::new(Strategy::ContentHash);
    let big = vec![b'a'; 2000];
    let req = post_request(&big);
    assert!(req.len() > 1024);
    // the bounded read sees 1024 bytes; the 28-byte preamble leaves 996
    let resp = handle(&mut store, Leniency::Strict, &req).unwrap();
    let id = body_of(&resp);
    let expected = vec![b'a'; 996];
    assert_eq!(store.load(&id).unwrap(), expected);
    let resp2 = handle(&mut store, Leniency::Strict, &get_request(&id)).unwrap();
    assert_eq!(body_of(&resp2), expected);
}
