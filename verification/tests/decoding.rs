use pastebin::decode::check_utf8;
use pastebin::decode::decode;
use pastebin::decode::lossy_decode;
use pastebin::decode::DecodeError;
use pastebin::decode::Leniency;

#[test]
fn well_formed_bytes_pass_the_check() {
    assert!(check_utf8(b"plain ascii"));
    assert!(check_utf8("caf\u{e9} \u{4e2d}\u{6587} \u{1f600}".as_bytes()));
    assert!(check_utf8(b""));
}

#[test]
fn ill_formed_bytes_fail_the_check() {
    assert!(!check_utf8(b"\xff"));
    assert!(!check_utf8(b"he\x80llo"));
    // truncated two-byte encoding
    assert!(!check_utf8(b"ab\xc3"));
    // overlong encoding of '/'
    assert!(!check_utf8(b"\xc0\xaf"));
    // surrogate range
    assert!(!check_utf8(b"\xed\xa0\x80"));
}

#[test]
fn lossy_keeps_well_formed_scalars() {
    let s = "caf\u{e9} \u{4e2d}".as_bytes();
    assert_eq!(lossy_decode(s), s.to_vec());
}

#[test]
fn lossy_replaces_each_bad_position() {
    assert_eq!(lossy_decode(b"\xff"), b"?".to_vec());
    assert_eq!(lossy_decode(b"he\xffllo"), b"he?llo".to_vec());
    assert_eq!(lossy_decode(b"ab\xc3"), b"ab?".to_vec());
}

#[test]
fn strict_decode_reports_ill_formed_input() {
    assert_eq!(decode(Leniency::Strict, b"\xff").unwrap_err(), DecodeError::InvalidUtf8);
    assert_eq!(decode(Leniency::Strict, b"ok").unwrap(), b"ok".to_vec());
}

#[test]
fn lenient_decode_never_fails() {
    assert_eq!(decode(Leniency::Lenient, b"\xffok").unwrap(), b"?ok".to_vec());
}
