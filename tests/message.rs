use ssdp_device::addr::PeerAddr;
use ssdp_device::notify::{NotifyError, NotifyMessage, NotifyRequest, NotifyResponse, RawHead};

fn peer() -> PeerAddr {
    PeerAddr::V4 { octets: [192, 168, 1, 20], port: 50000 }
}

fn pairs(hs: &[(String, String)]) -> Vec<(&str, &str)> {
    hs.iter().map(|(n, v)| (n.as_str(), v.as_str())).collect()
}

const SEARCH: &[u8] = b"M-SEARCH * HTTP/1.1\r\nHOST: 239.255.255.250:1900\r\nMAN: \"ssdp:discover\"\r\nST: ssdp:all\r\n\r\n";

#[test]
fn parses_search_request() {
    let req = NotifyRequest::parse(peer(), SEARCH).unwrap();
    assert_eq!(req.remote_addr, peer());
    assert_eq!(req.method, "M-SEARCH");
    assert_eq!(req.path, "*");
    assert_eq!(
        pairs(&req.headers),
        vec![("HOST", "239.255.255.250:1900"), ("MAN", "\"ssdp:discover\""), ("ST", "ssdp:all")]
    );
    assert_eq!(req.body, "");
}

#[test]
fn message_parse_matches_request_parse() {
    let msg = NotifyMessage::new(peer(), SEARCH.to_vec());
    assert_eq!(msg.data, SEARCH.to_vec());
    let req = msg.parse().unwrap();
    assert_eq!(req.method, "M-SEARCH");
    assert_eq!(req.headers.len(), 3);
}

#[test]
fn keeps_header_order_duplicates_and_body() {
    let data = b"NOTIFY * HTTP/1.1\r\nNT: a\r\nnt: b\r\nNTS: ssdp:alive\r\nNT: a\r\n\r\nhello body";
    let req = NotifyRequest::parse(peer(), data).unwrap();
    assert_eq!(req.method, "NOTIFY");
    assert_eq!(pairs(&req.headers), vec![("NT", "a"), ("nt", "b"), ("NTS", "ssdp:alive"), ("NT", "a")]);
    assert_eq!(req.body, "hello body");
}

#[test]
fn body_is_decoded_lossily() {
    let mut data = b"NOTIFY * HTTP/1.1\r\nX: y\r\n\r\nab".to_vec();
    data.push(0xff);
    data.push(b'c');
    let req = NotifyRequest::parse(peer(), &data).unwrap();
    assert_eq!(req.body, "ab\u{FFFD}c");
}

#[test]
fn header_value_is_decoded_lossily() {
    let mut data = b"NOTIFY * HTTP/1.1\r\nX: a".to_vec();
    data.push(0xc3);
    data.extend_from_slice(b"b\r\n\r\n");
    let req = NotifyRequest::parse(peer(), &data).unwrap();
    assert_eq!(req.headers[0].1, "a\u{FFFD}b");
}

#[test]
fn truncated_head_is_incomplete() {
    let blank = SEARCH.len() - 2;
    for cut in [1, 5, 9, 20, 40, blank - 1, blank, blank + 1] {
        let r = NotifyRequest::parse(peer(), &SEARCH[..cut]);
        assert_eq!(r.unwrap_err(), NotifyError::Incomplete, "cut at {}", cut);
    }
    assert_eq!(NotifyRequest::parse(peer(), b"").unwrap_err(), NotifyError::Incomplete);
}

#[test]
fn bad_header_name_is_parse_error() {
    let r = NotifyRequest::parse(peer(), b"M-SEARCH * HTTP/1.1\r\nBad Header: x\r\n\r\n");
    assert_eq!(r.unwrap_err(), NotifyError::ParseError(httparse::Error::HeaderName));
}

#[test]
fn bad_version_is_parse_error() {
    let r = NotifyRequest::parse(peer(), b"M-SEARCH * HTTQ/1.1\r\n\r\n");
    assert_eq!(r.unwrap_err(), NotifyError::ParseError(httparse::Error::Version));
}

#[test]
fn too_many_headers_is_parse_error() {
    let mut data = b"NOTIFY * HTTP/1.1\r\n".to_vec();
    for _ in 0..17 {
        data.extend_from_slice(b"X: y\r\n");
    }
    data.extend_from_slice(b"\r\n");
    let r = NotifyRequest::parse(peer(), &data);
    assert_eq!(r.unwrap_err(), NotifyError::ParseError(httparse::Error::TooManyHeaders));
}

fn search_request() -> NotifyRequest {
    NotifyRequest::parse(peer(), SEARCH).unwrap()
}

#[test]
fn header_contains_ignores_name_case() {
    let req = search_request();
    assert!(req.header_contains("man", "ssdp:discover"));
    assert!(req.header_contains("Man", "discover"));
    assert!(req.header_contains("st", ""));
    assert!(!req.header_contains("MAN", "SSDP:DISCOVER"));
    assert!(!req.header_contains("ST", "ssdp:alll"));
}

#[test]
fn header_match_ignores_case_of_value() {
    let req = search_request();
    assert!(req.header_match("st", "SSDP:ALL"));
    assert!(req.header_match("HOST", "239.255.255.250:1900"));
    assert!(!req.header_match("st", "ssdp:al"));
    assert!(!req.header_match("MAN", "ssdp:discover"));
}

#[test]
fn missing_header_never_matches() {
    let req = search_request();
    assert!(!req.header_contains("USN", ""));
    assert!(!req.header_match("USN", ""));
    assert!(!req.header_contains("S", "ssdp"));
}

#[test]
fn encodes_response_exactly() {
    let resp = NotifyResponse {
        remote_addr: peer(),
        status_code: 200,
        headers: vec![("ST".to_string(), "x".to_string()), ("EXT".to_string(), String::new())],
        body: "b".to_string(),
    };
    assert_eq!(resp.encode(), b"HTTP/1.1 200 OK\r\nST: x\r\nEXT: \r\n\r\nb".to_vec());
}

#[test]
fn encodes_other_status_without_reason() {
    let resp = NotifyResponse { remote_addr: peer(), status_code: 404, headers: vec![], body: String::new() };
    assert_eq!(resp.encode(), b"HTTP/1.1 404 \r\n\r\n".to_vec());
}

#[test]
fn encoded_response_parses_back_as_headers() {
    let resp = NotifyResponse {
        remote_addr: peer(),
        status_code: 200,
        headers: vec![("A".to_string(), "1".to_string()), ("B".to_string(), "2".to_string())],
        body: String::new(),
    };
    let text = String::from_utf8(resp.encode()).unwrap();
    assert!(text.ends_with("A: 1\r\nB: 2\r\n\r\n"));
}

#[test]
fn from_head_builds_request_from_reported_head() {
    let data = b"HEAD!tail \xff";
    let head = RawHead {
        len: 5,
        method: "M-SEARCH".to_string(),
        path: "*".to_string(),
        headers: vec![("ST".to_string(), b"a\xffb".to_vec()), ("st".to_string(), Vec::new())],
    };
    let req = NotifyRequest::from_head(peer(), data, Ok(Some(head))).unwrap();
    assert_eq!(req.method, "M-SEARCH");
    assert_eq!(req.path, "*");
    assert_eq!(pairs(&req.headers), vec![("ST", "a\u{FFFD}b"), ("st", "")]);
    assert_eq!(req.body, "tail \u{FFFD}");
}

#[test]
fn from_head_maps_partial_and_invalid() {
    let data = b"anything";
    assert_eq!(NotifyRequest::from_head(peer(), data, Ok(None)).unwrap_err(), NotifyError::Incomplete);
    assert_eq!(
        NotifyRequest::from_head(peer(), data, Err(httparse::Error::Token)).unwrap_err(),
        NotifyError::ParseError(httparse::Error::Token)
    );
}
