use ssdp_device::addr::{multicast_group, PeerAddr};
use ssdp_device::device::Device;
use ssdp_device::notify::{NotifyMessage, NotifyRequest};
use ssdp_device::server::{
    announce, classify, first_header, search_reply, RequestKind, Server, ServerError, ServerState,
};

fn peer() -> PeerAddr {
    PeerAddr::V4 { octets: [10, 0, 0, 5], port: 40000 }
}

fn device(usn: &str, st: &str) -> Device {
    Device::new(
        usn.to_string(),
        st.to_string(),
        "http://10.0.0.1/desc.xml".to_string(),
        1800,
        "demo/1.0".to_string(),
    )
}

fn running(devices: Vec<Device>) -> Server {
    let mut s = Server::new();
    for d in devices {
        s.register(d).unwrap();
    }
    s.begin_start().unwrap();
    s.bound(true).unwrap();
    s
}

fn header<'a>(hs: &'a [(String, String)], name: &str) -> Option<&'a str> {
    hs.iter().find(|(n, _)| n == name).map(|(_, v)| v.as_str())
}

const SEARCH_ALL: &[u8] = b"M-SEARCH * HTTP/1.1\r\nHOST: 239.255.255.250:1900\r\nMAN: \"ssdp:discover\"\r\nST: ssdp:all\r\n\r\n";

#[test]
fn search_all_gets_one_reply_per_device() {
    let s = running(vec![device("uuid:1", "urn:example:device:1")]);
    let replies = s.on_datagram(&NotifyMessage::new(peer(), SEARCH_ALL.to_vec()));
    assert_eq!(replies.len(), 1);
    assert_eq!(replies[0].status_code, 200);
    assert_eq!(replies[0].remote_addr, peer());
    assert_eq!(header(&replies[0].headers, "ST"), Some("urn:example:device:1"));
    assert_eq!(header(&replies[0].headers, "USN"), Some("uuid:1"));
    assert_eq!(header(&replies[0].headers, "CACHE-CONTROL"), Some("max-age=1800"));
}

#[test]
fn search_for_one_target() {
    let s = running(vec![device("uuid:1", "urn:a"), device("uuid:2", "urn:b"), device("uuid:3", "urn:a")]);
    let data = b"M-SEARCH * HTTP/1.1\r\nst: urn:a\r\n\r\n".to_vec();
    let replies = s.on_datagram(&NotifyMessage::new(peer(), data));
    let got: Vec<_> = replies.iter().map(|r| header(&r.headers, "USN").unwrap()).collect();
    assert_eq!(got, vec!["uuid:1", "uuid:3"]);
}

#[test]
fn no_reply_without_search_target_or_to_other_methods() {
    let s = running(vec![device("uuid:1", "urn:a")]);
    let no_st = b"M-SEARCH * HTTP/1.1\r\nMAN: \"ssdp:discover\"\r\n\r\n".to_vec();
    assert!(s.on_datagram(&NotifyMessage::new(peer(), no_st)).is_empty());
    let notify = b"NOTIFY * HTTP/1.1\r\nST: ssdp:all\r\nNTS: ssdp:alive\r\n\r\n".to_vec();
    assert!(s.on_datagram(&NotifyMessage::new(peer(), notify)).is_empty());
    let get = b"GET * HTTP/1.1\r\nST: ssdp:all\r\n\r\n".to_vec();
    assert!(s.on_datagram(&NotifyMessage::new(peer(), get)).is_empty());
}

#[test]
fn malformed_datagrams_are_dropped() {
    let s = running(vec![device("uuid:1", "urn:a")]);
    let truncated = SEARCH_ALL[..30].to_vec();
    assert!(s.on_datagram(&NotifyMessage::new(peer(), truncated)).is_empty());
    let bad = b"M-SEARCH * HTTP/1.1\r\nS T: ssdp:all\r\n\r\n".to_vec();
    assert!(s.on_datagram(&NotifyMessage::new(peer(), bad)).is_empty());
}

#[test]
fn stopped_server_does_not_answer() {
    let mut s = Server::new();
    s.register(device("uuid:1", "urn:a")).unwrap();
    assert!(s.on_datagram(&NotifyMessage::new(peer(), SEARCH_ALL.to_vec())).is_empty());
    assert!(s.on_tick().is_empty());
}

#[test]
fn bind_failure_returns_to_stopped() {
    let mut s = Server::new();
    assert_eq!(s.bound(true), Err(ServerError::InvalidState));
    assert_eq!(s.begin_start(), Ok(()));
    assert_eq!(s.state, ServerState::Starting);
    assert_eq!(s.begin_start(), Err(ServerError::InvalidState));
    assert_eq!(s.bound(false), Err(ServerError::BindError));
    assert_eq!(s.state, ServerState::Stopped);
}

#[test]
fn tick_announces_each_device_alive() {
    let s = running(vec![device("uuid:1", "urn:a"), device("uuid:2", "urn:b")]);
    let sent = s.on_tick();
    assert_eq!(sent.len(), 2);
    let first = String::from_utf8(sent[0].clone()).unwrap();
    assert_eq!(
        first,
        "NOTIFY * HTTP/1.1\r\nHOST: 239.255.255.250:1900\r\nCACHE-CONTROL: max-age=1800\r\nLOCATION: http://10.0.0.1/desc.xml\r\nNT: urn:a\r\nNTS: ssdp:alive\r\nSERVER: demo/1.0\r\nUSN: uuid:1\r\n\r\n"
    );
    assert!(String::from_utf8(sent[1].clone()).unwrap().contains("USN: uuid:2\r\n"));
}

#[test]
fn shutdown_sends_one_byebye_per_device_then_silence() {
    let mut s = running(vec![device("uuid:1", "urn:a"), device("uuid:2", "urn:b"), device("uuid:3", "urn:c")]);
    let sent = s.shutdown();
    assert_eq!(sent.len(), 3);
    for (i, m) in sent.iter().enumerate() {
        let text = String::from_utf8(m.clone()).unwrap();
        assert!(text.contains("NTS: ssdp:byebye\r\n"));
        assert!(text.contains(&format!("USN: uuid:{}\r\n", i + 1)));
    }
    assert_eq!(s.state, ServerState::Stopping);
    assert!(s.on_tick().is_empty());
    assert!(s.shutdown().is_empty());
    s.released();
    assert_eq!(s.state, ServerState::Stopped);
    assert!(s.on_tick().is_empty());
}

#[test]
fn shutdown_with_no_devices_sends_nothing() {
    let mut s = running(vec![]);
    assert!(s.shutdown().is_empty());
    assert_eq!(s.state, ServerState::Stopping);
}

#[test]
fn classify_by_method() {
    let search = NotifyRequest::parse(peer(), SEARCH_ALL).unwrap();
    assert_eq!(classify(&search), RequestKind::Search);
    let notify = NotifyRequest::parse(peer(), b"NOTIFY * HTTP/1.1\r\n\r\n").unwrap();
    assert_eq!(classify(&notify), RequestKind::Alive);
    let other = NotifyRequest::parse(peer(), b"m-search * HTTP/1.1\r\n\r\n").unwrap();
    assert_eq!(classify(&other), RequestKind::Unknown);
}

#[test]
fn first_header_takes_the_first_of_duplicates() {
    let req = NotifyRequest::parse(peer(), b"M-SEARCH * HTTP/1.1\r\nst: one\r\nST: two\r\n\r\n").unwrap();
    assert_eq!(first_header(&req, "ST"), Some("one".to_string()));
    assert_eq!(first_header(&req, "USN"), None);
}

#[test]
fn search_reply_headers() {
    let r = search_reply(&device("uuid:9", "urn:z"), peer());
    let hs: Vec<_> = r.headers.iter().map(|(n, v)| (n.as_str(), v.as_str())).collect();
    assert_eq!(
        hs,
        vec![
            ("CACHE-CONTROL", "max-age=1800"),
            ("EXT", ""),
            ("LOCATION", "http://10.0.0.1/desc.xml"),
            ("SERVER", "demo/1.0"),
            ("ST", "urn:z"),
            ("USN", "uuid:9"),
        ]
    );
    assert_eq!(r.body, "");
}

#[test]
fn byebye_announcement_bytes() {
    let mut d = device("uuid:4", "urn:q");
    d.max_age = 7;
    let text = String::from_utf8(announce(&d, "ssdp:byebye")).unwrap();
    assert!(text.starts_with("NOTIFY * HTTP/1.1\r\nHOST: 239.255.255.250:1900\r\nCACHE-CONTROL: max-age=7\r\n"));
    assert!(text.contains("NTS: ssdp:byebye\r\n"));
    assert!(text.ends_with("\r\n\r\n"));
}

#[test]
fn multicast_group_address() {
    assert_eq!(multicast_group(), PeerAddr::V4 { octets: [239, 255, 255, 250], port: 1900 });
}
