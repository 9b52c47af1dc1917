use vstd::prelude::*;
use vstd::utf8::{decode_utf8, encode_utf8, valid_utf8};
use vstd::string::StrSliceExecFns;
use crate::addr::PeerAddr;
use crate::text::{char_eq_ignore_ascii_case, contains, eq_ignore_ascii_case, str_contains, str_eq_ignore_ascii_case};

verus! {

/// Room for headers that a request may carry.
pub const MAX_HEADERS: usize = 16;

/// httparse's parse error, which names the part of the grammar that a byte
/// broke; carried to callers, never inspected.
#[verifier::external_type_specification]
#[verifier::external_body]
pub struct ExHttpError(httparse::Error);

/// What the request-head parser reports for a buffer, given room for a number
/// of headers.
pub enum HeadOutcome {
    /// The head is complete and spans the first `len` bytes.
    Complete {
        len: usize,
        method: Seq<char>,
        path: Seq<char>,
        headers: Seq<(Seq<char>, Seq<u8>)>,
    },
    /// No invalid byte was found, but the head does not end in the buffer.
    Partial,
    /// An invalid byte was found.
    Invalid(httparse::Error),
}

/// What the request-head parser reports on `data` with room for `max_headers`.
pub uninterp spec fn request_head(data: Seq<u8>, max_headers: nat) -> HeadOutcome;

/// The text that lossy UTF-8 decoding makes of `bytes`.
pub uninterp spec fn lossy_utf8(bytes: Seq<u8>) -> Seq<char>;

/// A head reported by the parser, with header values still as bytes.
pub struct RawHead {
    pub len: usize,
    pub method: String,
    pub path: String,
    pub headers: Vec<(String, Vec<u8>)>,
}

pub open spec fn raw_header_views(hs: Seq<(String, Vec<u8>)>) -> Seq<(Seq<char>, Seq<u8>)> {
    hs.map_values(|h: (String, Vec<u8>)| (h.0@, h.1@))
}

pub open spec fn outcome_of(r: Result<Option<RawHead>, httparse::Error>) -> HeadOutcome {
    match r {
        Ok(Some(h)) => HeadOutcome::Complete {
            len: h.len,
            method: h.method@,
            path: h.path@,
            headers: raw_header_views(h.headers@),
        },
        Ok(None) => HeadOutcome::Partial,
        Err(e) => HeadOutcome::Invalid(e),
    }
}

/// `head` ends with a line feed that closes an empty line.
pub open spec fn ends_with_blank_line(head: Seq<u8>) -> bool {
    let n = head.len();
    n >= 2 && head[n - 1] == 10u8 && (head[n - 2] == 10u8 || (n >= 3 && head[n - 2] == 13u8
        && head[n - 3] == 10u8))
}

/// Some prefix of `data` ends with an empty line, which closes a head.
pub open spec fn head_closed(data: Seq<u8>) -> bool {
    exists|n: int| 0 <= n <= data.len() && ends_with_blank_line(#[trigger] data.take(n))
}

/// Relies on httparse::Request::parse: its outcome on the buffer, with room
/// for `max_headers` headers. A complete head lies within the buffer and its
/// last line is empty.
#[verifier::external_body]
fn parse_head(data: &[u8], max_headers: usize) -> (r: Result<Option<RawHead>, httparse::Error>)
    ensures
        outcome_of(r) == request_head(data@, max_headers as nat),
        r matches Ok(Some(h)) ==> h.len <= data@.len() && ends_with_blank_line(
            data@.take(h.len as int),
        ),
{
    let mut room = vec![httparse::EMPTY_HEADER; max_headers];
    let mut req = httparse::Request::new(&mut room);
    match req.parse(data)? {
        httparse::Status::Complete(len) => Ok(Some(RawHead {
            len,
            method: req.method.unwrap_or_default().to_string(),
            path: req.path.unwrap_or_default().to_string(),
            headers: req.headers.iter().map(|h| (h.name.to_string(), h.value.to_vec())).collect(),
        })),
        httparse::Status::Partial => Ok(None),
    }
}

/// Relies on String::from_utf8_lossy: valid UTF-8 decodes as it is, the rest
/// is replaced, never rejected.
#[verifier::external_body]
fn decode_lossy(bytes: &[u8]) -> (r: String)
    ensures
        r@ == lossy_utf8(bytes@),
        valid_utf8(bytes@) ==> r@ == decode_utf8(bytes@),
{
    String::from_utf8_lossy(bytes).into_owned()
}

/// Why a datagram could not be read as a request.
#[derive(Debug, PartialEq, Eq)]
pub enum NotifyError {
    /// The head does not end within the datagram.
    Incomplete,
    /// The request line or a header breaks the grammar.
    ParseError(httparse::Error),
    /// A socket operation failed; the text describes it.
    IoError(String),
}

/// A datagram as received: who sent it and its bytes.
#[derive(Debug, Clone)]
pub struct NotifyMessage {
    pub remote_addr: PeerAddr,
    pub data: Vec<u8>,
}

/// A request read from a datagram.
#[derive(Debug, Clone)]
pub struct NotifyRequest {
    pub remote_addr: PeerAddr,
    pub method: String,
    pub path: String,
    pub headers: Vec<(String, String)>,
    pub body: String,
}

/// A reply to send back to a peer.
#[derive(Debug, Clone)]
pub struct NotifyResponse {
    pub remote_addr: PeerAddr,
    pub status_code: u16,
    pub headers: Vec<(String, String)>,
    pub body: String,
}

pub open spec fn header_views(hs: Seq<(String, String)>) -> Seq<(Seq<char>, Seq<char>)> {
    hs.map_values(|h: (String, String)| (h.0@, h.1@))
}

/// Header values decoded from bytes, names kept.
pub open spec fn decoded_headers(hs: Seq<(Seq<char>, Seq<u8>)>) -> Seq<(Seq<char>, Seq<char>)> {
    hs.map_values(|h: (Seq<char>, Seq<u8>)| (h.0, lossy_utf8(h.1)))
}

/// What reading `data` from `remote_addr` yields.
pub open spec fn parse_result(
    remote_addr: PeerAddr,
    data: Seq<u8>,
    q: Result<NotifyRequest, NotifyError>,
) -> bool {
    request_from_outcome(remote_addr, data, request_head(data, MAX_HEADERS as nat), q)
}

/// What reading `data` from `remote_addr` yields when the head parser reports
/// `outcome`.
pub open spec fn request_from_outcome(
    remote_addr: PeerAddr,
    data: Seq<u8>,
    outcome: HeadOutcome,
    q: Result<NotifyRequest, NotifyError>,
) -> bool {
    match outcome {
        HeadOutcome::Complete { len, method, path, headers } => q matches Ok(req) && req.remote_addr
            == remote_addr && req.method@ == method && req.path@ == path && header_views(
            req.headers@,
        ) == decoded_headers(headers) && req.body@ == lossy_utf8(data.skip(len as int)),
        HeadOutcome::Partial => q matches Err(NotifyError::Incomplete),
        HeadOutcome::Invalid(e) => q matches Err(NotifyError::ParseError(f)) && f == e,
    }
}

/// Some header named `name` (ASCII case ignored) has a value for which `pred` holds.
pub open spec fn some_header(
    hs: Seq<(Seq<char>, Seq<char>)>,
    name: Seq<char>,
    pred: spec_fn(Seq<char>) -> bool,
) -> bool {
    exists|i: int| 0 <= i < hs.len() && eq_ignore_ascii_case(#[trigger] hs[i].0, name) && pred(hs[i].1)
}

/// Header lookups ignore the ASCII case of the name: two names that differ
/// only in it find the same headers.
pub proof fn lemma_header_name_case(
    hs: Seq<(Seq<char>, Seq<char>)>,
    a: Seq<char>,
    b: Seq<char>,
    pred: spec_fn(Seq<char>) -> bool,
)
    requires
        eq_ignore_ascii_case(a, b),
    ensures
        some_header(hs, a, pred) == some_header(hs, b, pred),
{
    assert forall|i: int| 0 <= i < hs.len() implies eq_ignore_ascii_case(hs[i].0, a)
        == eq_ignore_ascii_case(hs[i].0, b) by {
        if eq_ignore_ascii_case(hs[i].0, a) {
            assert forall|k: int| 0 <= k < b.len() implies #[trigger] char_eq_ignore_ascii_case(
                hs[i].0[k],
                b[k],
            ) by {
                assert(char_eq_ignore_ascii_case(hs[i].0[k], a[k]));
                assert(char_eq_ignore_ascii_case(a[k], b[k]));
            }
        }
        if eq_ignore_ascii_case(hs[i].0, b) {
            assert forall|k: int| 0 <= k < a.len() implies #[trigger] char_eq_ignore_ascii_case(
                hs[i].0[k],
                a[k],
            ) by {
                assert(char_eq_ignore_ascii_case(hs[i].0[k], b[k]));
                assert(char_eq_ignore_ascii_case(a[k], b[k]));
            }
        }
    }
    if some_header(hs, a, pred) {
        let i = choose|i: int| 0 <= i < hs.len() && eq_ignore_ascii_case(#[trigger] hs[i].0, a) && pred(hs[i].1);
        assert(eq_ignore_ascii_case(hs[i].0, b));
    }
    if some_header(hs, b, pred) {
        let i = choose|i: int| 0 <= i < hs.len() && eq_ignore_ascii_case(#[trigger] hs[i].0, b) && pred(hs[i].1);
        assert(eq_ignore_ascii_case(hs[i].0, a));
    }
}

/// Where no header has the name, no lookup by that name succeeds, whatever
/// is asked of the value.
pub proof fn lemma_absent_header(
    hs: Seq<(Seq<char>, Seq<char>)>,
    name: Seq<char>,
    pred: spec_fn(Seq<char>) -> bool,
)
    requires
        forall|i: int| 0 <= i < hs.len() ==> !eq_ignore_ascii_case(#[trigger] hs[i].0, name),
    ensures
        !some_header(hs, name, pred),
{
}

impl NotifyMessage {
    pub fn new(remote_addr: PeerAddr, data: Vec<u8>) -> (r: Self)
        ensures
            r.remote_addr == remote_addr,
            r.data@ == data@,
    {
        NotifyMessage { remote_addr, data }
    }

    /// Reads the datagram as a request.
    pub fn parse(&self) -> (r: Result<NotifyRequest, NotifyError>)
        ensures
            parse_result(self.remote_addr, self.data@, r),
    {
        NotifyRequest::parse(self.remote_addr, self.data.as_slice())
    }
}

impl NotifyRequest {
    /// Reads a request line, headers and body from one datagram.
    pub fn parse(remote_addr: PeerAddr, data: &[u8]) -> (r: Result<Self, NotifyError>)
        ensures
            parse_result(remote_addr, data@, r),
            r is Ok ==> head_closed(data@),
    {
        let head = parse_head(data, MAX_HEADERS);
        assert(head matches Ok(Some(raw)) ==> ends_with_blank_line(data@.take(raw.len as int)));
        Self::from_head(remote_addr, data, head)
    }

    /// Builds the request from what the head parser reported on `data`:
    /// header values and the bytes after the head are decoded lossily.
    pub fn from_head(
        remote_addr: PeerAddr,
        data: &[u8],
        head: Result<Option<RawHead>, httparse::Error>,
    ) -> (r: Result<Self, NotifyError>)
        requires
            head matches Ok(Some(raw)) ==> raw.len <= data@.len(),
        ensures
            request_from_outcome(remote_addr, data@, outcome_of(head), r),
    {
        match head {
            Err(e) => Err(NotifyError::ParseError(e)),
            Ok(None) => Err(NotifyError::Incomplete),
            Ok(Some(raw)) => {
                let ghost raw_views = raw_header_views(raw.headers@);
                let mut headers: Vec<(String, String)> = Vec::new();
                let mut i: usize = 0;
                while i < raw.headers.len()
                    invariant
                        i <= raw.headers@.len(),
                        raw_views == raw_header_views(raw.headers@),
                        header_views(headers@) =~= decoded_headers(raw_views.take(i as int)),
                    decreases raw.headers@.len() - i,
                {
                    let name = raw.headers[i].0.clone();
                    let value = decode_lossy(raw.headers[i].1.as_slice());
                    let ghost before = headers@;
                    headers.push((name, value));
                    proof {
                        assert(headers@ =~= before.push((name, value)));
                        assert(header_views(headers@) =~= header_views(before).push((name@, value@)));
                        assert(raw_views[i as int] == (raw.headers@[i as int].0@, raw.headers@[i as int].1@));
                        assert(raw_views.take(i + 1) =~= raw_views.take(i as int).push(raw_views[i as int]));
                    }
                    i = i + 1;
                }
                assert(raw_views.take(i as int) =~= raw_views);
                let rest = vstd::slice::slice_subrange(data, raw.len, data.len());
                assert(rest@ =~= data@.skip(raw.len as int));
                let body = decode_lossy(rest);
                Ok(NotifyRequest { remote_addr, method: raw.method, path: raw.path, headers, body })
            },
        }
    }

    /// Some header named `name`, ASCII case ignored, has a value that holds
    /// `value` as a substring.
    pub fn header_contains(&self, name: &str, value: &str) -> (r: bool)
        ensures
            r == some_header(header_views(self.headers@), name@, |v: Seq<char>| contains(v, value@)),
    {
        let ghost hs = header_views(self.headers@);
        let mut i: usize = 0;
        while i < self.headers.len()
            invariant
                i <= self.headers@.len(),
                hs == header_views(self.headers@),
                forall|j: int| 0 <= j < i ==> !(eq_ignore_ascii_case(#[trigger] hs[j].0, name@) && contains(hs[j].1, value@)),
            decreases self.headers@.len() - i,
        {
            let (h_name, h_value) = &self.headers[i];
            if str_eq_ignore_ascii_case(h_name.as_str(), name) && str_contains(h_value.as_str(), value) {
                assert(hs[i as int].0 == h_name@);
                return true;
            }
            i = i + 1;
        }
        false
    }

    /// Some header named `name` has the value `value`, ASCII case ignored in both.
    pub fn header_match(&self, name: &str, value: &str) -> (r: bool)
        ensures
            r == some_header(header_views(self.headers@), name@, |v: Seq<char>| eq_ignore_ascii_case(v, value@)),
    {
        let ghost hs = header_views(self.headers@);
        let mut i: usize = 0;
        while i < self.headers.len()
            invariant
                i <= self.headers@.len(),
                hs == header_views(self.headers@),
                forall|j: int| 0 <= j < i ==> !(eq_ignore_ascii_case(#[trigger] hs[j].0, name@) && eq_ignore_ascii_case(hs[j].1, value@)),
            decreases self.headers@.len() - i,
        {
            let (h_name, h_value) = &self.headers[i];
            if str_eq_ignore_ascii_case(h_name.as_str(), name) && str_eq_ignore_ascii_case(h_value.as_str(), value) {
                assert(hs[i as int].0 == h_name@);
                return true;
            }
            i = i + 1;
        }
        false
    }
}

/// The decimal digit for `d`.
pub open spec fn digit(d: nat) -> char {
    if d == 0 { '0' } else if d == 1 { '1' } else if d == 2 { '2' } else if d == 3 { '3' }
    else if d == 4 { '4' } else if d == 5 { '5' } else if d == 6 { '6' } else if d == 7 { '7' }
    else if d == 8 { '8' } else { '9' }
}

/// `n` written in base ten, without sign or leading zeros.
pub open spec fn decimal(n: nat) -> Seq<char>
    decreases n,
{
    if n < 10 {
        seq![digit(n)]
    } else {
        decimal(n / 10).push(digit(n % 10))
    }
}

/// Relies on the `Display` of u32 (through `to_string`): base ten digits,
/// without sign or padding.
#[verifier::external_body]
pub(crate) fn decimal_text(n: u32) -> (r: String)
    ensures
        r@ == decimal(n as nat),
{
    n.to_string()
}

/// Header lines, each `name: value` closed by CR LF, in order.
pub open spec fn header_block(hs: Seq<(Seq<char>, Seq<char>)>) -> Seq<char>
    decreases hs.len(),
{
    if hs.len() == 0 {
        Seq::empty()
    } else {
        header_block(hs.drop_last()) + hs.last().0 + ": "@ + hs.last().1 + "\r\n"@
    }
}

/// A whole message: start line, header lines, an empty line, the body.
pub open spec fn message_text(
    start_line: Seq<char>,
    hs: Seq<(Seq<char>, Seq<char>)>,
    body: Seq<char>,
) -> Seq<char> {
    start_line + "\r\n"@ + header_block(hs) + "\r\n"@ + body
}

/// The reason phrase sent with a status code.
pub open spec fn reason_phrase(code: u16) -> Seq<char> {
    if code == 200 {
        "OK"@
    } else {
        ""@
    }
}

/// The status line of a response with `code`.
pub open spec fn status_line(code: u16) -> Seq<char> {
    "HTTP/1.1 "@ + decimal(code as nat) + " "@ + reason_phrase(code)
}

/// Serialises a start line, headers in order and a body as UTF-8 bytes.
pub fn encode_message(start_line: &str, headers: &Vec<(String, String)>, body: &str) -> (r: Vec<u8>)
    ensures
        r@ == encode_utf8(message_text(start_line@, header_views(headers@), body@)),
{
    let ghost hs = header_views(headers@);
    let mut text = String::from_str(start_line);
    text.append("\r\n");
    let mut i: usize = 0;
    while i < headers.len()
        invariant
            i <= headers@.len(),
            hs == header_views(headers@),
            text@ == start_line@ + "\r\n"@ + header_block(hs.take(i as int)),
        decreases headers@.len() - i,
    {
        let (name, value) = &headers[i];
        proof {
            assert(hs.take(i + 1).drop_last() =~= hs.take(i as int));
            assert(hs[i as int] == (name@, value@));
        }
        text.append(name.as_str());
        text.append(": ");
        text.append(value.as_str());
        text.append("\r\n");
        i = i + 1;
    }
    assert(hs.take(i as int) =~= hs);
    text.append("\r\n");
    text.append(body);
    text.as_str().as_bytes_vec()
}

impl NotifyResponse {
    /// The bytes sent for this response: status line, headers in order, an
    /// empty line and the body.
    pub fn encode(&self) -> (r: Vec<u8>)
        ensures
            r@ == encode_utf8(message_text(status_line(self.status_code), header_views(self.headers@), self.body@)),
    {
        let mut line = String::from_str("HTTP/1.1 ");
        let code = decimal_text(self.status_code as u32);
        line.append(code.as_str());
        line.append(" ");
        if self.status_code == 200 {
            line.append("OK");
        } else {
            proof {
                reveal_strlit("");
            }
            assert(line@ =~= line@ + ""@);
        }
        encode_message(line.as_str(), &self.headers, self.body.as_str())
    }
}

} // verus!
