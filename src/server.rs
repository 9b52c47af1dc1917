use vstd::prelude::*;
use vstd::utf8::encode_utf8;
use crate::addr::PeerAddr;
use crate::device::{Device, DeviceView, Registry, RegistryError, has_usn, matching};
use crate::notify::{
    HeadOutcome, MAX_HEADERS, NotifyMessage, NotifyRequest, NotifyResponse, decimal,
    decimal_text, decoded_headers, encode_message, header_views, message_text, request_head,
};
use crate::text::{eq_ignore_ascii_case, str_eq, str_eq_ignore_ascii_case};

verus! {

/// The phase a server is in.
#[derive(Clone, Copy, Debug, PartialEq, Eq)]
pub enum ServerState {
    Stopped,
    Starting,
    Running,
    Stopping,
}

/// Why a server could not move on.
#[derive(Debug, PartialEq, Eq)]
pub enum ServerError {
    /// The multicast socket could not be bound or could not join the group.
    BindError,
    /// The call does not fit the phase the server is in.
    InvalidState,
}

/// What a request asks of this host.
#[derive(Clone, Copy, Debug, PartialEq, Eq)]
pub enum RequestKind {
    /// A search for devices.
    Search,
    /// A peer's announcement.
    Alive,
    /// Anything else.
    Unknown,
}

/// The value of the first header named `name`, ASCII case ignored.
pub open spec fn first_value(hs: Seq<(Seq<char>, Seq<char>)>, name: Seq<char>) -> Option<Seq<char>>
    decreases hs.len(),
{
    if hs.len() == 0 {
        None
    } else if eq_ignore_ascii_case(hs[0].0, name) {
        Some(hs[0].1)
    } else {
        first_value(hs.drop_first(), name)
    }
}

/// The cache lifetime as a header value.
pub open spec fn max_age_value(max_age: u32) -> Seq<char> {
    "max-age="@ + decimal(max_age as nat)
}

/// The headers of a reply to a search, for device `d`.
pub open spec fn search_headers(d: DeviceView) -> Seq<(Seq<char>, Seq<char>)> {
    seq![
        ("CACHE-CONTROL"@, max_age_value(d.max_age)),
        ("EXT"@, ""@),
        ("LOCATION"@, d.location),
        ("SERVER"@, d.server),
        ("ST"@, d.st),
        ("USN"@, d.usn),
    ]
}

/// The headers of an announcement of device `d` with sub-type `nts`.
pub open spec fn notify_headers(d: DeviceView, nts: Seq<char>) -> Seq<(Seq<char>, Seq<char>)> {
    seq![
        ("HOST"@, "239.255.255.250:1900"@),
        ("CACHE-CONTROL"@, max_age_value(d.max_age)),
        ("LOCATION"@, d.location),
        ("NT"@, d.st),
        ("NTS"@, nts),
        ("SERVER"@, d.server),
        ("USN"@, d.usn),
    ]
}

/// The bytes multicast to announce device `d` with sub-type `nts`.
pub open spec fn announcement(d: DeviceView, nts: Seq<char>) -> Seq<u8> {
    encode_utf8(message_text("NOTIFY * HTTP/1.1"@, notify_headers(d, nts), Seq::empty()))
}

/// One announcement per device, in order.
pub open spec fn announcements(ds: Seq<DeviceView>, nts: Seq<char>) -> Seq<Seq<u8>> {
    ds.map_values(|d: DeviceView| announcement(d, nts))
}

pub open spec fn byte_views(vs: Seq<Vec<u8>>) -> Seq<Seq<u8>> {
    vs.map_values(|v: Vec<u8>| v@)
}

/// `r` is the reply to a search sent from `to`, for device `d`.
pub open spec fn is_search_reply(r: NotifyResponse, to: PeerAddr, d: DeviceView) -> bool {
    r.remote_addr == to && r.status_code == 200 && header_views(r.headers@) == search_headers(d)
        && r.body@.len() == 0
}

/// `rs` holds one reply per device of `ds`, in order.
pub open spec fn are_search_replies(rs: Seq<NotifyResponse>, to: PeerAddr, ds: Seq<DeviceView>) -> bool {
    rs.len() == ds.len() && forall|i: int| 0 <= i < rs.len() ==> is_search_reply(#[trigger] rs[i], to, ds[i])
}

/// The devices that answer the datagram `data` from a registry holding `ds`:
/// none unless it is a complete `M-SEARCH` request with a search target.
pub open spec fn devices_to_answer(ds: Seq<DeviceView>, data: Seq<u8>) -> Seq<DeviceView> {
    match request_head(data, MAX_HEADERS as nat) {
        HeadOutcome::Complete { method, headers, .. } => {
            match first_value(decoded_headers(headers), "ST"@) {
                Some(st) => if method == "M-SEARCH"@ { matching(ds, st) } else { Seq::empty() },
                None => Seq::empty(),
            }
        },
        _ => Seq::empty(),
    }
}

/// The classification of a request method.
pub open spec fn kind_of(method: Seq<char>) -> RequestKind {
    if method == "M-SEARCH"@ {
        RequestKind::Search
    } else if method == "NOTIFY"@ {
        RequestKind::Alive
    } else {
        RequestKind::Unknown
    }
}

/// Tells what a request asks of this host, by its method.
pub fn classify(req: &NotifyRequest) -> (r: RequestKind)
    ensures
        r == kind_of(req.method@),
{
    if str_eq(req.method.as_str(), "M-SEARCH") {
        RequestKind::Search
    } else if str_eq(req.method.as_str(), "NOTIFY") {
        RequestKind::Alive
    } else {
        RequestKind::Unknown
    }
}

/// The value of the first header of `req` named `name`, ASCII case ignored.
pub fn first_header(req: &NotifyRequest, name: &str) -> (r: Option<String>)
    ensures
        r matches Some(v) ==> first_value(header_views(req.headers@), name@) == Some(v@),
        r is None ==> first_value(header_views(req.headers@), name@) is None,
{
    let ghost hs = header_views(req.headers@);
    assert(hs.skip(0) =~= hs);
    let mut i: usize = 0;
    while i < req.headers.len()
        invariant
            i <= hs.len(),
            hs == header_views(req.headers@),
            first_value(hs, name@) == first_value(hs.skip(i as int), name@),
        decreases hs.len() - i,
    {
        let (h_name, h_value) = &req.headers[i];
        assert(hs.skip(i as int)[0] == (h_name@, h_value@));
        if str_eq_ignore_ascii_case(h_name.as_str(), name) {
            return Some(h_value.clone());
        }
        assert(hs.skip(i as int).drop_first() =~= hs.skip(i + 1));
        i = i + 1;
    }
    assert(hs.skip(i as int).len() == 0);
    None
}

fn text(s: &str) -> (r: String)
    ensures
        r@ == s@,
{
    String::from_str(s)
}

fn max_age_text(max_age: u32) -> (r: String)
    ensures
        r@ == max_age_value(max_age),
{
    let mut v = text("max-age=");
    let n = decimal_text(max_age);
    v.append(n.as_str());
    v
}

/// The reply to a search sent from `to`, describing `d`.
pub fn search_reply(d: &Device, to: PeerAddr) -> (r: NotifyResponse)
    ensures
        is_search_reply(r, to, d@),
{
    let mut headers: Vec<(String, String)> = Vec::new();
    headers.push((text("CACHE-CONTROL"), max_age_text(d.max_age)));
    headers.push((text("EXT"), text("")));
    headers.push((text("LOCATION"), d.location.clone()));
    headers.push((text("SERVER"), d.server.clone()));
    headers.push((text("ST"), d.st.clone()));
    headers.push((text("USN"), d.usn.clone()));
    assert(header_views(headers@) =~= search_headers(d@));
    let body = String::new();
    NotifyResponse { remote_addr: to, status_code: 200, headers, body }
}

/// The bytes that announce `d` with sub-type `nts`.
pub fn announce(d: &Device, nts: &str) -> (r: Vec<u8>)
    ensures
        r@ == announcement(d@, nts@),
{
    let mut headers: Vec<(String, String)> = Vec::new();
    headers.push((text("HOST"), text("239.255.255.250:1900")));
    headers.push((text("CACHE-CONTROL"), max_age_text(d.max_age)));
    headers.push((text("LOCATION"), d.location.clone()));
    headers.push((text("NT"), d.st.clone()));
    headers.push((text("NTS"), text(nts)));
    headers.push((text("SERVER"), d.server.clone()));
    headers.push((text("USN"), d.usn.clone()));
    assert(header_views(headers@) =~= notify_headers(d@, nts@));
    let body = String::new();
    proof {
        assert(body@ =~= Seq::<char>::empty());
    }
    encode_message("NOTIFY * HTTP/1.1", &headers, body.as_str())
}

/// The alive announcements that server `s` multicasts on a tick.
pub open spec fn alive_batch(s: Server) -> Seq<Seq<u8>> {
    if s.state == ServerState::Running {
        announcements(s.registry@, "ssdp:alive"@)
    } else {
        Seq::empty()
    }
}

/// Holds after `shutdown` took `before` to `after`, multicasting `sent`.
pub open spec fn shut_down(before: Server, after: Server, sent: Seq<Seq<u8>>) -> bool {
    if before.state == ServerState::Running {
        &&& sent == announcements(before.registry@, "ssdp:byebye"@)
        &&& after.state == ServerState::Stopping
        &&& after.registry@.len() == 0
    } else {
        &&& sent.len() == 0
        &&& after.state == before.state
        &&& after.registry@ == before.registry@
    }
}

/// Shutting down a running server with N devices multicasts exactly N
/// byebye messages, one per device in order, and no alive message follows.
pub proof fn lemma_shutdown_byebye(before: Server, after: Server, sent: Seq<Seq<u8>>)
    requires
        before.state == ServerState::Running,
        shut_down(before, after, sent),
    ensures
        sent.len() == before.registry@.len(),
        forall|i: int| 0 <= i < sent.len() ==> #[trigger] sent[i] == announcement(before.registry@[i], "ssdp:byebye"@),
        alive_batch(after).len() == 0,
{
}

/// The discovery server: its phase and the devices it advertises. The socket,
/// the timer and the cancellation signal belong to the caller, which hands
/// each event to the matching method and performs what it returns.
pub struct Server {
    pub state: ServerState,
    pub registry: Registry,
}

impl Server {
    pub open spec fn wf(&self) -> bool {
        self.registry.wf()
    }

    /// A stopped server with no devices.
    pub fn new() -> (r: Server)
        ensures
            r.wf(),
            r.state == ServerState::Stopped,
            r.registry@.len() == 0,
    {
        Server { state: ServerState::Stopped, registry: Registry::new() }
    }

    /// Registers a device; see `Registry::register`.
    pub fn register(&mut self, device: Device) -> (r: Result<(), RegistryError>)
        requires
            old(self).wf(),
        ensures
            final(self).wf(),
            final(self).state == old(self).state,
            r is Err <==> has_usn(old(self).registry@, device@.usn),
            r is Err ==> final(self).registry@ == old(self).registry@,
            r is Ok ==> final(self).registry@ == old(self).registry@.push(device@),
    {
        self.registry.register(device)
    }

    /// Leaves `Stopped` for `Starting`, where the caller acquires the socket.
    pub fn begin_start(&mut self) -> (r: Result<(), ServerError>)
        ensures
            final(self).registry == old(self).registry,
            old(self).state == ServerState::Stopped ==> r is Ok && final(self).state
                == ServerState::Starting,
            old(self).state != ServerState::Stopped ==> r == Err::<(), ServerError>(
                ServerError::InvalidState,
            ) && final(self).state == old(self).state,
    {
        match self.state {
            ServerState::Stopped => {
                self.state = ServerState::Starting;
                Ok(())
            },
            _ => Err(ServerError::InvalidState),
        }
    }

    /// Records whether the socket was bound and joined the group: the server
    /// runs, or falls back to `Stopped` with `BindError`.
    pub fn bound(&mut self, joined: bool) -> (r: Result<(), ServerError>)
        ensures
            final(self).registry == old(self).registry,
            old(self).state == ServerState::Starting && joined ==> r is Ok && final(self).state
                == ServerState::Running,
            old(self).state == ServerState::Starting && !joined ==> r == Err::<(), ServerError>(
                ServerError::BindError,
            ) && final(self).state == ServerState::Stopped,
            old(self).state != ServerState::Starting ==> r == Err::<(), ServerError>(
                ServerError::InvalidState,
            ) && final(self).state == old(self).state,
    {
        match self.state {
            ServerState::Starting => {
                if joined {
                    self.state = ServerState::Running;
                    Ok(())
                } else {
                    self.state = ServerState::Stopped;
                    Err(ServerError::BindError)
                }
            },
            _ => Err(ServerError::InvalidState),
        }
    }

    /// The replies to one received datagram, each to be sent to its
    /// `remote_addr`. Only a running server answers, and only an `M-SEARCH`
    /// request; datagrams that do not parse are dropped.
    pub fn on_datagram(&self, msg: &NotifyMessage) -> (r: Vec<NotifyResponse>)
        ensures
            self.state == ServerState::Running ==> are_search_replies(
                r@,
                msg.remote_addr,
                devices_to_answer(self.registry@, msg.data@),
            ),
            self.state != ServerState::Running ==> r@.len() == 0,
    {
        let mut out: Vec<NotifyResponse> = Vec::new();
        match self.state {
            ServerState::Running => {},
            _ => {
                return out;
            },
        }
        let parsed = msg.parse();
        let req = match parsed {
            Ok(req) => req,
            Err(_) => {
                return out;
            },
        };
        match classify(&req) {
            RequestKind::Search => {},
            _ => {
                return out;
            },
        }
        let st = match first_header(&req, "ST") {
            Some(st) => st,
            None => {
                return out;
            },
        };
        let found = self.registry.find_matching(st.as_str());
        let ghost ds = devices_to_answer(self.registry@, msg.data@);
        assert(ds == crate::device::device_views(found@));
        let mut i: usize = 0;
        while i < found.len()
            invariant
                i <= found@.len(),
                ds == crate::device::device_views(found@),
                out@.len() == i,
                forall|j: int| 0 <= j < i ==> is_search_reply(#[trigger] out@[j], msg.remote_addr, ds[j]),
            decreases found@.len() - i,
        {
            let reply = search_reply(&found[i], msg.remote_addr);
            out.push(reply);
            i = i + 1;
        }
        out
    }

    /// The alive announcements to multicast when the announce interval
    /// elapses: one per device while running, none otherwise.
    pub fn on_tick(&self) -> (r: Vec<Vec<u8>>)
        ensures
            byte_views(r@) == alive_batch(*self),
    {
        match self.state {
            ServerState::Running => self.announce_all("ssdp:alive"),
            _ => {
                let r: Vec<Vec<u8>> = Vec::new();
                assert(byte_views(r@) =~= Seq::<Seq<u8>>::empty());
                r
            },
        }
    }

    fn announce_all(&self, nts: &str) -> (r: Vec<Vec<u8>>)
        ensures
            byte_views(r@) == announcements(self.registry@, nts@),
    {
        let ghost ds = self.registry@;
        let mut out: Vec<Vec<u8>> = Vec::new();
        let mut i: usize = 0;
        while i < self.registry.len()
            invariant
                ds == self.registry@,
                i <= ds.len(),
                byte_views(out@) =~= announcements(ds.take(i as int), nts@),
            decreases ds.len() - i,
        {
            let bytes = announce(self.registry.get(i), nts);
            let ghost before = out@;
            out.push(bytes);
            assert(out@ =~= before.push(bytes));
            assert(ds.take(i + 1) =~= ds.take(i as int).push(ds[i as int]));
            assert(byte_views(out@) =~= byte_views(before).push(bytes@));
            assert(announcements(ds.take(i + 1), nts@) =~= announcements(ds.take(i as int), nts@).push(
                announcement(ds[i as int], nts@),
            ));
            i = i + 1;
        }
        assert(ds.take(i as int) =~= ds);
        out
    }

    /// On cancellation of a running server: one byebye multicast per device,
    /// after which the registry is empty and the server is `Stopping`. In any
    /// other phase nothing happens.
    pub fn shutdown(&mut self) -> (r: Vec<Vec<u8>>)
        requires
            old(self).wf(),
        ensures
            final(self).wf(),
            shut_down(*old(self), *final(self), byte_views(r@)),
    {
        match self.state {
            ServerState::Running => {
                let r = self.announce_all("ssdp:byebye");
                self.registry.clear();
                self.state = ServerState::Stopping;
                r
            },
            _ => {
                let r: Vec<Vec<u8>> = Vec::new();
                assert(byte_views(r@) =~= Seq::<Seq<u8>>::empty());
                r
            },
        }
    }

    /// Once the socket is released: `Stopping` becomes `Stopped`.
    pub fn released(&mut self)
        ensures
            final(self).registry == old(self).registry,
            old(self).state == ServerState::Stopping ==> final(self).state == ServerState::Stopped,
            old(self).state != ServerState::Stopping ==> final(self).state == old(self).state,
    {
        match self.state {
            ServerState::Stopping => {
                self.state = ServerState::Stopped;
            },
            _ => {},
        }
    }
}

} // verus!
