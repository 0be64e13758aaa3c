//! The CONNECT proxy: which requests it understands, which destinations it lets through, and
//! what it answers and logs.

use vstd::prelude::*;

use crate::number;
use crate::text;

verus! {

/// The most bytes of request header that are read.
pub const MAX_HEADER_BYTES: usize = 8192;

// ---------------------------------------------------------------------------
// Errors
// ---------------------------------------------------------------------------

/// Why the proxy does not start, or gives up on a connection.
#[derive(Debug)]
pub enum ProxyError {
    /// Neither a bind address nor an address in the policy.
    NoListenAddress,
    /// The policy's address, given here as text, is not a loopback address.
    NotLoopback(String),
    /// The CONNECT target, given here, has no port.
    MissingPort(String),
    /// The CONNECT target, given here, has a port that is no 16-bit number.
    InvalidPort(String),
}

impl ProxyError {
    /// The text of an error.
    pub open spec fn text(self) -> Seq<char> {
        match self {
            ProxyError::NoListenAddress =>
                "Proxy policy must set http_addr or provide a bind address"@,
            ProxyError::NotLoopback(addr) => "Proxy http_addr must be loopback-only: "@ + addr@,
            ProxyError::MissingPort(target) => "CONNECT target missing port: "@ + target@,
            ProxyError::InvalidPort(target) => "Invalid port in CONNECT target: "@ + target@,
        }
    }

    /// The error as a message.
    pub fn message(&self) -> (s: String)
        ensures
            s@ == self.text(),
    {
        match self {
            ProxyError::NoListenAddress =>
                "Proxy policy must set http_addr or provide a bind address".to_owned(),
            ProxyError::NotLoopback(addr) => {
                "Proxy http_addr must be loopback-only: ".to_owned().concat(addr.as_str())
            },
            ProxyError::MissingPort(target) => {
                "CONNECT target missing port: ".to_owned().concat(target.as_str())
            },
            ProxyError::InvalidPort(target) => {
                "Invalid port in CONNECT target: ".to_owned().concat(target.as_str())
            },
        }
    }
}

// ---------------------------------------------------------------------------
// Endpoints
// ---------------------------------------------------------------------------

/// An endpoint that the proxy always allows without policy evaluation.
/// Used for infrastructure endpoints like the control plane.
#[derive(Debug, Clone)]
pub struct AllowedEndpoint {
    pub host: String,
    pub port: u16,
}

impl View for AllowedEndpoint {
    type V = (Seq<char>, u16);

    open spec fn view(&self) -> (Seq<char>, u16) {
        (self.host@, self.port)
    }
}

/// What follows the scheme in an `http` or `https` URL.
pub open spec fn after_scheme(url: Seq<char>) -> Option<Seq<char>> {
    if text::begins(url, "http://"@) {
        Some(url.skip("http://"@.len() as int))
    } else if text::begins(url, "https://"@) {
        Some(url.skip("https://"@.len() as int))
    } else {
        None
    }
}

/// The host, in lower case, and the port of a URL like `http://host:port`. The port is what
/// follows the last colon.
pub open spec fn endpoint_of(url: Seq<char>) -> Option<(Seq<char>, u16)> {
    match after_scheme(url) {
        Some(rest) => {
            let k = text::last_position(rest, ':');
            match number::u16_value(rest.skip(k + 1)) {
                Some(port) if k >= 0 => Some((text::lowered(rest.take(k)), port)),
                _ => None,
            }
        },
        None => None,
    }
}

/// Parse a URL like `http://host:port` into an [`AllowedEndpoint`].
///
/// Strips the scheme and extracts host + port. Returns `None` if the
/// URL can't be parsed.
pub fn parse_endpoint_url(url: &str) -> (r: Option<AllowedEndpoint>)
    ensures
        r is Some <==> endpoint_of(url@) is Some,
        r matches Some(ep) ==> endpoint_of(url@) == Some(ep@),
{
    let without_scheme = match text::strip_prefix(url, "http://") {
        Some(rest) => rest,
        None => match text::strip_prefix(url, "https://") {
            Some(rest) => rest,
            None => {
                return None;
            },
        },
    };
    match text::rsplit_once(without_scheme.as_str(), ':') {
        Some((host, port_str)) => match number::parse_u16(port_str.as_str()) {
            Some(port) => Some(
                AllowedEndpoint { host: text::to_ascii_lowercase(host.as_str()), port },
            ),
            None => None,
        },
        None => None,
    }
}

/// Whether `host` and `port` are one of the endpoints `eps`.
pub open spec fn listed(eps: Seq<AllowedEndpoint>, host: Seq<char>, port: u16) -> bool {
    exists|i: int| 0 <= i < eps.len() && (#[trigger] eps[i])@ == (host, port)
}

/// Whether `host` and `port` are one of `endpoints`.
pub fn is_control_plane(endpoints: &Vec<AllowedEndpoint>, host: &str, port: u16) -> (r: bool)
    ensures
        r == listed(endpoints@, host@, port),
{
    let mut i: usize = 0;
    while i < endpoints.len()
        invariant
            i <= endpoints@.len(),
            forall|j: int| 0 <= j < i ==> (#[trigger] endpoints@[j])@ != (host@, port),
        decreases endpoints@.len() - i,
    {
        if text::same(endpoints[i].host.as_str(), host) && endpoints[i].port == port {
            assert(endpoints@[i as int]@ == (host@, port));
            return true;
        }
        i += 1;
    }
    false
}

// ---------------------------------------------------------------------------
// Where to listen
// ---------------------------------------------------------------------------

/// A socket address, as far as the proxy looks at it.
#[derive(Debug)]
pub struct ListenAddr {
    /// The address as text, with its port.
    pub text: String,
    pub port: u16,
    /// Whether the IP is a loopback address.
    pub loopback: bool,
}

/// The address to listen on: `bind_addr` if there is one, else the policy's, which must be a
/// loopback address.
pub fn choose_listen_addr(
    bind_addr: Option<ListenAddr>,
    http_addr: Option<ListenAddr>,
) -> (r: Result<ListenAddr, ProxyError>)
    ensures
        match (bind_addr, http_addr) {
            (Some(addr), _) => r == Ok::<ListenAddr, ProxyError>(addr),
            (None, Some(addr)) => if addr.loopback {
                r == Ok::<ListenAddr, ProxyError>(addr)
            } else {
                r == Err::<ListenAddr, ProxyError>(ProxyError::NotLoopback(addr.text))
            },
            (None, None) => r == Err::<ListenAddr, ProxyError>(ProxyError::NoListenAddress),
        },
{
    match bind_addr {
        Some(addr) => Ok(addr),
        None => match http_addr {
            Some(addr) => if addr.loopback {
                Ok(addr)
            } else {
                Err(ProxyError::NotLoopback(addr.text))
            },
            None => Err(ProxyError::NoListenAddress),
        },
    }
}

// ---------------------------------------------------------------------------
// Reading the request
// ---------------------------------------------------------------------------

/// The four bytes that end a request header.
pub open spec fn header_end() -> Seq<u8> {
    seq![13u8, 10u8, 13u8, 10u8]
}

/// What to do for the next piece of a request header.
#[derive(Debug, PartialEq, Eq, Structural)]
pub enum HeaderStep {
    /// Read at most this many bytes more.
    Read(usize),
    /// Answer that the header is too large.
    TooLarge,
}

/// What a piece of a request header brought.
#[derive(Debug, PartialEq, Eq, Structural)]
pub enum HeaderProgress {
    /// The peer closed the connection.
    Closed,
    /// The header goes on.
    Incomplete,
    /// The header is complete.
    Complete,
}

/// The bytes of a request header read so far: never more than [`MAX_HEADER_BYTES`].
#[derive(Debug)]
pub struct HeaderBuffer {
    bytes: Vec<u8>,
}

impl View for HeaderBuffer {
    type V = Seq<u8>;

    closed spec fn view(&self) -> Seq<u8> {
        self.bytes@
    }
}

impl HeaderBuffer {
    #[verifier::type_invariant]
    spec fn well_formed(self) -> bool {
        self.bytes@.len() <= MAX_HEADER_BYTES
    }

    /// An empty buffer.
    pub fn new() -> (b: HeaderBuffer)
        ensures
            b@ == Seq::<u8>::empty(),
    {
        HeaderBuffer { bytes: Vec::new() }
    }

    /// What to do next.
    pub fn next_step(&self) -> (r: HeaderStep)
        ensures
            self@.len() <= MAX_HEADER_BYTES,
            r == (if self@.len() == MAX_HEADER_BYTES {
                HeaderStep::TooLarge
            } else {
                HeaderStep::Read((MAX_HEADER_BYTES - self@.len()) as usize)
            }),
    {
        proof {
            use_type_invariant(self);
        }
        if self.bytes.len() == MAX_HEADER_BYTES {
            HeaderStep::TooLarge
        } else {
            HeaderStep::Read(MAX_HEADER_BYTES - self.bytes.len())
        }
    }

    /// Takes the bytes of one read, none of which means that the peer closed the connection.
    pub fn feed(&mut self, chunk: &[u8]) -> (r: HeaderProgress)
        requires
            old(self)@.len() + chunk@.len() <= MAX_HEADER_BYTES,
        ensures
            final(self)@ == old(self)@ + chunk@,
            r == (if chunk@.len() == 0 {
                HeaderProgress::Closed
            } else if text::occurs(old(self)@ + chunk@, header_end()) {
                HeaderProgress::Complete
            } else {
                HeaderProgress::Incomplete
            }),
    {
        let mut bytes: Vec<u8> = Vec::new();
        std::mem::swap(&mut bytes, &mut self.bytes);
        let mut i: usize = 0;
        while i < chunk.len()
            invariant
                i <= chunk@.len(),
                bytes@ == old(self)@ + chunk@.take(i as int),
            decreases chunk@.len() - i,
        {
            bytes.push(chunk[i]);
            i += 1;
            assert(bytes@ =~= old(self)@ + chunk@.take(i as int));
        }
        assert(chunk@.take(i as int) =~= chunk@);
        let complete = ends_header(&bytes);
        self.bytes = bytes;
        if chunk.len() == 0 {
            HeaderProgress::Closed
        } else if complete {
            HeaderProgress::Complete
        } else {
            HeaderProgress::Incomplete
        }
    }

    /// The header as text.
    pub fn request(&self) -> (s: String)
        ensures
            s@ == text::lossy_text(self@),
    {
        text::utf8_lossy(self.bytes.as_slice())
    }
}

/// Whether the bytes hold the end of a header.
fn ends_header(bytes: &Vec<u8>) -> (r: bool)
    ensures
        r == text::occurs(bytes@, header_end()),
{
    let mut i: usize = 0;
    while i < bytes.len()
        invariant
            i <= bytes@.len(),
            forall|j: int| 0 <= j < i ==> !#[trigger] text::occurs_at(bytes@, header_end(), j),
        decreases bytes@.len() - i,
    {
        if bytes.len() - i >= 4 && bytes[i] == 13 && bytes[i + 1] == 10 && bytes[i + 2] == 13
            && bytes[i + 3] == 10 {
            assert(bytes@.subrange(i as int, i + 4) =~= header_end());
            assert(text::occurs_at(bytes@, header_end(), i as int));
            return true;
        }
        proof {
            if text::occurs_at(bytes@, header_end(), i as int) {
                let w = bytes@.subrange(i as int, i + 4);
                assert(w[0] == 13 && w[1] == 10 && w[2] == 13 && w[3] == 10);
            }
        }
        i += 1;
    }
    false
}

/// The length of the first line of `s`, which ends before the first CR LF.
pub open spec fn first_line_len(s: Seq<char>) -> nat
    decreases s.len(),
{
    if s.len() == 0 {
        0
    } else if s.len() >= 2 && s[0] == '\r' && s[1] == '\n' {
        0
    } else {
        1 + first_line_len(s.drop_first())
    }
}

/// The first line of `s`.
pub open spec fn first_line(s: Seq<char>) -> Seq<char> {
    s.take(first_line_len(s) as int)
}

/// The `i`th word of a line, or nothing.
pub open spec fn word_or_empty(line: Seq<char>, i: int) -> Seq<char> {
    let w = text::words_of(line);
    if i < w.len() {
        w[i]
    } else {
        Seq::empty()
    }
}

/// The first line of a request.
pub fn request_line(request: &str) -> (s: String)
    ensures
        s@ == first_line(request@),
{
    let v = text::chars(request);
    let mut i: usize = 0;
    assert(v@.skip(0) =~= request@);
    while i < v.len() && !(v.len() - i >= 2 && v[i] == '\r' && v[i + 1] == '\n')
        invariant
            i <= v@.len(),
            v@ == request@,
            first_line_len(request@) == i + first_line_len(v@.skip(i as int)),
        decreases v@.len() - i,
    {
        assert(v@.skip(i as int).drop_first() =~= v@.skip(i + 1));
        i += 1;
    }
    let s = text::slice(&v, 0, i);
    assert(first_line_len(v@.skip(i as int)) == 0);
    assert(s@ =~= request@.take(i as int));
    s
}

/// The host and port of a CONNECT target, which the first colon parts.
pub open spec fn target_of(target: Seq<char>) -> Option<(Seq<char>, u16)> {
    let k = text::run(target, text::but(':')) as int;
    match number::u16_value(target.skip(k + 1)) {
        Some(port) if target.contains(':') => Some((target.take(k), port)),
        _ => None,
    }
}

/// Reads a CONNECT target like `host:port`.
pub fn parse_target(target: &str) -> (r: Result<(String, u16), ProxyError>)
    ensures
        match r {
            Ok((host, port)) => target_of(target@) == Some((host@, port)),
            Err(ProxyError::MissingPort(t)) => !target@.contains(':') && t@ == target@,
            Err(ProxyError::InvalidPort(t)) => target@.contains(':') && target_of(target@) is None
                && t@ == target@,
            Err(_) => false,
        },
{
    match text::split_once(target, ':') {
        Some((host, port_str)) => match number::parse_u16(port_str.as_str()) {
            Some(port) => Ok((host, port)),
            None => Err(ProxyError::InvalidPort(target.to_owned())),
        },
        None => Err(ProxyError::MissingPort(target.to_owned())),
    }
}

/// What a complete request asks for.
#[derive(Debug)]
pub enum ConnectRequest {
    /// A tunnel to this host and port.
    Tunnel { host: String, port: u16 },
    /// Something that the proxy does not do.
    OtherMethod,
}

/// Reads the request line of `request`: its method is the first word and its target the second.
pub fn read_request(request: &str) -> (r: Result<ConnectRequest, ProxyError>)
    ensures
        ({
            let line = first_line(request@);
            let method = word_or_empty(line, 0);
            let target = word_or_empty(line, 1);
            match r {
                Ok(ConnectRequest::OtherMethod) => method != "CONNECT"@,
                Ok(ConnectRequest::Tunnel { host, port }) => method == "CONNECT"@ && target_of(
                    target,
                ) == Some((host@, port)),
                Err(ProxyError::MissingPort(t)) => method == "CONNECT"@ && !target.contains(':')
                    && t@ == target,
                Err(ProxyError::InvalidPort(t)) => method == "CONNECT"@ && target.contains(':')
                    && target_of(target) is None && t@ == target,
                Err(_) => false,
            }
        }),
{
    let line = request_line(request);
    let words = text::words(line.as_str());
    let method: &str = if words.len() > 0 {
        words[0].as_str()
    } else {
        ""
    };
    let target: &str = if words.len() > 1 {
        words[1].as_str()
    } else {
        ""
    };
    proof {
        reveal_strlit("");
        assert(""@ =~= Seq::<char>::empty());
    }
    if !text::same(method, "CONNECT") {
        return Ok(ConnectRequest::OtherMethod);
    }
    match parse_target(target) {
        Ok((host, port)) => Ok(ConnectRequest::Tunnel { host, port }),
        Err(e) => Err(e),
    }
}

/// A CONNECT to an endpoint that was read from a URL finds it in the allow list, whatever the
/// case of the letters in the host. Hosts with a colon are left out: the port of a URL follows
/// the last colon, that of a CONNECT target the first.
pub proof fn law_endpoint_is_reachable(
    url: Seq<char>,
    ep: AllowedEndpoint,
    host: Seq<char>,
    port_text: Seq<char>,
)
    requires
        endpoint_of(url) == Some(ep@),
        text::lowered(host) == ep.host@,
        number::u16_value(port_text) == Some(ep.port),
        !host.contains(':'),
    ensures
        target_of(host + seq![':'] + port_text) == Some((host, ep.port)),
        listed(seq![ep], text::lowered(host), ep.port),
{
    let t = host + seq![':'] + port_text;
    assert forall|i: int| 0 <= i < host.len() implies text::but(':')(#[trigger] t[i]) by {
        assert(host.contains(host[i]));
    }
    text::lemma_run_is(t, text::but(':'), host.len() as int);
    assert(t[host.len() as int] == ':');
    assert(t.take(host.len() as int) =~= host);
    assert(t.skip(host.len() as int + 1) =~= port_text);
    assert(seq![ep][0]@ == (text::lowered(host), ep.port));
}

/// The host of an endpoint that was read from a URL is in lower case.
pub proof fn law_endpoint_host_is_lower_case(url: Seq<char>, host: Seq<char>, port: u16)
    requires
        endpoint_of(url) == Some((host, port)),
    ensures
        text::lowered(host) == host,
{
    let rest = after_scheme(url)->0;
    text::lemma_lowered_idempotent(rest.take(text::last_position(rest, ':')));
}

// ---------------------------------------------------------------------------
// Laws
// ---------------------------------------------------------------------------

/// An endpoint is read from a URL of either scheme as it stands there: the host in lower case, and
/// the port whatever it is. The host is all that comes before the last colon.
pub proof fn law_endpoint_is_read_as_written(
    scheme: Seq<char>,
    host: Seq<char>,
    port_text: Seq<char>,
    port: u16,
)
    requires
        scheme == "http://"@ || scheme == "https://"@,
        !port_text.contains(':'),
    ensures
        endpoint_of(scheme + host + seq![':'] + port_text) == (match number::u16_value(port_text) {
            Some(p) => Some((text::lowered(host), p)),
            None => None,
        }),
        endpoint_of(scheme + host + seq![':'] + number::decimal(port as nat)) == Some(
            (text::lowered(host), port),
        ),
{
    let digits = number::decimal(port as nat);
    number::law_ports_are_read_as_written(digits, port);
    number::lemma_decimal_reads_back(port as nat);
    assert forall|i: int| 0 <= i < digits.len() implies digits[i] != ':' by {
        assert('0' <= digits[i] <= '9');
    }
    lemma_endpoint_parts(scheme, host, port_text);
    lemma_endpoint_parts(scheme, host, digits);
}

proof fn lemma_endpoint_parts(scheme: Seq<char>, host: Seq<char>, port_text: Seq<char>)
    requires
        scheme == "http://"@ || scheme == "https://"@,
        !port_text.contains(':'),
    ensures
        endpoint_of(scheme + host + seq![':'] + port_text) == (match number::u16_value(port_text) {
            Some(p) => Some((text::lowered(host), p)),
            None => None,
        }),
{
    reveal_strlit("http://");
    reveal_strlit("https://");
    let rest = host + seq![':'] + port_text;
    let url = scheme + host + seq![':'] + port_text;
    assert(url =~= scheme + rest);
    assert(url.subrange(0, scheme.len() as int) =~= scheme);
    assert(url.skip(scheme.len() as int) =~= rest);
    if scheme == "https://"@ {
        assert(url[4] == 's');
        if text::begins(url, "http://"@) {
            assert(url.subrange(0, 7)[4] == ':');
        }
    }
    let k = text::last_position(rest, ':');
    text::lemma_last_position(rest, ':');
    assert(rest[host.len() as int] == ':');
    if k > host.len() {
        assert(rest[k] == port_text[k - host.len() - 1]);
        assert(port_text.contains(port_text[k - host.len() - 1]));
    }
    assert(rest.take(k) =~= host);
    assert(rest.skip(k + 1) =~= port_text);
}

/// Nothing but a scheme, a host, a colon and a port is read as an endpoint.
pub proof fn law_only_endpoint_urls_are_read(url: Seq<char>)
    requires
        endpoint_of(url) is Some,
    ensures
        exists|host: Seq<char>, port_text: Seq<char>|
            {
                ||| url == #[trigger] ("http://"@ + host + seq![':'] + port_text)
                ||| url == "https://"@ + host + seq![':'] + port_text
            } && !port_text.contains(':') && number::u16_value(port_text) is Some,
{
    let scheme = if text::begins(url, "http://"@) {
        "http://"@
    } else {
        "https://"@
    };
    let rest = url.skip(scheme.len() as int);
    text::law_ends_are_parts(url, scheme);
    let k = text::last_position(rest, ':');
    text::lemma_last_position(rest, ':');
    let host = rest.take(k);
    let port_text = rest.skip(k + 1);
    assert forall|i: int| 0 <= i < port_text.len() implies port_text[i] != ':' by {
        assert(port_text[i] == rest[k + 1 + i]);
    }
    assert(rest =~= host + seq![':'] + port_text);
    assert(url =~= scheme + host + seq![':'] + port_text);
    let witness = "http://"@ + host + seq![':'] + port_text;
}

/// The control plane that a sandbox is given by URL is let through without a policy: a CONNECT to
/// its host, in whatever case, and its port is on the list that is made of the URL, and one to
/// another port or another host is not.
pub proof fn law_control_plane_url_is_let_through(
    scheme: Seq<char>,
    url_host: Seq<char>,
    port: u16,
    ep: AllowedEndpoint,
    host: Seq<char>,
    other_port: u16,
)
    requires
        scheme == "http://"@ || scheme == "https://"@,
        endpoint_of(scheme + url_host + seq![':'] + number::decimal(port as nat)) == Some(ep@),
    ensures
        listed(seq![ep], text::lowered(host), other_port) <==> text::lowered(host) == text::lowered(
            url_host,
        ) && other_port == port,
{
    law_endpoint_is_read_as_written(scheme, url_host, Seq::empty(), port);
    assert(seq![ep][0]@ == ep@);
}

/// An endpoint is on a list if one of its entries has this host and this port.
pub proof fn law_listed_by_host_and_port(eps: Seq<AllowedEndpoint>, host: Seq<char>, port: u16)
    ensures
        listed(eps, host, port) <==> exists|i: int|
            0 <= i < eps.len() && (#[trigger] eps[i]).host@ == host && eps[i].port == port,
{
    if exists|i: int| 0 <= i < eps.len() && (#[trigger] eps[i]).host@ == host && eps[i].port
        == port {
        let i = choose|i: int|
            0 <= i < eps.len() && (#[trigger] eps[i]).host@ == host && eps[i].port == port;
        assert(eps[i]@ == (host, port));
    }
    if listed(eps, host, port) {
        let i = choose|i: int| 0 <= i < eps.len() && (#[trigger] eps[i])@ == (host, port);
        assert(eps[i].host@ == host && eps[i].port == port);
    }
}

/// The first line is what comes before the first CR LF, or everything if there is none.
pub proof fn law_first_line_ends_at_cr_lf(line: Seq<char>, rest: Seq<char>)
    requires
        forall|i: int| 0 <= i < line.len() - 1 ==> !(#[trigger] line[i] == '\r' && line[i + 1]
            == '\n'),
    ensures
        first_line(line) == line,
        first_line(line + seq!['\r', '\n'] + rest) == line,
    decreases line.len(),
{
    let s = line + seq!['\r', '\n'] + rest;
    lemma_first_line_len(line, Seq::empty());
    assert(line + Seq::<char>::empty() =~= line);
    assert(line.take(line.len() as int) =~= line);
    lemma_first_line_len(line, seq!['\r', '\n'] + rest);
    assert(line + (seq!['\r', '\n'] + rest) =~= s);
    assert(s.take(line.len() as int) =~= line);
}

proof fn lemma_first_line_len(line: Seq<char>, rest: Seq<char>)
    requires
        forall|i: int| 0 <= i < line.len() - 1 ==> !(#[trigger] line[i] == '\r' && line[i + 1]
            == '\n'),
        rest.len() == 0 || (rest.len() >= 2 && rest[0] == '\r' && rest[1] == '\n'),
    ensures
        first_line_len(line + rest) == line.len(),
    decreases line.len(),
{
    let s = line + rest;
    if line.len() == 0 {
        assert(s =~= rest);
    } else {
        let t = line.drop_first();
        assert forall|i: int| 0 <= i < t.len() - 1 implies !(#[trigger] t[i] == '\r' && t[i + 1]
            == '\n') by {
            assert(t[i] == line[i + 1]);
        }
        lemma_first_line_len(t, rest);
        assert(s.drop_first() =~= t + rest);
        assert(s[0] == line[0]);
        if line.len() >= 2 {
            assert(s[1] == line[1]);
        } else if s.len() >= 2 {
            assert(s[1] == rest[0]);
        }
    }
}

/// A CONNECT target is read as it stands there: the host is what comes before the first colon, in
/// the case that the client wrote it, and the port what comes after it. Without a colon there is no
/// target.
pub proof fn law_target_is_read_as_written(
    host: Seq<char>,
    port_text: Seq<char>,
    port: u16,
    target: Seq<char>,
)
    requires
        !host.contains(':'),
        !target.contains(':'),
    ensures
        target_of(host + seq![':'] + port_text) == (match number::u16_value(port_text) {
            Some(p) => Some((host, p)),
            None => None,
        }),
        target_of(host + seq![':'] + number::decimal(port as nat)) == Some((host, port)),
        target_of(target) is None,
{
    number::law_ports_are_read_as_written(number::decimal(port as nat), port);
    lemma_target_parts(host, port_text);
    lemma_target_parts(host, number::decimal(port as nat));
}

proof fn lemma_target_parts(host: Seq<char>, port_text: Seq<char>)
    requires
        !host.contains(':'),
    ensures
        target_of(host + seq![':'] + port_text) == (match number::u16_value(port_text) {
            Some(p) => Some((host, p)),
            None => None,
        }),
{
    let t = host + seq![':'] + port_text;
    assert forall|i: int| 0 <= i < host.len() implies text::but(':')(#[trigger] t[i]) by {
        assert(host.contains(host[i]));
    }
    assert(t[host.len() as int] == ':');
    text::lemma_run_is(t, text::but(':'), host.len() as int);
    assert(t.take(host.len() as int) =~= host);
    assert(t.skip(host.len() as int + 1) =~= port_text);
}

/// A CONNECT is understood: the first word of the request's first line is its method, the second
/// its target, and what follows on the line or below it makes no difference.
pub proof fn law_connect_is_understood(
    method: Seq<char>,
    host: Seq<char>,
    port: u16,
    more: Seq<char>,
    below: Seq<char>,
)
    requires
        text::is_word(method),
        forall|i: int| 0 <= i < host.len() ==> !text::is_space(#[trigger] host[i]),
        !host.contains(':'),
        forall|i: int| 0 <= i < more.len() ==> #[trigger] more[i] != '\r',
    ensures
        ({
            let target = host + seq![':'] + number::decimal(port as nat);
            let request = method + seq![' '] + (target + seq![' '] + more) + seq!['\r', '\n']
                + below;
            &&& word_or_empty(first_line(request), 0) == method
            &&& word_or_empty(first_line(request), 1) == target
            &&& target_of(target) == Some((host, port))
        }),
{
    let digits = number::decimal(port as nat);
    let target = host + seq![':'] + digits;
    let line = method + seq![' '] + (target + seq![' '] + more);
    number::lemma_decimal_reads_back(port as nat);
    law_target_is_read_as_written(host, digits, port, Seq::empty());
    assert forall|i: int| 0 <= i < target.len() implies !text::is_space(#[trigger] target[i]) by {
        if i < host.len() {
            assert(target[i] == host[i]);
        } else if i > host.len() {
            assert(target[i] == digits[i - host.len() - 1]);
        }
    }
    assert(text::is_word(target));
    assert forall|i: int| 0 <= i < line.len() implies #[trigger] line[i] != '\r' by {
        if i < method.len() {
            assert(line[i] == method[i]);
        } else if method.len() < i < method.len() + 1 + target.len() {
            assert(line[i] == target[i - method.len() - 1]);
        } else if i > method.len() + 1 + target.len() {
            assert(line[i] == more[i - method.len() - target.len() - 2]);
        }
    }
    law_first_line_ends_at_cr_lf(line, below);
    text::law_white_space_parts_words(method, ' ', target + seq![' '] + more);
    text::law_white_space_parts_words(target, ' ', more);
}

/// A word that a line does not have counts as empty.
pub proof fn law_missing_words_are_empty(line: Seq<char>, i: int)
    requires
        i >= 0,
    ensures
        i < text::words_of(line).len() ==> word_or_empty(line, i) == text::words_of(line)[i],
        i >= text::words_of(line).len() ==> word_or_empty(line, i).len() == 0,
{
}

/// A request header has room for this many bytes.
pub proof fn law_header_limit()
    ensures
        MAX_HEADER_BYTES == 8192,
{
}

/// The text of an error names what it is about.
pub proof fn law_errors_name_their_cause(s: String)
    ensures
        ProxyError::NotLoopback(s).text() == "Proxy http_addr must be loopback-only: "@ + s@,
        ProxyError::MissingPort(s).text() == "CONNECT target missing port: "@ + s@,
        ProxyError::InvalidPort(s).text() == "Invalid port in CONNECT target: "@ + s@,
{
}

/// A header ends where an empty line does: at two line ends in a row.
pub proof fn law_header_ends_with_an_empty_line(a: Seq<u8>, b: Seq<u8>)
    ensures
        header_end() == seq![13u8, 10u8] + seq![13u8, 10u8],
        text::occurs(a + seq![13u8, 10u8, 13u8, 10u8] + b, header_end()),
{
    assert(header_end() =~= seq![13u8, 10u8, 13u8, 10u8]);
    assert(header_end() =~= seq![13u8, 10u8] + seq![13u8, 10u8]);
    text::law_parts_occur(a, header_end(), b);
}

} // verus!
