//! The parts of SIP messages that the transaction and dialog layers read and
//! write, held as plain values, and the factories for requests and responses.
use vstd::prelude::*;

verus! {

/// SIP request methods.
#[derive(PartialEq, Eq, Structural, Clone, Copy, Debug)]
pub enum Method {
    Ack,
    Bye,
    Cancel,
    Info,
    Invite,
    Message,
    Notify,
    Options,
    PRack,
    Publish,
    Refer,
    Register,
    Subscribe,
    Update,
}

/// A Via header: transport, sent-by and the parameters the stack reads.
#[derive(Debug)]
pub struct Via {
    pub transport: String,
    pub host: String,
    pub port: Option<u16>,
    pub branch: String,
    pub received: Option<String>,
    pub rport: Option<u16>,
}

/// A From or To header.
#[derive(Debug)]
pub struct NameAddr {
    pub display_name: Option<String>,
    pub uri: String,
    pub tag: Option<String>,
}

/// A CSeq header.
#[derive(PartialEq, Eq, Structural, Clone, Copy, Debug)]
pub struct CSeq {
    pub seq: u32,
    pub method: Method,
}

/// A Contact header.
#[derive(Debug)]
pub struct Contact {
    pub uri: String,
    pub expires: Option<u32>,
}

/// One entry of a Route or Record-Route header; `lr` marks a loose router.
#[derive(Debug)]
pub struct RouteEntry {
    pub uri: String,
    pub lr: bool,
}

/// A digest challenge (WWW-Authenticate or Proxy-Authenticate).
#[derive(Debug)]
pub struct Challenge {
    pub realm: String,
    pub nonce: String,
    pub opaque: Option<String>,
}

/// Digest credentials (Authorization or Proxy-Authorization).
#[derive(Debug)]
pub struct Authorization {
    pub username: String,
    pub realm: String,
    pub nonce: String,
    pub uri: String,
    pub response: String,
    pub opaque: Option<String>,
}

/// The headers the stack reads or writes; any other header is `Other(name, value)`.
#[derive(Debug)]
pub enum Header {
    Via(Via),
    CallId(String),
    From(NameAddr),
    To(NameAddr),
    CSeq(CSeq),
    MaxForwards(u32),
    UserAgent(String),
    Contact(Contact),
    ContentLength(u32),
    ContentType(String),
    Route(RouteEntry),
    RecordRoute(RouteEntry),
    Allow(String),
    WwwAuthenticate(Challenge),
    ProxyAuthenticate(Challenge),
    Authorization(Authorization),
    ProxyAuthorization(Authorization),
    Other(String, String),
}

/// The kind of a header, without its value.
#[derive(PartialEq, Eq, Structural, Clone, Copy, Debug)]
pub enum HeaderKind {
    Via,
    CallId,
    From,
    To,
    CSeq,
    MaxForwards,
    UserAgent,
    Contact,
    ContentLength,
    ContentType,
    Route,
    RecordRoute,
    Allow,
    WwwAuthenticate,
    ProxyAuthenticate,
    Authorization,
    ProxyAuthorization,
    Other,
}

/// A SIP request.
#[derive(Debug)]
pub struct Request {
    pub method: Method,
    pub uri: String,
    pub headers: Vec<Header>,
    pub body: Vec<u8>,
}

/// A SIP response.
#[derive(Debug)]
pub struct Response {
    pub status_code: u16,
    pub headers: Vec<Header>,
    pub body: Vec<u8>,
}

/// A SIP message.
#[derive(Debug)]
pub enum Message {
    Request(Request),
    Response(Response),
}

impl Request {
    pub fn copy(&self) -> (r: Request)
        ensures
            r.method == self.method,
            r.uri == self.uri,
            r.headers@ == self.headers@,
            r.body@ == self.body@,
    {
        Request {
            method: self.method,
            uri: copy_string(&self.uri),
            headers: copy_headers(&self.headers),
            body: copy_bytes(&self.body),
        }
    }
}

impl Response {
    pub fn copy(&self) -> (r: Response)
        ensures
            r.status_code == self.status_code,
            r.headers@ == self.headers@,
            r.body@ == self.body@,
    {
        Response {
            status_code: self.status_code,
            headers: copy_headers(&self.headers),
            body: copy_bytes(&self.body),
        }
    }
}

pub fn copy_headers(h: &Vec<Header>) -> (r: Vec<Header>)
    ensures
        r@ == h@,
{
    let mut r: Vec<Header> = Vec::new();
    let mut i: usize = 0;
    while i < h.len()
        invariant
            i <= h@.len(),
            r@ == h@.take(i as int),
        decreases h@.len() - i,
    {
        r.push(h[i].copy());
        i = i + 1;
        proof {
            assert(h@.take(i as int) == h@.take(i - 1).push(h@[i - 1]));
        }
    }
    proof {
        assert(h@.take(h@.len() as int) == h@);
    }
    r
}

/// A value that is an exact duplicate of another.
pub fn copy_string(s: &String) -> (r: String)
    ensures
        r == *s,
{
    s.clone()
}

pub fn copy_opt_string(s: &Option<String>) -> (r: Option<String>)
    ensures
        r == *s,
{
    match s {
        Some(v) => Some(v.clone()),
        None => None,
    }
}

pub fn copy_bytes(b: &Vec<u8>) -> (r: Vec<u8>)
    ensures
        r@ == b@,
{
    let mut r: Vec<u8> = Vec::new();
    let mut i: usize = 0;
    while i < b.len()
        invariant
            i <= b@.len(),
            r@ == b@.take(i as int),
        decreases b@.len() - i,
    {
        r.push(b[i]);
        i = i + 1;
        proof {
            assert(b@.take(i as int) == b@.take(i - 1).push(b@[i - 1]));
        }
    }
    proof {
        assert(b@.take(b@.len() as int) == b@);
    }
    r
}

impl Via {
    pub fn copy(&self) -> (r: Via)
        ensures
            r == *self,
    {
        Via {
            transport: copy_string(&self.transport),
            host: copy_string(&self.host),
            port: self.port,
            branch: copy_string(&self.branch),
            received: copy_opt_string(&self.received),
            rport: self.rport,
        }
    }
}

impl NameAddr {
    pub fn copy(&self) -> (r: NameAddr)
        ensures
            r == *self,
    {
        NameAddr {
            display_name: copy_opt_string(&self.display_name),
            uri: copy_string(&self.uri),
            tag: copy_opt_string(&self.tag),
        }
    }
}

impl Contact {
    pub fn copy(&self) -> (r: Contact)
        ensures
            r == *self,
    {
        Contact { uri: copy_string(&self.uri), expires: self.expires }
    }
}

impl RouteEntry {
    pub fn copy(&self) -> (r: RouteEntry)
        ensures
            r == *self,
    {
        RouteEntry { uri: copy_string(&self.uri), lr: self.lr }
    }
}

impl Challenge {
    pub fn copy(&self) -> (r: Challenge)
        ensures
            r == *self,
    {
        Challenge {
            realm: copy_string(&self.realm),
            nonce: copy_string(&self.nonce),
            opaque: copy_opt_string(&self.opaque),
        }
    }
}

impl Authorization {
    pub fn copy(&self) -> (r: Authorization)
        ensures
            r == *self,
    {
        Authorization {
            username: copy_string(&self.username),
            realm: copy_string(&self.realm),
            nonce: copy_string(&self.nonce),
            uri: copy_string(&self.uri),
            response: copy_string(&self.response),
            opaque: copy_opt_string(&self.opaque),
        }
    }
}

impl Header {
    pub open spec fn kind(&self) -> HeaderKind {
        match self {
            Header::Via(_) => HeaderKind::Via,
            Header::CallId(_) => HeaderKind::CallId,
            Header::From(_) => HeaderKind::From,
            Header::To(_) => HeaderKind::To,
            Header::CSeq(_) => HeaderKind::CSeq,
            Header::MaxForwards(_) => HeaderKind::MaxForwards,
            Header::UserAgent(_) => HeaderKind::UserAgent,
            Header::Contact(_) => HeaderKind::Contact,
            Header::ContentLength(_) => HeaderKind::ContentLength,
            Header::ContentType(_) => HeaderKind::ContentType,
            Header::Route(_) => HeaderKind::Route,
            Header::RecordRoute(_) => HeaderKind::RecordRoute,
            Header::Allow(_) => HeaderKind::Allow,
            Header::WwwAuthenticate(_) => HeaderKind::WwwAuthenticate,
            Header::ProxyAuthenticate(_) => HeaderKind::ProxyAuthenticate,
            Header::Authorization(_) => HeaderKind::Authorization,
            Header::ProxyAuthorization(_) => HeaderKind::ProxyAuthorization,
            Header::Other(_, _) => HeaderKind::Other,
        }
    }

    pub fn header_kind(&self) -> (r: HeaderKind)
        ensures
            r == self.kind(),
    {
        match self {
            Header::Via(_) => HeaderKind::Via,
            Header::CallId(_) => HeaderKind::CallId,
            Header::From(_) => HeaderKind::From,
            Header::To(_) => HeaderKind::To,
            Header::CSeq(_) => HeaderKind::CSeq,
            Header::MaxForwards(_) => HeaderKind::MaxForwards,
            Header::UserAgent(_) => HeaderKind::UserAgent,
            Header::Contact(_) => HeaderKind::Contact,
            Header::ContentLength(_) => HeaderKind::ContentLength,
            Header::ContentType(_) => HeaderKind::ContentType,
            Header::Route(_) => HeaderKind::Route,
            Header::RecordRoute(_) => HeaderKind::RecordRoute,
            Header::Allow(_) => HeaderKind::Allow,
            Header::WwwAuthenticate(_) => HeaderKind::WwwAuthenticate,
            Header::ProxyAuthenticate(_) => HeaderKind::ProxyAuthenticate,
            Header::Authorization(_) => HeaderKind::Authorization,
            Header::ProxyAuthorization(_) => HeaderKind::ProxyAuthorization,
            Header::Other(_, _) => HeaderKind::Other,
        }
    }

    pub fn copy(&self) -> (r: Header)
        ensures
            r == *self,
    {
        match self {
            Header::Via(v) => Header::Via(v.copy()),
            Header::CallId(v) => Header::CallId(copy_string(v)),
            Header::From(v) => Header::From(v.copy()),
            Header::To(v) => Header::To(v.copy()),
            Header::CSeq(v) => Header::CSeq(*v),
            Header::MaxForwards(v) => Header::MaxForwards(*v),
            Header::UserAgent(v) => Header::UserAgent(copy_string(v)),
            Header::Contact(v) => Header::Contact(v.copy()),
            Header::ContentLength(v) => Header::ContentLength(*v),
            Header::ContentType(v) => Header::ContentType(copy_string(v)),
            Header::Route(v) => Header::Route(v.copy()),
            Header::RecordRoute(v) => Header::RecordRoute(v.copy()),
            Header::Allow(v) => Header::Allow(copy_string(v)),
            Header::WwwAuthenticate(v) => Header::WwwAuthenticate(v.copy()),
            Header::ProxyAuthenticate(v) => Header::ProxyAuthenticate(v.copy()),
            Header::Authorization(v) => Header::Authorization(v.copy()),
            Header::ProxyAuthorization(v) => Header::ProxyAuthorization(v.copy()),
            Header::Other(n, v) => Header::Other(copy_string(n), copy_string(v)),
        }
    }
}

/// The headers of kind `k`, in order.
pub open spec fn headers_of(s: Seq<Header>, k: HeaderKind) -> Seq<Header> {
    s.filter(|h: Header| h.kind() == k)
}

/// The first header of kind `k`, if any.
pub open spec fn first_of(s: Seq<Header>, k: HeaderKind) -> Option<Header> {
    if headers_of(s, k).len() > 0 {
        Some(headers_of(s, k)[0])
    } else {
        None
    }
}

/// Index of the first header of kind `k`.
pub fn position_of(headers: &Vec<Header>, k: HeaderKind) -> (r: Option<usize>)
    ensures
        match r {
            Some(i) => i < headers@.len() && headers@[i as int].kind() == k && first_of(headers@, k)
                == Some(headers@[i as int]),
            None => first_of(headers@, k).is_none(),
        },
{
    let ghost f = |h: Header| h.kind() == k;
    let mut i: usize = 0;
    while i < headers.len()
        invariant
            i <= headers@.len(),
            f == (|h: Header| h.kind() == k),
            headers@.take(i as int).filter(f) == Seq::<Header>::empty(),
        decreases headers@.len() - i,
    {
        proof {
            assert(headers@.take(i + 1) == headers@.take(i as int).push(headers@[i as int]));
            headers@.take(i as int).lemma_filter_push(headers@[i as int], f);
        }
        if headers[i].header_kind() == k {
            proof {
                let s = headers@;
                assert(s == s.take(i + 1) + s.skip(i + 1));
                Seq::filter_distributes_over_add(s.take(i + 1), s.skip(i + 1), f);
                assert(s.take(i + 1).filter(f) == seq![s[i as int]]);
            }
            return Some(i);
        }
        i = i + 1;
    }
    proof {
        assert(headers@.take(headers@.len() as int) == headers@);
    }
    None
}

/// Removes every header of the kind of `h`, then appends `h`.
pub fn unique_push(headers: &mut Vec<Header>, h: Header)
    ensures
        final(headers)@ == old(headers)@.filter(|x: Header| x.kind() != h.kind()).push(h),
{
    let ghost f = |x: Header| x.kind() != h.kind();
    let ghost s = headers@;
    let mut kept: Vec<Header> = Vec::new();
    let k = h.header_kind();
    let mut i: usize = 0;
    while i < headers.len()
        invariant
            headers@ == s,
            i <= s.len(),
            k == h.kind(),
            f == (|x: Header| x.kind() != h.kind()),
            kept@ == s.take(i as int).filter(f),
        decreases s.len() - i,
    {
        proof {
            assert(s.take(i + 1) == s.take(i as int).push(s[i as int]));
            s.take(i as int).lemma_filter_push(s[i as int], f);
        }
        if headers[i].header_kind() != k {
            kept.push(headers[i].copy());
        }
        i = i + 1;
    }
    proof {
        assert(s.take(s.len() as int) == s);
    }
    kept.push(h);
    *headers = kept;
}

/// The headers a response copies from its request.
pub open spec fn copied_to_response(k: HeaderKind) -> bool {
    k == HeaderKind::Via || k == HeaderKind::CallId || k == HeaderKind::From || k == HeaderKind::To
        || k == HeaderKind::MaxForwards || k == HeaderKind::CSeq
}

/// The headers of a response to a request with headers `req`.
pub open spec fn response_headers(req: Seq<Header>, user_agent: String) -> Seq<Header> {
    req.filter(|h: Header| copied_to_response(h.kind())).push(Header::UserAgent(user_agent))
}

proof fn lemma_filter_of_filter(s: Seq<Header>, p: spec_fn(Header) -> bool, q: spec_fn(Header) -> bool)
    requires
        forall|x: Header| #[trigger] q(x) ==> p(x),
    ensures
        s.filter(p).filter(q) == s.filter(q),
    decreases s.len(),
{
    if s.len() > 0 {
        let t = s.drop_last();
        lemma_filter_of_filter(t, p, q);
        assert(s == t.push(s.last()));
        t.lemma_filter_push(s.last(), p);
        t.lemma_filter_push(s.last(), q);
        t.filter(p).lemma_filter_push(s.last(), q);
    } else {
        reveal(Seq::filter);
    }
}

proof fn lemma_filter_disjoint(s: Seq<Header>, p: spec_fn(Header) -> bool, q: spec_fn(Header) -> bool)
    requires
        forall|x: Header| #[trigger] q(x) ==> !p(x),
    ensures
        s.filter(p).filter(q).len() == 0,
    decreases s.len(),
{
    if s.len() > 0 {
        let t = s.drop_last();
        lemma_filter_disjoint(t, p, q);
        assert(s == t.push(s.last()));
        t.lemma_filter_push(s.last(), p);
        t.filter(p).lemma_filter_push(s.last(), q);
    } else {
        reveal(Seq::filter);
    }
}

/// In headers whose first `k + 1` entries hold exactly one header of kind
/// `kind`, at index `k`, that header is the first of its kind.
pub proof fn lemma_first_in_prefix(s: Seq<Header>, k: int, kind: HeaderKind)
    requires
        0 <= k < s.len(),
        s[k].kind() == kind,
        forall|j: int| 0 <= j < k ==> #[trigger] s[j].kind() != kind,
    ensures
        first_of(s, kind) == Some(s[k]),
{
    let f = |h: Header| h.kind() == kind;
    assert(s == s.take(k + 1) + s.skip(k + 1));
    Seq::filter_distributes_over_add(s.take(k + 1), s.skip(k + 1), f);
    lemma_filter_none_before(s, k, kind);
    s.take(k).lemma_filter_push(s[k], f);
    assert(s.take(k + 1) == s.take(k).push(s[k]));
}

proof fn lemma_filter_none_before(s: Seq<Header>, k: int, kind: HeaderKind)
    requires
        0 <= k <= s.len(),
        forall|j: int| 0 <= j < k ==> #[trigger] s[j].kind() != kind,
    ensures
        s.take(k).filter(|h: Header| h.kind() == kind) == Seq::<Header>::empty(),
    decreases k,
{
    let f = |h: Header| h.kind() == kind;
    if k == 0 {
        reveal(Seq::filter);
        assert(s.take(0) == Seq::<Header>::empty());
    } else {
        lemma_filter_none_before(s, k - 1, kind);
        assert(s.take(k) == s.take(k - 1).push(s[k - 1]));
        s.take(k - 1).lemma_filter_push(s[k - 1], f);
    }
}

/// Pushing `h` uniquely leaves the headers of every other kind as they were.
pub proof fn lemma_unique_push_keeps_other(s: Seq<Header>, h: Header, k: HeaderKind)
    requires
        k != h.kind(),
    ensures
        headers_of(s.filter(|x: Header| x.kind() != h.kind()).push(h), k) == headers_of(s, k),
        first_of(s.filter(|x: Header| x.kind() != h.kind()).push(h), k) == first_of(s, k),
{
    let p = |x: Header| x.kind() != h.kind();
    let q = |x: Header| x.kind() == k;
    s.filter(p).lemma_filter_push(h, q);
    lemma_filter_of_filter(s, p, q);
}

/// The headers after `unique_push(h)`.
pub open spec fn unique_pushed(s: Seq<Header>, h: Header) -> Seq<Header> {
    s.filter(|x: Header| x.kind() != h.kind()).push(h)
}

/// The headers after `unique_push` of each of `extra`, in order.
pub open spec fn unique_pushed_all(s: Seq<Header>, extra: Seq<Header>) -> Seq<Header>
    decreases extra.len(),
{
    if extra.len() == 0 {
        s
    } else {
        unique_pushed(unique_pushed_all(s, extra.drop_last()), extra.last())
    }
}

/// After `unique_push(h)` the headers of the kind of `h` are `h` alone.
pub proof fn lemma_unique_push_only(s: Seq<Header>, h: Header)
    ensures
        headers_of(s.filter(|x: Header| x.kind() != h.kind()).push(h), h.kind()) == seq![h],
        first_of(s.filter(|x: Header| x.kind() != h.kind()).push(h), h.kind()) == Some(h),
{
    let p = |x: Header| x.kind() != h.kind();
    let q = |x: Header| x.kind() == h.kind();
    lemma_filter_disjoint(s, p, q);
    s.filter(p).lemma_filter_push(h, q);
    assert(s.filter(p).filter(q) =~= Seq::<Header>::empty());
    assert(headers_of(s.filter(p).push(h), h.kind()) =~= seq![h]);
}

/// A response built by `make_response` holds, of each kind among Via, Call-ID,
/// From, To, Max-Forwards and CSeq, exactly the request's headers in their order
/// (so its From, To, Call-ID and CSeq are the request's), and of any other kind
/// but User-Agent none at all.
pub proof fn lemma_response_round_trip(req: Seq<Header>, user_agent: String, k: HeaderKind)
    ensures
        copied_to_response(k) ==> headers_of(response_headers(req, user_agent), k) == headers_of(req, k),
        copied_to_response(k) ==> first_of(response_headers(req, user_agent), k) == first_of(req, k),
        !copied_to_response(k) && k != HeaderKind::UserAgent ==> headers_of(
            response_headers(req, user_agent),
            k,
        ).len() == 0,
{
    let p = |h: Header| copied_to_response(h.kind());
    let q = |h: Header| h.kind() == k;
    let ua = Header::UserAgent(user_agent);
    req.filter(p).lemma_filter_push(ua, q);
    if copied_to_response(k) {
        lemma_filter_of_filter(req, p, q);
    } else if k != HeaderKind::UserAgent {
        lemma_filter_disjoint(req, p, q);
    }
}

/// Process-wide settings of an endpoint; times in milliseconds.
pub struct EndpointOption {
    pub t1: u64,
    pub t1x64: u64,
    pub t4: u64,
    pub callid_suffix: Option<String>,
}

impl EndpointOption {
    /// The defaults: T1 500 ms, T1x64 32 s, T4 5 s, no Call-ID suffix.
    pub fn new() -> (r: EndpointOption)
        ensures
            r.t1 == 500,
            r.t1x64 == 32000,
            r.t4 == 5000,
            r.callid_suffix.is_none(),
    {
        EndpointOption { t1: 500, t1x64: 32000, t4: 5000, callid_suffix: None }
    }
}

/// What an endpoint needs to build messages: its user agent and its settings.
pub struct EndpointInner {
    pub user_agent: String,
    pub option: EndpointOption,
}

/// A Call-ID: the opaque id, then `@` and the suffix where one is configured.
pub open spec fn call_id_of(id: Seq<char>, suffix: Option<String>) -> Seq<char> {
    match suffix {
        Some(s) => id + seq!['@'] + s@,
        None => id,
    }
}

impl EndpointInner {
    /// Builds a Call-ID from the opaque id `id` and the configured suffix.
    pub fn make_call_id(&self, id: &str) -> (r: String)
        ensures
            r@ == call_id_of(id@, self.option.callid_suffix),
    {
        let mut r = id.to_string();
        match &self.option.callid_suffix {
            Some(s) => {
                r.append("@");
                r.append(s.as_str());
                proof {
                    reveal_strlit("@");
                }
            },
            None => {},
        }
        r
    }

    /// Builds a request: Via, Call-ID, From, To, CSeq, Max-Forwards 70 and
    /// User-Agent, in that order, with an empty body.
    pub fn make_request(
        &self,
        method: Method,
        req_uri: String,
        via: Via,
        from: NameAddr,
        to: NameAddr,
        seq: u32,
        call_id: String,
    ) -> (r: Request)
        ensures
            r.method == method,
            r.uri == req_uri,
            r.body@.len() == 0,
            r.headers@ == seq![
                Header::Via(via),
                Header::CallId(call_id),
                Header::From(from),
                Header::To(to),
                Header::CSeq(CSeq { seq, method }),
                Header::MaxForwards(70),
                Header::UserAgent(self.user_agent),
            ],
    {
        let mut headers: Vec<Header> = Vec::new();
        headers.push(Header::Via(via));
        headers.push(Header::CallId(call_id));
        headers.push(Header::From(from));
        headers.push(Header::To(to));
        headers.push(Header::CSeq(CSeq { seq, method }));
        headers.push(Header::MaxForwards(70));
        headers.push(Header::UserAgent(copy_string(&self.user_agent)));
        Request { method, uri: req_uri, headers, body: Vec::new() }
    }

    /// Builds a response to `req`: copies Via, Call-ID, From, To, Max-Forwards and
    /// CSeq in their order, drops every other header, adds User-Agent.
    pub fn make_response(&self, req: &Request, status_code: u16, body: Option<Vec<u8>>) -> (r: Response)
        ensures
            r.status_code == status_code,
            r.headers@ == response_headers(req.headers@, self.user_agent),
            r.body@ == match body {
                Some(b) => b@,
                None => Seq::<u8>::empty(),
            },
    {
        let ghost f = |h: Header| copied_to_response(h.kind());
        let ghost s = req.headers@;
        let mut headers: Vec<Header> = Vec::new();
        let mut i: usize = 0;
        while i < req.headers.len()
            invariant
                s == req.headers@,
                i <= s.len(),
                f == (|h: Header| copied_to_response(h.kind())),
                headers@ == s.take(i as int).filter(f),
            decreases s.len() - i,
        {
            proof {
                assert(s.take(i + 1) == s.take(i as int).push(s[i as int]));
                s.take(i as int).lemma_filter_push(s[i as int], f);
            }
            let k = req.headers[i].header_kind();
            if k == HeaderKind::Via || k == HeaderKind::CallId || k == HeaderKind::From || k
                == HeaderKind::To || k == HeaderKind::MaxForwards || k == HeaderKind::CSeq {
                headers.push(req.headers[i].copy());
            }
            i = i + 1;
        }
        proof {
            assert(s.take(s.len() as int) == s);
        }
        headers.push(Header::UserAgent(copy_string(&self.user_agent)));
        let body = match body {
            Some(b) => b,
            None => Vec::new(),
        };
        Response { status_code, headers, body }
    }
}

} // verus!
