//! Registration with a registrar: the REGISTER request, the decisions on each
//! response, and the public address learnt from `received` and `rport`.
use vstd::prelude::*;
use vstd::string::*;
use crate::dialog::Credential;
use crate::message::{
    copy_string, first_of, position_of, unique_push, Contact, EndpointInner, Header, HeaderKind, Method,
    NameAddr, Request, Response, Via,
};

verus! {

/// A host and port.
#[derive(Debug)]
pub struct HostWithPort {
    pub host: String,
    pub port: u16,
}

impl HostWithPort {
    pub fn copy(&self) -> (r: HostWithPort)
        ensures
            r == *self,
    {
        HostWithPort { host: copy_string(&self.host), port: self.port }
    }
}

/// The address a peer saw a request come from, by the `received` and `rport`
/// of the Via it returns; none where the Via carries neither.
pub open spec fn seen_address(v: Via) -> Option<(Seq<char>, u16)> {
    if v.received.is_none() && v.rport.is_none() {
        None
    } else {
        Some((
            match v.received {
                Some(h) => h@,
                None => v.host@,
            },
            match v.rport {
                Some(p) => p,
                None => match v.port {
                    Some(p) => p,
                    None => 5060u16,
                },
            },
        ))
    }
}

/// The URI `sip:[user@]host[:port]`.
pub open spec fn sip_uri(user: Option<Seq<char>>, host: Seq<char>, port: Option<u16>, port_text: Seq<char>) -> Seq<char> {
    "sip:"@ + match user {
        Some(u) => u + "@"@,
        None => Seq::empty(),
    } + host + match port {
        Some(_) => ":"@ + port_text,
        None => Seq::empty(),
    }
}

/// The decimal digits of `n`.
pub open spec fn decimal(n: nat) -> Seq<char>
    decreases n,
{
    if n < 10 {
        seq![digit_char(n)]
    } else {
        decimal(n / 10) + seq![digit_char(n % 10)]
    }
}

pub open spec fn digit_char(d: nat) -> char {
    if d == 0 { '0' } else if d == 1 { '1' } else if d == 2 { '2' } else if d == 3 { '3' } else if d == 4 { '4' }
    else if d == 5 { '5' } else if d == 6 { '6' } else if d == 7 { '7' } else if d == 8 { '8' } else { '9' }
}

fn digit(d: u16) -> (r: &'static str)
    requires
        d < 10,
    ensures
        r@ == seq![digit_char(d as nat)],
{
    proof {
        reveal_strlit("0");
        reveal_strlit("1");
        reveal_strlit("2");
        reveal_strlit("3");
        reveal_strlit("4");
        reveal_strlit("5");
        reveal_strlit("6");
        reveal_strlit("7");
        reveal_strlit("8");
        reveal_strlit("9");
    }
    if d == 0 { "0" } else if d == 1 { "1" } else if d == 2 { "2" } else if d == 3 { "3" } else if d == 4 { "4" }
    else if d == 5 { "5" } else if d == 6 { "6" } else if d == 7 { "7" } else if d == 8 { "8" } else { "9" }
}

/// The decimal text of `n`.
pub fn port_text(n: u16) -> (r: String)
    ensures
        r@ == decimal(n as nat),
    decreases n,
{
    if n < 10 {
        digit(n).to_string()
    } else {
        let mut s = port_text(n / 10);
        s.append(digit(n % 10));
        s
    }
}

/// One address of a local interface: loopback or not, and its IPv4 octets
/// where it is an IPv4 address.
#[derive(Debug)]
pub struct LocalAddress {
    pub loopback: bool,
    pub ipv4: Option<(u8, u8, u8, u8)>,
}

/// The address is a usable local IPv4 address.
pub open spec fn usable(a: LocalAddress) -> bool {
    !a.loopback && a.ipv4.is_some()
}

/// Index of the first non-loopback IPv4 address of `addrs`.
pub fn first_non_loopback_ipv4(addrs: &Vec<LocalAddress>) -> (r: Option<usize>)
    ensures
        match r {
            Some(i) => i < addrs@.len() && usable(addrs@[i as int]) && forall|j: int| 0 <= j < i ==> !usable(
                #[trigger] addrs@[j],
            ),
            None => forall|j: int| 0 <= j < addrs@.len() ==> !usable(#[trigger] addrs@[j]),
        },
{
    let mut i: usize = 0;
    while i < addrs.len()
        invariant
            i <= addrs@.len(),
            forall|j: int| 0 <= j < i ==> !usable(#[trigger] addrs@[j]),
        decreases addrs@.len() - i,
    {
        if !addrs[i].loopback && addrs[i].ipv4.is_some() {
            return Some(i);
        }
        i = i + 1;
    }
    None
}

/// What to do after a response to REGISTER.
pub enum RegisterStep {
    /// A provisional response: keep receiving.
    Continue,
    /// Send the request again with credentials, under the new CSeq number.
    Authenticate(u32),
    /// The response is the result.
    Done,
}

/// The client side of registration.
pub struct Registration {
    pub last_seq: u32,
    pub credential: Option<Credential>,
    pub contact: Option<Contact>,
    pub allow: String,
    pub public_address: Option<HostWithPort>,
}

impl Registration {
    pub fn new(credential: Option<Credential>) -> (r: Registration)
        ensures
            r.last_seq == 0,
            r.credential == credential,
            r.contact.is_none(),
            r.public_address.is_none(),
            r.allow@.len() == 0,
    {
        Registration { last_seq: 0, credential, contact: None, allow: String::new(), public_address: None }
    }

    /// Seconds until the registration expires: the `expires` of the cached
    /// Contact, else 50.
    pub fn expires(&self) -> (r: u32)
        ensures
            r == match self.contact {
                Some(c) => match c.expires {
                    Some(e) => e,
                    None => 50,
                },
                None => 50,
            },
    {
        match &self.contact {
            Some(c) => match c.expires {
                Some(e) => e,
                None => 50,
            },
            None => 50,
        }
    }

    /// The public address learnt from the registrar, if any.
    pub fn discovered_public_address(&self) -> (r: Option<HostWithPort>)
        ensures
            r == self.public_address,
    {
        match &self.public_address {
            Some(a) => Some(a.copy()),
            None => None,
        }
    }

    /// Learns the public address from the Via of a response. Where it differs
    /// from the one known, it replaces it and the cached Contact is dropped.
    /// Returns whether it changed.
    pub fn update_public_address(&mut self, via: &Via) -> (r: bool)
        ensures
            final(self).last_seq == old(self).last_seq,
            final(self).credential == old(self).credential,
            match seen_address(*via) {
                None => !r && *final(self) == *old(self),
                Some((h, p)) => {
                    let same = old(self).public_address.is_some() && old(self).public_address.unwrap().host@ == h
                        && old(self).public_address.unwrap().port == p;
                    &&& r == !same
                    &&& same ==> *final(self) == *old(self)
                    &&& !same ==> final(self).public_address.is_some() && final(self).public_address.unwrap().host@ == h
                        && final(self).public_address.unwrap().port == p && final(self).contact.is_none()
                },
            },
    {
        if via.received.is_none() && via.rport.is_none() {
            return false;
        }
        let host = match &via.received {
            Some(h) => copy_string(h),
            None => copy_string(&via.host),
        };
        let port = match via.rport {
            Some(p) => p,
            None => match via.port {
                Some(p) => p,
                None => 5060,
            },
        };
        let same = match &self.public_address {
            Some(a) => a.host == host && a.port == port,
            None => false,
        };
        if same {
            return false;
        }
        self.public_address = Some(HostWithPort { host, port });
        self.contact = None;
        true
    }

    /// The Contact of the next REGISTER: the cached one, else one at the public
    /// address, else one at `local`, with the user of the credential.
    pub fn contact_for(&self, local: &HostWithPort) -> (r: Contact)
        ensures
            self.is_contact_for(*local, r),
    {
        match &self.contact {
            Some(c) => c.copy(),
            None => {
                let at = match &self.public_address {
                    Some(a) => a,
                    None => local,
                };
                let user = match &self.credential {
                    Some(c) => Some(copy_string(&c.username)),
                    None => None,
                };
                let uri = make_uri(&user, &at.host, Some(at.port));
                Contact { uri, expires: None }
            },
        }
    }

    /// Builds the next REGISTER to `server`: the CSeq advances; Request-URI
    /// `sip:server`; To and From that URI with the credential's user, From
    /// tagged `from_tag`; then the Contact of `contact_for` and Allow.
    pub fn make_register(
        &mut self,
        server: &String,
        via: Via,
        local: &HostWithPort,
        from_tag: String,
        call_id: &str,
        endpoint: &EndpointInner,
    ) -> (r: Request)
        requires
            old(self).last_seq < u32::MAX,
        ensures
            final(self).last_seq == old(self).last_seq + 1,
            final(self).credential == old(self).credential,
            final(self).contact == old(self).contact,
            final(self).public_address == old(self).public_address,
            r.method == Method::Register,
            r.uri@ == sip_uri(None, server@, None, Seq::empty()),
            first_of(r.headers@, HeaderKind::CSeq) == Some(Header::CSeq(crate::message::CSeq { seq: final(self).last_seq, method: Method::Register })),
            first_of(r.headers@, HeaderKind::Via) == Some(Header::Via(via)),
            match first_of(r.headers@, HeaderKind::Contact) {
                Some(Header::Contact(c)) => old(self).is_contact_for(*local, c),
                _ => false,
            },
            match (first_of(r.headers@, HeaderKind::From), first_of(r.headers@, HeaderKind::To)) {
                (Some(Header::From(f)), Some(Header::To(t))) => {
                    let user = match old(self).credential {
                        Some(c) => Some(c.username@),
                        None => None,
                    };
                    &&& t.uri@ == sip_uri(user, server@, None, Seq::empty())
                    &&& t.tag.is_none()
                    &&& f.uri@ == t.uri@
                    &&& f.tag == Some(from_tag)
                },
                _ => false,
            },
    {
        self.last_seq = self.last_seq + 1;
        let recipient = make_uri(&None, server, None);
        let user = match &self.credential {
            Some(c) => Some(copy_string(&c.username)),
            None => None,
        };
        let to_uri = make_uri(&user, server, None);
        let to = NameAddr { display_name: None, uri: copy_string(&to_uri), tag: None };
        let from = NameAddr { display_name: None, uri: to_uri, tag: Some(from_tag) };
        let contact = self.contact_for(local);
        let ghost c = contact;
        let cid = endpoint.make_call_id(call_id);
        let mut request = endpoint.make_request(Method::Register, recipient, via, from, to, self.last_seq, cid);
        let ghost base = request.headers@;
        unique_push(&mut request.headers, Header::Contact(contact));
        let ghost s1 = request.headers@;
        unique_push(&mut request.headers, Header::Allow(copy_string(&self.allow)));
        proof {
            crate::message::lemma_first_in_prefix(base, 0, HeaderKind::Via);
            crate::message::lemma_first_in_prefix(base, 4, HeaderKind::CSeq);
            crate::message::lemma_first_in_prefix(base, 2, HeaderKind::From);
            crate::message::lemma_first_in_prefix(base, 3, HeaderKind::To);
            crate::message::lemma_unique_push_keeps_other(base, Header::Contact(c), HeaderKind::From);
            crate::message::lemma_unique_push_keeps_other(base, Header::Contact(c), HeaderKind::To);
            crate::message::lemma_unique_push_keeps_other(base, Header::Contact(c), HeaderKind::Via);
            crate::message::lemma_unique_push_keeps_other(base, Header::Contact(c), HeaderKind::CSeq);
            crate::message::lemma_unique_push_only(base, Header::Contact(c));
            let a = request.headers@.last();
            crate::message::lemma_unique_push_keeps_other(s1, a, HeaderKind::Via);
            crate::message::lemma_unique_push_keeps_other(s1, a, HeaderKind::CSeq);
            crate::message::lemma_unique_push_keeps_other(s1, a, HeaderKind::Contact);
            crate::message::lemma_unique_push_keeps_other(s1, a, HeaderKind::From);
            crate::message::lemma_unique_push_keeps_other(s1, a, HeaderKind::To);
        }
        request
    }

    /// Decides on a response to REGISTER. A 401 or 407 first teaches the public
    /// address; then, once credentials were already sent or where there are
    /// none, it is the result; otherwise the CSeq advances and the request is
    /// to be sent again with credentials. A 200 teaches the public address and
    /// is the result; any other final response is the result; 1xx continues.
    pub fn on_response(&mut self, resp: &Response, auth_sent: bool) -> (r: RegisterStep)
        requires
            old(self).last_seq < u32::MAX,
        ensures
            final(self).credential == old(self).credential,
            resp.status_code < 200 ==> r is Continue && *final(self) == *old(self),
            (resp.status_code == 401 || resp.status_code == 407) ==> {
                if !auth_sent && old(self).credential.is_some() {
                    r == RegisterStep::Authenticate(final(self).last_seq) && final(self).last_seq == old(self).last_seq + 1
                } else {
                    r is Done && final(self).last_seq == old(self).last_seq
                }
            },
            resp.status_code >= 200 && !(resp.status_code == 401 || resp.status_code == 407) ==> r is Done
                && final(self).last_seq == old(self).last_seq,
            (resp.status_code == 200 || resp.status_code == 401 || resp.status_code == 407) ==> match first_of(resp.headers@, HeaderKind::Via) {
                Some(Header::Via(v)) => match seen_address(v) {
                    Some((h, p)) => final(self).public_address.is_some() && final(self).public_address.unwrap().host@ == h
                        && final(self).public_address.unwrap().port == p,
                    None => final(self).public_address == old(self).public_address,
                },
                _ => final(self).public_address == old(self).public_address,
            },
    {
        let code = resp.status_code;
        if code < 200 {
            return RegisterStep::Continue;
        }
        if code == 200 || code == 401 || code == 407 {
            match position_of(&resp.headers, HeaderKind::Via) {
                Some(i) => match &resp.headers[i] {
                    Header::Via(v) => {
                        self.update_public_address(v);
                    },
                    _ => {},
                },
                None => {},
            }
        }
        if (code == 401 || code == 407) && !auth_sent && self.credential.is_some() {
            self.last_seq = self.last_seq + 1;
            return RegisterStep::Authenticate(self.last_seq);
        }
        RegisterStep::Done
    }

    /// `c` is the Contact that `contact_for(local)` gives.
    pub open spec fn is_contact_for(&self, local: HostWithPort, c: Contact) -> bool {
        &&& self.contact.is_some() ==> c == self.contact.unwrap()
        &&& self.contact.is_none() ==> c.expires.is_none() && {
            let at = match self.public_address {
                Some(a) => a,
                None => local,
            };
            c.uri@ == sip_uri(
                match self.credential {
                    Some(cr) => Some(cr.username@),
                    None => None,
                },
                at.host@,
                Some(at.port),
                decimal(at.port as nat),
            )
        }
    }
}

/// Builds `sip:[user@]host[:port]`.
pub fn make_uri(user: &Option<String>, host: &String, port: Option<u16>) -> (r: String)
    ensures
        r@ == sip_uri(
            match user {
                Some(u) => Some(u@),
                None => None,
            },
            host@,
            port,
            match port {
                Some(p) => decimal(p as nat),
                None => Seq::empty(),
            },
        ),
{
    let mut s = "sip:".to_string();
    proof {
        reveal_strlit("sip:");
        reveal_strlit("@");
        reveal_strlit(":");
    }
    match user {
        Some(u) => {
            s.append(u.as_str());
            s.append("@");
        },
        None => {},
    }
    s.append(host.as_str());
    match port {
        Some(p) => {
            s.append(":");
            let t = port_text(p);
            s.append(t.as_str());
        },
        None => {},
    }
    s
}

} // verus!
