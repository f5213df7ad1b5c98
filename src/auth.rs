//! Digest authentication of a challenged request (RFC 2617, MD5, no qop).
use vstd::prelude::*;
use crate::dialog::Credential;
use crate::error::Error;
use crate::message::{
    copy_string, first_of, position_of, unique_push, unique_pushed, Authorization, CSeq, Challenge, Header,
    HeaderKind, Method, Request, Response, Via,
};

verus! {

/// The digest response that rsip computes for these values, where the URI parses.
pub uninterp spec fn digest_of(
    username: Seq<char>,
    realm: Seq<char>,
    password: Seq<char>,
    nonce: Seq<char>,
    method: Seq<char>,
    uri: Seq<char>,
) -> Option<Seq<char>>;

/// Relies on rsip's `DigestGenerator::compute` with MD5 and no qop, after
/// `Uri::try_from` and `Method::from_str` on the texts: the result depends on
/// the arguments alone, and is `None` where the URI or the method does not parse.
#[verifier::external_body]
fn compute_digest(
    username: &String,
    realm: &String,
    password: &String,
    nonce: &String,
    method: &String,
    uri: &String,
) -> (r: Option<String>)
    ensures
        match r {
            Some(s) => digest_of(username@, realm@, password@, nonce@, method@, uri@) == Some(s@),
            None => digest_of(username@, realm@, password@, nonce@, method@, uri@).is_none(),
        },
{
    let uri = rsip::Uri::try_from(uri.as_str()).ok()?;
    let method = <rsip::Method as std::str::FromStr>::from_str(method.as_str()).ok()?;
    let generator = rsip::services::DigestGenerator {
        username: username.as_str(),
        password: password.as_str(),
        nonce: nonce.as_str(),
        uri: &uri,
        realm: realm.as_str(),
        method: &method,
        qop: None,
        algorithm: rsip::headers::auth::Algorithm::Md5,
    };
    Some(generator.compute())
}

/// The name of a method as it stands on the wire.
pub open spec fn method_text(m: Method) -> Seq<char> {
    match m {
        Method::Ack => "ACK"@,
        Method::Bye => "BYE"@,
        Method::Cancel => "CANCEL"@,
        Method::Info => "INFO"@,
        Method::Invite => "INVITE"@,
        Method::Message => "MESSAGE"@,
        Method::Notify => "NOTIFY"@,
        Method::Options => "OPTIONS"@,
        Method::PRack => "PRACK"@,
        Method::Publish => "PUBLISH"@,
        Method::Refer => "REFER"@,
        Method::Register => "REGISTER"@,
        Method::Subscribe => "SUBSCRIBE"@,
        Method::Update => "UPDATE"@,
    }
}

/// The name of a method as it stands on the wire.
pub fn method_name(m: Method) -> (r: String)
    ensures
        r@ == method_text(m),
{
    let s: &str = match m {
        Method::Ack => "ACK",
        Method::Bye => "BYE",
        Method::Cancel => "CANCEL",
        Method::Info => "INFO",
        Method::Invite => "INVITE",
        Method::Message => "MESSAGE",
        Method::Notify => "NOTIFY",
        Method::Options => "OPTIONS",
        Method::PRack => "PRACK",
        Method::Publish => "PUBLISH",
        Method::Refer => "REFER",
        Method::Register => "REGISTER",
        Method::Subscribe => "SUBSCRIBE",
        Method::Update => "UPDATE",
    };
    s.to_string()
}

/// The challenge a 401 (WWW-Authenticate) or 407 (Proxy-Authenticate) carries.
pub open spec fn challenge_in(resp: Response) -> Option<Challenge> {
    if resp.status_code == 401 {
        match first_of(resp.headers@, HeaderKind::WwwAuthenticate) {
            Some(Header::WwwAuthenticate(c)) => Some(c),
            _ => None,
        }
    } else if resp.status_code == 407 {
        match first_of(resp.headers@, HeaderKind::ProxyAuthenticate) {
            Some(Header::ProxyAuthenticate(c)) => Some(c),
            _ => None,
        }
    } else {
        None
    }
}

/// The challenge of a 401 or 407 response.
pub fn challenge_of(resp: &Response) -> (r: Option<Challenge>)
    ensures
        r == challenge_in(*resp),
{
    if resp.status_code == 401 {
        match position_of(&resp.headers, HeaderKind::WwwAuthenticate) {
            Some(i) => match &resp.headers[i] {
                Header::WwwAuthenticate(c) => Some(c.copy()),
                _ => None,
            },
            None => None,
        }
    } else if resp.status_code == 407 {
        match position_of(&resp.headers, HeaderKind::ProxyAuthenticate) {
            Some(i) => match &resp.headers[i] {
                Header::ProxyAuthenticate(c) => Some(c.copy()),
                _ => None,
            },
            None => None,
        }
    } else {
        None
    }
}

/// The realm used for a challenge: the credential's own, else the challenge's.
pub open spec fn realm_for(cred: Credential, ch: Challenge) -> String {
    match cred.realm {
        Some(r) => r,
        None => ch.realm,
    }
}

/// A request retried with credentials keeps the Call-ID, From and To of the
/// challenged one (so the same dialog), carries the new CSeq number `seq`,
/// and carries the credentials header `auth`.
pub proof fn lemma_retry_stays_in_call(h: Seq<Header>, via: Via, seq: u32, method: Method, auth: Header)
    requires
        auth.kind() == HeaderKind::Authorization || auth.kind() == HeaderKind::ProxyAuthorization,
    ensures
        ({
            let out = unique_pushed(
                unique_pushed(unique_pushed(h, Header::Via(via)), Header::CSeq(CSeq { seq, method })),
                auth,
            );
            &&& first_of(out, HeaderKind::CallId) == first_of(h, HeaderKind::CallId)
            &&& first_of(out, HeaderKind::From) == first_of(h, HeaderKind::From)
            &&& first_of(out, HeaderKind::To) == first_of(h, HeaderKind::To)
            &&& first_of(out, HeaderKind::CSeq) == Some(Header::CSeq(CSeq { seq, method }))
            &&& first_of(out, auth.kind()) == Some(auth)
        }),
{
    let v = Header::Via(via);
    let c = Header::CSeq(CSeq { seq, method });
    let s1 = unique_pushed(h, v);
    let s2 = unique_pushed(s1, c);
    let ks = seq![HeaderKind::CallId, HeaderKind::From, HeaderKind::To];
    assert forall|j: int| 0 <= j < 3 implies first_of(unique_pushed(s2, auth), #[trigger] ks[j]) == first_of(h, ks[j]) by {
        crate::message::lemma_unique_push_keeps_other(h, v, ks[j]);
        crate::message::lemma_unique_push_keeps_other(s1, c, ks[j]);
        crate::message::lemma_unique_push_keeps_other(s2, auth, ks[j]);
    }
    assert(first_of(unique_pushed(s2, auth), ks[0]) == first_of(h, ks[0]));
    assert(first_of(unique_pushed(s2, auth), ks[1]) == first_of(h, ks[1]));
    assert(first_of(unique_pushed(s2, auth), ks[2]) == first_of(h, ks[2]));
    crate::message::lemma_unique_push_only(s1, c);
    crate::message::lemma_unique_push_keeps_other(s2, auth, HeaderKind::CSeq);
    crate::message::lemma_unique_push_only(s2, auth);
}

/// The request retried after the challenge of `resp`: `req` with the Via `via`
/// (a new branch), CSeq number `seq`, and an Authorization (for a 401) or
/// Proxy-Authorization (for a 407) that carries the digest response of the
/// credential for the request's method and URI. Fails where `resp` holds no
/// challenge or the digest cannot be computed.
pub fn authorize(req: &Request, resp: &Response, cred: &Credential, via: Via, seq: u32) -> (r: Result<Request, Error>)
    ensures
        challenge_in(*resp).is_none() ==> r == Err::<Request, Error>(Error::AuthError),
        challenge_in(*resp).is_some() ==> {
            let ch = challenge_in(*resp).unwrap();
            let realm = realm_for(*cred, ch);
            match digest_of(cred.username@, realm@, cred.password@, ch.nonce@, method_text(req.method), req.uri@) {
                None => r == Err::<Request, Error>(Error::AuthError),
                Some(d) => r.is_ok() && exists|digest: String| #![trigger digest@] {
                    let out = r.unwrap();
                    let auth = Authorization {
                        username: cred.username,
                        realm,
                        nonce: ch.nonce,
                        uri: req.uri,
                        response: digest,
                        opaque: ch.opaque,
                    };
                    &&& digest@ == d
                    &&& out.method == req.method
                    &&& out.uri == req.uri
                    &&& out.body@ == req.body@
                    &&& out.headers@ == unique_pushed(
                        unique_pushed(
                            unique_pushed(req.headers@, Header::Via(via)),
                            Header::CSeq(CSeq { seq, method: req.method }),
                        ),
                        if resp.status_code == 401 {
                            Header::Authorization(auth)
                        } else {
                            Header::ProxyAuthorization(auth)
                        },
                    )
                },
            }
        },
{
    let ch = match challenge_of(resp) {
        Some(c) => c,
        None => {
            return Err(Error::AuthError);
        },
    };
    let realm = match &cred.realm {
        Some(r) => copy_string(r),
        None => copy_string(&ch.realm),
    };
    let method = method_name(req.method);
    let response = match compute_digest(&cred.username, &realm, &cred.password, &ch.nonce, &method, &req.uri) {
        Some(d) => d,
        None => {
            return Err(Error::AuthError);
        },
    };
    let auth = Authorization {
        username: copy_string(&cred.username),
        realm,
        nonce: ch.nonce,
        uri: copy_string(&req.uri),
        response,
        opaque: ch.opaque,
    };
    let ghost digest = auth.response;
    let mut out = req.copy();
    unique_push(&mut out.headers, Header::Via(via));
    unique_push(&mut out.headers, Header::CSeq(CSeq { seq, method: req.method }));
    if resp.status_code == 401 {
        unique_push(&mut out.headers, Header::Authorization(auth));
    } else {
        unique_push(&mut out.headers, Header::ProxyAuthorization(auth));
    }
    Ok(out)
}

} // verus!
