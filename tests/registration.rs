use rsipstack::auth::authorize;
use rsipstack::dialog::Credential;
use rsipstack::message::{
    Challenge, EndpointInner, EndpointOption, Header, Method, Response, Via,
};
use rsipstack::registration::{first_non_loopback_ipv4, HostWithPort, LocalAddress, RegisterStep, Registration};

fn endpoint() -> EndpointInner {
    EndpointInner { user_agent: "rsipstack-test".to_string(), option: EndpointOption::new() }
}

fn via(received: Option<&str>, rport: Option<u16>) -> Via {
    Via {
        transport: "UDP".to_string(),
        host: "10.0.0.2".to_string(),
        port: Some(5060),
        branch: "z9hG4bKreg".to_string(),
        received: received.map(|s| s.to_string()),
        rport,
    }
}

fn local() -> HostWithPort {
    HostWithPort { host: "10.0.0.2".to_string(), port: 5060 }
}

fn contact_uri(req: &rsipstack::message::Request) -> String {
    req.headers
        .iter()
        .find_map(|h| if let Header::Contact(c) = h { Some(c.uri.clone()) } else { None })
        .unwrap()
}

#[test]
fn digest_retry_on_register() {
    let ep = endpoint();
    let cred = Credential { username: "alice".to_string(), password: "secret".to_string(), realm: Some("r".to_string()) };
    let mut reg = Registration::new(Some(cred));
    let req = reg.make_register(&"server".to_string(), via(None, None), &local(), "ft".to_string(), "cid", &ep);
    assert_eq!(req.method, Method::Register);
    assert_eq!(req.uri, "sip:server");
    assert_eq!(reg.last_seq, 1);
    let mut challenge = ep.make_response(&req, 401, None);
    challenge.headers.push(Header::WwwAuthenticate(Challenge { realm: "r".to_string(), nonce: "n".to_string(), opaque: None }));
    let step = reg.on_response(&challenge, false);
    assert!(matches!(step, RegisterStep::Authenticate(2)));
    let retry = authorize(&req, &challenge, reg.credential.as_ref().unwrap(), via(None, None), reg.last_seq).unwrap();
    let auth = retry
        .headers
        .iter()
        .find_map(|h| if let Header::Authorization(a) = h { Some(a) } else { None })
        .unwrap();
    assert_eq!(auth.response, "bffddd2ede14729e8c731b3db2d993c0");
    assert_eq!(auth.username, "alice");
    assert_eq!(auth.realm, "r");
    assert_eq!(auth.nonce, "n");
    assert!(retry.headers.iter().any(|h| matches!(h, Header::CSeq(c) if c.seq == 2)));
    let ok = ep.make_response(&retry, 200, None);
    assert!(matches!(reg.on_response(&ok, true), RegisterStep::Done));
    assert_eq!(reg.expires(), 50);
    // a second challenge is the result
    assert!(matches!(reg.on_response(&challenge, true), RegisterStep::Done));
}

#[test]
fn challenge_without_credential_is_the_result() {
    let mut reg = Registration::new(None);
    let resp = Response { status_code: 407, headers: vec![], body: vec![] };
    assert!(matches!(reg.on_response(&resp, false), RegisterStep::Done));
    let trying = Response { status_code: 100, headers: vec![], body: vec![] };
    assert!(matches!(reg.on_response(&trying, false), RegisterStep::Continue));
}

#[test]
fn authorize_needs_a_challenge() {
    let ep = endpoint();
    let mut reg = Registration::new(None);
    let req = reg.make_register(&"server".to_string(), via(None, None), &local(), "ft".to_string(), "cid", &ep);
    let cred = Credential { username: "a".to_string(), password: "b".to_string(), realm: None };
    let resp = ep.make_response(&req, 401, None);
    assert_eq!(authorize(&req, &resp, &cred, via(None, None), 2).unwrap_err(), rsipstack::error::Error::AuthError);
}

#[test]
fn public_address_discovery() {
    let ep = endpoint();
    let mut reg = Registration::new(None);
    let req = reg.make_register(&"server".to_string(), via(None, None), &local(), "ft".to_string(), "cid", &ep);
    assert_eq!(contact_uri(&req), "sip:10.0.0.2:5060");
    let mut ok = ep.make_response(&req, 200, None);
    ok.headers[0] = Header::Via(via(Some("203.0.113.5"), Some(40000)));
    assert!(matches!(reg.on_response(&ok, false), RegisterStep::Done));
    let addr = reg.discovered_public_address().unwrap();
    assert_eq!(addr.host, "203.0.113.5");
    assert_eq!(addr.port, 40000);
    let next = reg.make_register(&"server".to_string(), via(None, None), &local(), "ft2".to_string(), "cid2", &ep);
    assert_eq!(contact_uri(&next), "sip:203.0.113.5:40000");
    assert!(next.headers.iter().any(|h| matches!(h, Header::CSeq(c) if c.seq == 2)));
}

#[test]
fn same_address_keeps_contact() {
    let mut reg = Registration::new(None);
    assert!(reg.update_public_address(&via(Some("1.2.3.4"), None)));
    reg.contact = Some(rsipstack::message::Contact { uri: "sip:x".to_string(), expires: Some(120) });
    assert!(!reg.update_public_address(&via(Some("1.2.3.4"), None)));
    assert_eq!(reg.expires(), 120);
    assert!(!reg.update_public_address(&via(None, None)));
    assert!(reg.update_public_address(&via(None, Some(7000))));
    assert!(reg.contact.is_none());
}

#[test]
fn contact_carries_the_user() {
    let cred = Credential { username: "alice".to_string(), password: "s".to_string(), realm: None };
    let reg = Registration::new(Some(cred));
    assert_eq!(reg.contact_for(&local()).uri, "sip:alice@10.0.0.2:5060");
    assert_eq!(rsipstack::registration::port_text(0), "0");
    assert_eq!(rsipstack::registration::port_text(65535), "65535");
}

#[test]
fn first_ipv4_skips_loopback_and_ipv6() {
    let addrs = vec![
        LocalAddress { loopback: true, ipv4: Some((127, 0, 0, 1)) },
        LocalAddress { loopback: false, ipv4: None },
        LocalAddress { loopback: false, ipv4: Some((10, 0, 0, 2)) },
        LocalAddress { loopback: false, ipv4: Some((10, 0, 0, 3)) },
    ];
    assert_eq!(first_non_loopback_ipv4(&addrs), Some(2));
    assert_eq!(first_non_loopback_ipv4(&addrs[..2].iter().map(|a| LocalAddress { loopback: a.loopback, ipv4: a.ipv4 }).collect()), None);
}
