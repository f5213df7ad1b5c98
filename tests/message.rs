use rsipstack::message::{
    CSeq, EndpointInner, EndpointOption, Header, Method, NameAddr, Request, Via,
};

fn via() -> Via {
    Via {
        transport: "UDP".to_string(),
        host: "alice.example.com".to_string(),
        port: Some(5060),
        branch: "z9hG4bKnashds".to_string(),
        received: None,
        rport: None,
    }
}

fn endpoint() -> EndpointInner {
    EndpointInner { user_agent: "rsipstack-test".to_string(), option: EndpointOption::new() }
}

fn request() -> Request {
    Request {
        method: Method::Invite,
        uri: "sip:bob@example.com:5060".to_string(),
        headers: vec![
            Header::Via(via()),
            Header::CSeq(CSeq { seq: 1, method: Method::Invite }),
            Header::From(NameAddr { display_name: None, uri: "sip:alice@example.com".to_string(), tag: Some("alice-tag".to_string()) }),
            Header::To(NameAddr { display_name: None, uri: "sip:bob@example.com".to_string(), tag: None }),
            Header::CallId("test-call-id".to_string()),
            Header::Contact(rsipstack::message::Contact { uri: "sip:alice@alice.example.com:5060".to_string(), expires: None }),
            Header::MaxForwards(70),
            Header::Other("Subject".to_string(), "hello".to_string()),
        ],
        body: b"v=0\r\n".to_vec(),
    }
}

#[test]
fn response_copies_dialog_headers_only() {
    let ep = endpoint();
    let req = request();
    let resp = ep.make_response(&req, 180, None);
    assert_eq!(resp.status_code, 180);
    assert!(resp.body.is_empty());
    assert_eq!(resp.headers.len(), 7);
    assert!(matches!(&resp.headers[0], Header::Via(v) if v.branch == "z9hG4bKnashds"));
    assert!(matches!(&resp.headers[1], Header::CSeq(c) if c.seq == 1 && c.method == Method::Invite));
    assert!(matches!(&resp.headers[2], Header::From(f) if f.tag.as_deref() == Some("alice-tag")));
    assert!(matches!(&resp.headers[3], Header::To(t) if t.tag.is_none()));
    assert!(matches!(&resp.headers[4], Header::CallId(c) if c == "test-call-id"));
    assert!(matches!(&resp.headers[5], Header::MaxForwards(70)));
    assert!(matches!(&resp.headers[6], Header::UserAgent(u) if u == "rsipstack-test"));
}

#[test]
fn response_carries_the_body() {
    let ep = endpoint();
    let resp = ep.make_response(&request(), 200, Some(b"answer".to_vec()));
    assert_eq!(resp.body, b"answer".to_vec());
}

#[test]
fn request_has_mandatory_headers_in_order() {
    let mut ep = endpoint();
    ep.option.callid_suffix = Some("host.example".to_string());
    let cid = ep.make_call_id("abc");
    assert_eq!(cid, "abc@host.example");
    let from = NameAddr { display_name: None, uri: "sip:alice@example.com".to_string(), tag: Some("t1".to_string()) };
    let to = NameAddr { display_name: None, uri: "sip:bob@example.com".to_string(), tag: None };
    let req = ep.make_request(Method::Options, "sip:bob@example.com".to_string(), via(), from, to, 7, cid);
    assert_eq!(req.method, Method::Options);
    assert_eq!(req.headers.len(), 7);
    assert!(matches!(&req.headers[1], Header::CallId(c) if c == "abc@host.example"));
    assert!(matches!(&req.headers[4], Header::CSeq(c) if c.seq == 7 && c.method == Method::Options));
    assert!(matches!(&req.headers[5], Header::MaxForwards(70)));
    assert!(req.body.is_empty());
}

#[test]
fn call_id_without_suffix_is_the_id() {
    let ep = endpoint();
    assert_eq!(ep.make_call_id("xyz"), "xyz");
}

#[test]
fn default_options() {
    let o = EndpointOption::new();
    assert_eq!((o.t1, o.t1x64, o.t4), (500, 32000, 5000));
}
