use rsipstack::dialog::{
    ClientInviteDialog, ServerInviteDialog, DialogId, DialogInner, DialogState, InviteProgress, TerminatedReason,
};
use rsipstack::invitation::{DialogLayer, InviteOption};
use rsipstack::message::{
    CSeq, Contact, EndpointInner, EndpointOption, Header, Method, NameAddr, Request, Response, RouteEntry, Via,
};
use rsipstack::timer::Timer;
use rsipstack::transaction::{Connection, TransactionRole, TransactionState};

fn via(branch: &str) -> Via {
    Via {
        transport: "UDP".to_string(),
        host: "alice.example.com".to_string(),
        port: Some(5060),
        branch: branch.to_string(),
        received: None,
        rport: None,
    }
}

fn create_invite_request(from_tag: &str, to_tag: &str, call_id: &str) -> Request {
    Request {
        method: Method::Invite,
        uri: "sip:bob@example.com:5060".to_string(),
        headers: vec![
            Header::Via(via("z9hG4bKnashds")),
            Header::CSeq(CSeq { seq: 1, method: Method::Invite }),
            Header::From(NameAddr {
                display_name: Some("Alice".to_string()),
                uri: "sip:alice@example.com".to_string(),
                tag: Some(from_tag.to_string()),
            }),
            Header::To(NameAddr {
                display_name: Some("Bob".to_string()),
                uri: "sip:bob@example.com".to_string(),
                tag: if to_tag.is_empty() { None } else { Some(to_tag.to_string()) },
            }),
            Header::CallId(call_id.to_string()),
            Header::Contact(Contact { uri: "sip:alice@alice.example.com:5060".to_string(), expires: None }),
            Header::MaxForwards(70),
        ],
        body: b"v=0\r\no=alice 2890844526 2890844527 IN IP4 host.atlanta.com\r\n".to_vec(),
    }
}

fn new_dialog(id: &DialogId, req: Request) -> ClientInviteDialog {
    let inner = DialogInner::new(
        TransactionRole::Client,
        id.copy(),
        req,
        None,
        Some("sip:alice@alice.example.com:5060".to_string()),
        16,
    )
    .unwrap();
    ClientInviteDialog { inner }
}

fn endpoint() -> EndpointInner {
    EndpointInner { user_agent: "rsipstack-test".to_string(), option: EndpointOption::new() }
}

fn ringing(call_id: &str, extra: Vec<Header>, code: u16) -> Response {
    let mut headers = vec![
        Header::Via(via("z9hG4bKnashds")),
        Header::CSeq(CSeq { seq: 1, method: Method::Invite }),
        Header::From(NameAddr { display_name: Some("Alice".to_string()), uri: "sip:alice@example.com".to_string(), tag: Some("alice-tag".to_string()) }),
        Header::To(NameAddr { display_name: Some("Bob".to_string()), uri: "sip:bob@example.com".to_string(), tag: Some("bob-tag".to_string()) }),
        Header::CallId(call_id.to_string()),
        Header::Contact(Contact { uri: "sip:bob@bob.example.com:5060".to_string(), expires: None }),
    ];
    headers.extend(extra);
    Response { status_code: code, headers, body: vec![] }
}

#[test]
fn test_client_dialog_creation() {
    let dialog_id = DialogId {
        call_id: "test-call-id".to_string(),
        from_tag: "alice-tag".to_string(),
        to_tag: "bob-tag".to_string(),
    };
    let client_dialog = new_dialog(&dialog_id, create_invite_request("alice-tag", "", "test-call-id"));
    assert_eq!(client_dialog.id(), dialog_id);
    assert!(!client_dialog.inner.is_confirmed());
}

#[test]
fn test_client_dialog_sequence_handling() {
    let dialog_id = DialogId {
        call_id: "test-call-seq".to_string(),
        from_tag: "alice-tag".to_string(),
        to_tag: "bob-tag".to_string(),
    };
    let mut client_dialog = new_dialog(&dialog_id, create_invite_request("alice-tag", "bob-tag", "test-call-seq"));
    let initial_seq = client_dialog.inner.get_local_seq();
    assert_eq!(initial_seq, 1);
    let next_seq = client_dialog.inner.increment_local_seq();
    assert_eq!(next_seq, 2);
}

#[test]
fn test_client_dialog_state_transitions() {
    let dialog_id = DialogId {
        call_id: "test-call-flow".to_string(),
        from_tag: "alice-tag".to_string(),
        to_tag: "".to_string(),
    };
    let mut client_dialog = new_dialog(&dialog_id, create_invite_request("alice-tag", "", "test-call-flow"));
    assert!(matches!(client_dialog.inner.state(), DialogState::Calling(_)));
    client_dialog.inner.transition(DialogState::Trying(dialog_id.copy())).unwrap();
    assert!(matches!(client_dialog.inner.state(), DialogState::Trying(_)));
    let ringing_resp = ringing("test-call-flow", vec![], 180);
    client_dialog.inner.transition(DialogState::Early(dialog_id.copy(), ringing_resp)).unwrap();
    assert!(matches!(client_dialog.inner.state(), DialogState::Early(_, _)));
    client_dialog.inner.transition(DialogState::Confirmed(dialog_id.copy())).unwrap();
    assert!(matches!(client_dialog.inner.state(), DialogState::Confirmed(_)));
    assert!(client_dialog.inner.is_confirmed());
}

#[test]
fn test_client_dialog_termination_scenarios() {
    let dialog_id_1 = DialogId {
        call_id: "test-call-term-early".to_string(),
        from_tag: "alice-tag".to_string(),
        to_tag: "".to_string(),
    };
    let mut client_dialog_1 = new_dialog(&dialog_id_1, create_invite_request("alice-tag", "", "test-call-term-early"));
    client_dialog_1.inner.transition(DialogState::Terminated(dialog_id_1.copy(), TerminatedReason::UasBusy)).unwrap();
    assert!(matches!(client_dialog_1.inner.state(), DialogState::Terminated(_, TerminatedReason::UasBusy)));

    let dialog_id_2 = DialogId {
        call_id: "test-call-term-normal".to_string(),
        from_tag: "alice-tag".to_string(),
        to_tag: "bob-tag".to_string(),
    };
    let mut client_dialog_2 = new_dialog(&dialog_id_2, create_invite_request("alice-tag", "bob-tag", "test-call-term-normal"));
    client_dialog_2.inner.transition(DialogState::Confirmed(dialog_id_2.copy())).unwrap();
    assert!(client_dialog_2.inner.is_confirmed());
    client_dialog_2.inner.transition(DialogState::Terminated(dialog_id_2.copy(), TerminatedReason::UacBye)).unwrap();
    assert!(matches!(client_dialog_2.inner.state(), DialogState::Terminated(_, TerminatedReason::UacBye)));
}

#[test]
fn terminated_dialog_refuses_transitions() {
    let id = DialogId { call_id: "c".to_string(), from_tag: "a".to_string(), to_tag: "".to_string() };
    let mut d = new_dialog(&id, create_invite_request("a", "", "c"));
    d.inner.transition(DialogState::Terminated(id.copy(), TerminatedReason::Timeout)).unwrap();
    let before = d.inner.events().len();
    assert!(d.inner.transition(DialogState::Confirmed(id.copy())).is_err());
    assert!(matches!(d.inner.state(), DialogState::Terminated(_, TerminatedReason::Timeout)));
    assert_eq!(d.inner.events().len(), before);
}

#[test]
fn event_log_drops_oldest_when_full() {
    let id = DialogId { call_id: "c".to_string(), from_tag: "a".to_string(), to_tag: "".to_string() };
    let req = create_invite_request("a", "", "c");
    let mut d = DialogInner::new(TransactionRole::Client, id.copy(), req, None, None, 2).unwrap();
    d.transition(DialogState::Calling(id.copy())).unwrap();
    d.transition(DialogState::Trying(id.copy())).unwrap();
    d.transition(DialogState::Confirmed(id.copy())).unwrap();
    let ev = d.events();
    assert_eq!(ev.len(), 2);
    assert!(matches!(ev[0], DialogState::Trying(_)));
    assert!(matches!(ev[1], DialogState::Confirmed(_)));
}

#[test]
fn remote_cseq_must_increase_per_method() {
    let id = DialogId { call_id: "c".to_string(), from_tag: "a".to_string(), to_tag: "b".to_string() };
    let mut d = new_dialog(&id, create_invite_request("a", "b", "c"));
    assert!(d.inner.check_remote_seq(CSeq { seq: 5, method: Method::Info }).is_ok());
    assert!(d.inner.check_remote_seq(CSeq { seq: 5, method: Method::Info }).is_err());
    assert!(d.inner.check_remote_seq(CSeq { seq: 3, method: Method::Bye }).is_ok());
    assert!(d.inner.check_remote_seq(CSeq { seq: 6, method: Method::Info }).is_ok());
}

#[test]
fn remote_tag_is_set_once() {
    let id = DialogId { call_id: "c".to_string(), from_tag: "a".to_string(), to_tag: "".to_string() };
    let mut d = new_dialog(&id, create_invite_request("a", "", "c"));
    assert!(d.inner.update_remote_tag(&"x".to_string()));
    assert!(!d.inner.update_remote_tag(&"y".to_string()));
    assert_eq!(d.inner.id().to_tag, "x");
}

#[test]
fn strict_route_puts_target_last() {
    let id = DialogId { call_id: "c".to_string(), from_tag: "a".to_string(), to_tag: "b".to_string() };
    let mut d = new_dialog(&id, create_invite_request("a", "b", "c"));
    d.inner.remote_contact = Some("sip:bob@10.0.0.9".to_string());
    d.inner.route_set = vec![
        RouteEntry { uri: "sip:p1.example.com".to_string(), lr: false },
        RouteEntry { uri: "sip:p2.example.com;lr".to_string(), lr: true },
    ];
    let req = d.inner.make_request(Method::Info, via("z9hG4bK1"), &endpoint()).unwrap();
    assert_eq!(req.uri, "sip:p1.example.com");
    let routes: Vec<&str> = req
        .headers
        .iter()
        .filter_map(|h| if let Header::Route(r) = h { Some(r.uri.as_str()) } else { None })
        .collect();
    assert_eq!(routes, vec!["sip:p2.example.com;lr", "sip:bob@10.0.0.9"]);
    d.inner.route_set[0].lr = true;
    let req = d.inner.make_request(Method::Info, via("z9hG4bK2"), &endpoint()).unwrap();
    assert_eq!(req.uri, "sip:bob@10.0.0.9");
    assert!(matches!(&req.headers[4], Header::CSeq(c) if c.seq == 3 && c.method == Method::Info));
}

#[test]
fn local_cseq_strictly_increases() {
    let id = DialogId { call_id: "c".to_string(), from_tag: "a".to_string(), to_tag: "b".to_string() };
    let mut d = new_dialog(&id, create_invite_request("a", "b", "c"));
    let mut last = d.inner.get_local_seq();
    for m in [Method::Info, Method::Update, Method::Options, Method::Bye] {
        let req = d.inner.make_request(m, via("z9hG4bK"), &endpoint()).unwrap();
        let seq = match &req.headers[4] {
            Header::CSeq(c) => c.seq,
            _ => panic!("no CSeq"),
        };
        assert!(seq > last);
        last = seq;
    }
    assert_eq!(last, 5);
}

#[test]
fn failure_codes_give_reasons() {
    assert_eq!(rsipstack::dialog::terminated_reason_for(486), TerminatedReason::UasBusy);
    assert_eq!(rsipstack::dialog::terminated_reason_for(487), TerminatedReason::UacCancel);
    assert_eq!(rsipstack::dialog::terminated_reason_for(408), TerminatedReason::Timeout);
    assert_eq!(rsipstack::dialog::terminated_reason_for(404), TerminatedReason::UasOther(404));
}

fn option() -> InviteOption {
    InviteOption {
        caller: "sip:alice@example.com".to_string(),
        callee: "sip:bob@example.com".to_string(),
        destination: None,
        content_type: None,
        offer: Some(b"v=0".to_vec()),
        contact: "sip:alice@10.0.0.2:5060".to_string(),
        credential: None,
        headers: None,
    }
}

#[test]
fn invite_request_from_options() {
    let mut layer = DialogLayer::new(endpoint());
    let req = layer.make_invite_request(&option(), via("z9hG4bKi"), "ft".to_string(), "cid");
    assert_eq!(layer.last_seq, 1);
    assert_eq!(req.method, Method::Invite);
    assert_eq!(req.uri, "sip:bob@example.com");
    assert!(req.headers.iter().any(|h| matches!(h, Header::ContentType(c) if c == "application/sdp")));
    assert!(req.headers.iter().any(|h| matches!(h, Header::Contact(c) if c.uri == "sip:alice@10.0.0.2:5060")));
    assert!(matches!(&req.headers[3], Header::To(t) if t.tag.is_none()));
}

#[test]
fn happy_invite_and_bye() {
    let ep = endpoint();
    let mut timers = Timer::new();
    let mut layer = DialogLayer::new(endpoint());
    let (mut dialog, mut tx) = layer
        .create_client_invite_dialog(option(), via("z9hG4bKinv"), "alice-tag".to_string(), "call-7", 16)
        .unwrap();
    let id = dialog.id();
    assert_eq!(id.to_tag, "");
    layer.confirm_client_dialog(ClientInviteDialog { inner: DialogInner::new(TransactionRole::Client, id.copy(), dialog.inner.initial_request.copy(), None, None, 1).unwrap() });
    assert_eq!(layer.len(), 1);
    dialog.inner.transition(DialogState::Calling(id.copy())).unwrap();
    tx.connection = Some(Connection { reliable: true });
    tx.send(&ep, &mut timers, 0).unwrap();
    dialog.inner.transition(DialogState::Trying(id.copy())).unwrap();
    let r180 = tx.on_received_response(ringing("call-7", vec![], 180), &ep, &mut timers, 10).unwrap();
    assert!(matches!(dialog.on_invite_response(r180, false, via("z9hG4bKx"), &ep), InviteProgress::Early));
    let rr = Header::RecordRoute(RouteEntry { uri: "sip:proxy.example.com;lr".to_string(), lr: true });
    let r200 = tx.on_received_response(ringing("call-7", vec![rr], 200), &ep, &mut timers, 20).unwrap();
    let ack = match dialog.on_invite_response(r200, false, via("z9hG4bKack"), &ep) {
        InviteProgress::Confirmed(ack) => ack,
        _ => panic!("not confirmed"),
    };
    assert_eq!(ack.method, Method::Ack);
    assert_eq!(ack.uri, "sip:bob@bob.example.com:5060");
    assert!(matches!(&ack.headers[4], Header::CSeq(c) if c.seq == 1 && c.method == Method::Ack));
    assert!(matches!(&ack.headers[3], Header::To(t) if t.tag.as_deref() == Some("bob-tag")));
    let events = dialog.inner.events();
    assert_eq!(events.len(), 4);
    assert!(matches!(events[0], DialogState::Calling(_)));
    assert!(matches!(events[1], DialogState::Trying(_)));
    assert!(matches!(&events[2], DialogState::Early(_, r) if r.status_code == 180));
    assert!(matches!(events[3], DialogState::Confirmed(_)));
    let confirmed_id = dialog.id();
    assert_eq!(confirmed_id.to_tag, "bob-tag");
    assert!(layer.remove_dialog(&id).is_some());
    let bye = dialog.inner.make_request(Method::Bye, via("z9hG4bKbye"), &ep).unwrap();
    assert!(matches!(&bye.headers[4], Header::CSeq(c) if c.seq == 2 && c.method == Method::Bye));
    dialog.inner.transition(DialogState::Terminated(confirmed_id.copy(), TerminatedReason::UacBye)).unwrap();
    assert!(matches!(dialog.inner.state(), DialogState::Terminated(_, TerminatedReason::UacBye)));
    assert_eq!(layer.len(), 0);
    assert_eq!(tx.state, TransactionState::Completed);
}

#[test]
fn cancel_race_ends_with_uac_cancel() {
    let ep = endpoint();
    let mut timers = Timer::new();
    let mut layer = DialogLayer::new(endpoint());
    let (mut dialog, mut tx) = layer
        .create_client_invite_dialog(option(), via("z9hG4bKinv"), "alice-tag".to_string(), "call-8", 16)
        .unwrap();
    tx.connection = Some(Connection { reliable: false });
    tx.send(&ep, &mut timers, 0).unwrap();
    let r180 = tx.on_received_response(ringing("call-8", vec![], 180), &ep, &mut timers, 10).unwrap();
    dialog.on_invite_response(r180, false, via("z9hG4bKx"), &ep);
    let cancel = tx.send_cancel(Request { method: Method::Cancel, uri: "sip:bob@example.com".to_string(), headers: vec![], body: vec![] }, &ep, &mut timers, 20).unwrap();
    assert!(cancel.is_some());
    assert_eq!(tx.state, TransactionState::Terminated);
    let r487 = ringing("call-8", vec![], 487);
    match dialog.on_invite_response(r487, false, via("z9hG4bKy"), &ep) {
        InviteProgress::Failed(reason) => assert_eq!(reason, TerminatedReason::UacCancel),
        _ => panic!("expected failure"),
    }
    assert!(matches!(dialog.inner.state(), DialogState::Terminated(_, TerminatedReason::UacCancel)));
}

#[test]
fn challenge_with_credential_asks_for_retry() {
    let ep = endpoint();
    let mut layer = DialogLayer::new(endpoint());
    let mut opt = option();
    opt.credential = Some(rsipstack::dialog::Credential { username: "alice".to_string(), password: "pw".to_string(), realm: None });
    let (mut dialog, _tx) = layer.create_client_invite_dialog(opt, via("z9hG4bKinv"), "t".to_string(), "call-9", 4).unwrap();
    let r401 = ringing("call-9", vec![], 401);
    let before = dialog.inner.get_local_seq();
    assert!(matches!(dialog.on_invite_response(r401, false, via("v"), &ep), InviteProgress::Challenged(s) if s == before + 1));
    assert_eq!(dialog.inner.get_local_seq(), before + 1);
    let r401 = ringing("call-9", vec![], 401);
    assert!(matches!(dialog.on_invite_response(r401, true, via("v"), &ep), InviteProgress::Failed(TerminatedReason::UasOther(401))));
}

#[test]
fn server_dialog_happy_path_and_bye() {
    let ep = endpoint();
    let req = create_invite_request("alice-tag", "", "call-s");
    let id = DialogId { call_id: "call-s".to_string(), from_tag: "alice-tag".to_string(), to_tag: "bob-tag".to_string() };
    let inner = DialogInner::new(TransactionRole::Server, id.copy(), req.copy(), None, Some("sip:bob@10.0.0.3".to_string()), 8).unwrap();
    let mut layer = DialogLayer::new(endpoint());
    layer.insert_dialog(inner.copy());
    let mut dialog = ServerInviteDialog { inner };
    assert!(dialog.on_response_sent(ep.make_response(&req, 100, None)).is_ok());
    assert!(matches!(dialog.inner.state(), DialogState::Calling(_)));
    assert!(dialog.on_response_sent(ringing("call-s", vec![], 180)).is_ok());
    assert!(matches!(dialog.inner.state(), DialogState::Early(_, _)));
    assert!(dialog.on_response_sent(ringing("call-s", vec![], 200)).is_ok());
    assert!(matches!(dialog.inner.state(), DialogState::WaitAck(_, _)));
    assert!(dialog.on_ack().is_ok());
    assert!(dialog.inner.is_confirmed());
    let mut bye = create_invite_request("alice-tag", "bob-tag", "call-s");
    bye.method = Method::Bye;
    bye.headers[1] = Header::CSeq(CSeq { seq: 2, method: Method::Bye });
    assert!(dialog.on_request(&bye).is_ok());
    assert!(matches!(dialog.inner.state(), DialogState::Terminated(_, TerminatedReason::UacBye)));
    assert!(dialog.on_request(&bye).is_err());
    assert!(layer.remove_dialog(&id).is_some());
    assert_eq!(layer.len(), 0);
}

#[test]
fn server_dialog_failure_ends_it() {
    let req = create_invite_request("a", "", "call-f");
    let id = DialogId { call_id: "call-f".to_string(), from_tag: "a".to_string(), to_tag: "".to_string() };
    let mut dialog = ServerInviteDialog { inner: DialogInner::new(TransactionRole::Server, id, req, None, None, 4).unwrap() };
    assert!(dialog.on_ack().is_err());
    assert!(dialog.on_response_sent(ringing("call-f", vec![], 486)).is_ok());
    assert!(matches!(dialog.inner.state(), DialogState::Terminated(_, TerminatedReason::UasBusy)));
    assert!(dialog.on_response_sent(ringing("call-f", vec![], 200)).is_err());
}

#[test]
fn timeout_response_ends_dialog_with_timeout() {
    let ep = endpoint();
    let mut layer = DialogLayer::new(endpoint());
    let (mut dialog, _tx) = layer.create_client_invite_dialog(option(), via("z9hG4bKt"), "t".to_string(), "call-t", 4).unwrap();
    let timeout = ep.make_response(&dialog.inner.initial_request, 408, None);
    assert!(matches!(dialog.on_invite_response(timeout, false, via("v"), &ep), InviteProgress::Failed(TerminatedReason::Timeout)));
    assert!(matches!(dialog.inner.state(), DialogState::Terminated(_, TerminatedReason::Timeout)));
}

#[test]
fn invite_transaction_keeps_destination_and_length() {
    let mut layer = DialogLayer::new(endpoint());
    let mut opt = option();
    opt.destination = Some("10.0.0.9:5060".to_string());
    let (_d, tx) = layer.create_client_invite_dialog(opt, via("z9hG4bKd"), "t".to_string(), "call-d", 4).unwrap();
    assert_eq!(tx.destination.as_deref(), Some("10.0.0.9:5060"));
    assert!(tx.original.headers.iter().any(|h| matches!(h, Header::ContentLength(3))));
}
