use rsipstack::error::{Error, TransactionErrorKind};
use rsipstack::message::{
    CSeq, EndpointInner, EndpointOption, Header, Message, Method, NameAddr, Request, Response, Via,
};
use rsipstack::timer::Timer;
use rsipstack::transaction::{route_incoming, Route};
use rsipstack::transaction::{
    Connection, Transaction, TransactionEvent, TransactionKey, TransactionRole, TransactionState,
    TransactionTimer, TransactionType,
};

fn endpoint() -> EndpointInner {
    EndpointInner { user_agent: "rsipstack-test".to_string(), option: EndpointOption::new() }
}

fn invite(method: Method) -> Request {
    Request {
        method,
        uri: "sip:bob@example.com".to_string(),
        headers: vec![
            Header::Via(Via {
                transport: "UDP".to_string(),
                host: "10.0.0.2".to_string(),
                port: Some(5060),
                branch: "z9hG4bKabc".to_string(),
                received: None,
                rport: None,
            }),
            Header::CallId("call-1".to_string()),
            Header::From(NameAddr { display_name: None, uri: "sip:alice@example.com".to_string(), tag: Some("a".to_string()) }),
            Header::To(NameAddr { display_name: None, uri: "sip:bob@example.com".to_string(), tag: None }),
            Header::CSeq(CSeq { seq: 1, method }),
        ],
        body: b"sdp".to_vec(),
    }
}

fn response(code: u16) -> Response {
    endpoint().make_response(&invite(Method::Invite), code, None)
}

fn client(reliable: bool) -> Transaction {
    let req = invite(Method::Invite);
    let key = TransactionKey::from_request(&req, TransactionRole::Client).unwrap();
    Transaction::new_client(key, req, Some(Connection { reliable }))
}

fn server(reliable: bool) -> Transaction {
    let req = invite(Method::Invite);
    let key = TransactionKey::from_request(&req, TransactionRole::Server).unwrap();
    Transaction::new_server(key, req, Some(Connection { reliable }))
}

#[test]
fn key_of_ack_matches_invite() {
    let k = TransactionKey::from_request(&invite(Method::Ack), TransactionRole::Server).unwrap();
    assert_eq!(k.method, Method::Invite);
    assert_eq!(k.branch, "z9hG4bKabc");
    assert_eq!(k.host, "10.0.0.2");
    assert_eq!(k.port, Some(5060));
    let mut req = invite(Method::Bye);
    req.headers.remove(0);
    assert!(matches!(
        TransactionKey::from_request(&req, TransactionRole::Client),
        Err(Error::ProtocolError(rsipstack::error::MissingHeader::Via))
    ));
}

#[test]
fn transaction_types() {
    assert_eq!(client(false).transaction_type, TransactionType::ClientInvite);
    assert_eq!(server(false).transaction_type, TransactionType::ServerInvite);
    let req = invite(Method::Register);
    let key = TransactionKey::from_request(&req, TransactionRole::Client).unwrap();
    assert_eq!(Transaction::new_client(key, req, None).transaction_type, TransactionType::ClientNonInvite);
}

#[test]
fn legal_transition_table() {
    let mut tx = client(true);
    assert!(tx.can_transition(TransactionState::Trying).is_ok());
    assert!(tx.can_transition(TransactionState::Proceeding).is_ok());
    assert!(tx.can_transition(TransactionState::Completed).is_err());
    assert!(tx.can_transition(TransactionState::Calling).is_err());
    tx.state = TransactionState::Completed;
    assert!(tx.can_transition(TransactionState::Confirmed).is_ok());
    assert!(tx.can_transition(TransactionState::Trying).is_err());
    tx.state = TransactionState::Terminated;
    assert!(tx.can_transition(TransactionState::Terminated).is_err());
}

#[test]
fn send_stamps_content_length_and_enters_trying() {
    let ep = endpoint();
    let mut timers = Timer::new();
    let mut tx = client(true);
    let out = tx.send(&ep, &mut timers, 0).unwrap();
    assert_eq!(tx.state, TransactionState::Trying);
    assert!(matches!(out.headers.last(), Some(Header::ContentLength(3))));
    // reliable transport: Timer B only
    assert_eq!(timers.len(), 1);
    assert!(tx.timer_a.is_none());
}

#[test]
fn send_without_connection_fails() {
    let ep = endpoint();
    let mut timers = Timer::new();
    let req = invite(Method::Invite);
    let key = TransactionKey::from_request(&req, TransactionRole::Client).unwrap();
    let mut tx = Transaction::new_client(key, req, None);
    assert_eq!(
        tx.send(&ep, &mut timers, 0).unwrap_err(),
        Error::TransactionError(TransactionErrorKind::NoConnection)
    );
    assert_eq!(tx.state, TransactionState::Calling);
    let mut srv = server(false);
    assert_eq!(
        srv.send(&ep, &mut timers, 0).unwrap_err(),
        Error::TransactionError(TransactionErrorKind::NotClient)
    );
}

#[test]
fn invite_timeout_on_udp() {
    let ep = endpoint();
    let mut timers = Timer::new();
    let mut tx = client(false);
    tx.send(&ep, &mut timers, 0).unwrap();
    let mut retransmits: Vec<u64> = Vec::new();
    let mut intervals: Vec<u64> = Vec::new();
    let mut timeout: Option<(u64, u16)> = None;
    let mut now: u64 = 0;
    while now <= 40_000 && !tx.is_terminated() {
        for t in timers.poll(now) {
            if let TransactionTimer::TimerA(_, d) = &t {
                intervals.push(*d);
            }
            let step = tx.on_timer(t, &ep, &mut timers, now);
            if !step.outgoing.is_empty() {
                assert!(matches!(&step.outgoing[0], Message::Request(r) if r.method == Method::Invite));
                retransmits.push(now);
            }
            if let Some(Message::Response(r)) = step.to_tu {
                timeout = Some((now, r.status_code));
            }
        }
        now += 100;
    }
    assert_eq!(intervals, vec![500, 1000, 2000, 4000, 8000, 16000]);
    assert_eq!(retransmits, vec![500, 1500, 3500, 7500, 15500, 31500]);
    assert_eq!(timeout, Some((32000, 408)));
    assert_eq!(tx.state, TransactionState::Terminated);
    assert_eq!(timers.len(), 0);
}

#[test]
fn provisional_stops_retransmission() {
    let ep = endpoint();
    let mut timers = Timer::new();
    let mut tx = client(false);
    tx.send(&ep, &mut timers, 0).unwrap();
    assert!(tx.on_received_response(response(100), &ep, &mut timers, 10).is_none());
    let r = tx.on_received_response(response(180), &ep, &mut timers, 20).unwrap();
    assert_eq!(r.status_code, 180);
    assert_eq!(tx.state, TransactionState::Proceeding);
    assert!(tx.timer_a.is_none());
    assert!(tx.on_received_response(response(180), &ep, &mut timers, 30).is_none());
    let r = tx.on_received_response(response(486), &ep, &mut timers, 40).unwrap();
    assert_eq!(r.status_code, 486);
    assert_eq!(tx.state, TransactionState::Completed);
    let ack = tx.send_ack(invite(Method::Ack), &ep, &mut timers, 50).unwrap();
    assert_eq!(ack.method, Method::Ack);
    assert_eq!(tx.state, TransactionState::Terminated);
    assert!(matches!(tx.cleanup(&mut timers), Some(Message::Request(r)) if r.method == Method::Ack));
    assert!(tx.cleanup(&mut timers).is_none());
    assert_eq!(timers.len(), 0);
}

#[test]
fn client_completed_on_reliable_waits_zero() {
    let ep = endpoint();
    let mut timers = Timer::new();
    let mut tx = client(true);
    tx.send(&ep, &mut timers, 0).unwrap();
    tx.on_received_response(response(404), &ep, &mut timers, 100).unwrap();
    assert_eq!(tx.state, TransactionState::Completed);
    let due = timers.poll(100);
    assert_eq!(due.len(), 1);
    assert!(matches!(due[0], TransactionTimer::TimerD(_)));
}

#[test]
fn server_retransmits_until_ack() {
    let ep = endpoint();
    let mut timers = Timer::new();
    let mut tx = server(false);
    let r = tx.send_trying(&ep, &mut timers, 0).unwrap();
    assert_eq!(r.status_code, 100);
    let ok = tx.reply(200, "bob-tag".to_string(), &ep, &mut timers, 0).unwrap();
    assert_eq!(ok.status_code, 200);
    assert!(ok.headers.iter().any(|h| matches!(h, Header::To(t) if t.tag.as_deref() == Some("bob-tag"))));
    assert_eq!(tx.state, TransactionState::Completed);
    let mut fired: Vec<u64> = Vec::new();
    let mut now: u64 = 0;
    while now < 2000 {
        for t in timers.poll(now) {
            let step = tx.on_timer(t, &ep, &mut timers, now);
            for m in step.outgoing.iter() {
                assert!(matches!(m, Message::Response(r) if r.status_code == 200));
                fired.push(now);
            }
        }
        now += 100;
    }
    assert_eq!(fired, vec![500, 1500]);
    let step = tx.on_received_request(invite(Method::Ack), None, &ep, &mut timers, 2000);
    assert!(matches!(step.to_tu, Some(Message::Request(r)) if r.method == Method::Ack));
    assert_eq!(tx.state, TransactionState::Confirmed);
    assert!(tx.timer_g.is_none());
    assert_eq!(timers.len(), 1);
    assert!(timers.poll(6999).is_empty());
    let due = timers.poll(7000);
    assert_eq!(due.len(), 1);
    for t in due {
        tx.on_timer(t, &ep, &mut timers, 7000);
    }
    assert_eq!(tx.state, TransactionState::Terminated);
}

#[test]
fn server_cannot_reply_final_from_calling() {
    let ep = endpoint();
    let mut timers = Timer::new();
    let mut tx = server(true);
    assert_eq!(
        tx.reply(486, "t".to_string(), &ep, &mut timers, 0).unwrap_err(),
        Error::TransactionError(TransactionErrorKind::InvalidTransition)
    );
    assert_eq!(tx.state, TransactionState::Calling);
}

#[test]
fn cancel_on_server_and_client() {
    let ep = endpoint();
    let mut timers = Timer::new();
    let mut srv = server(true);
    srv.reply(180, "b".to_string(), &ep, &mut timers, 0).unwrap();
    let step = srv.on_received_request(invite(Method::Cancel), None, &ep, &mut timers, 10);
    assert!(matches!(&step.outgoing[0], Message::Response(r) if r.status_code == 200));
    assert!(matches!(step.to_tu, Some(Message::Request(r)) if r.method == Method::Cancel));
    let r = srv.reply(487, "b".to_string(), &ep, &mut timers, 20).unwrap();
    assert_eq!(r.status_code, 487);
    assert_eq!(srv.state, TransactionState::Completed);

    let mut late = server(true);
    let step = late.on_received_request(invite(Method::Cancel), None, &ep, &mut timers, 10);
    assert!(matches!(&step.outgoing[0], Message::Response(r) if r.status_code == 481));
    assert!(step.to_tu.is_none());

    let mut cli = client(true);
    cli.send(&ep, &mut timers, 0).unwrap();
    cli.on_received_response(response(180), &ep, &mut timers, 5).unwrap();
    let c = cli.send_cancel(invite(Method::Cancel), &ep, &mut timers, 6).unwrap();
    assert!(c.is_some());
    assert_eq!(cli.state, TransactionState::Terminated);
    assert_eq!(
        cli.send_cancel(invite(Method::Cancel), &ep, &mut timers, 7).unwrap_err(),
        Error::TransactionError(TransactionErrorKind::InvalidStateForCancel)
    );
}

#[test]
fn duplicate_request_replays_last_response() {
    let ep = endpoint();
    let mut timers = Timer::new();
    let mut srv = server(true);
    srv.reply(180, "b".to_string(), &ep, &mut timers, 0).unwrap();
    let step = srv.on_received_request(invite(Method::Invite), None, &ep, &mut timers, 10);
    assert_eq!(step.outgoing.len(), 1);
    assert!(matches!(&step.outgoing[0], Message::Response(r) if r.status_code == 180));
}

#[test]
fn mailbox_events() {
    let ep = endpoint();
    let mut timers = Timer::new();
    let mut srv = server(true);
    let (step, closed) = srv.receive(TransactionEvent::Respond(response(180)), &ep, &mut timers, 0);
    assert_eq!(step.outgoing.len(), 1);
    assert!(!closed);
    let (_, closed) = srv.receive(TransactionEvent::Terminate, &ep, &mut timers, 0);
    assert!(closed);
}

#[test]
fn routing_of_incoming_messages() {
    assert_eq!(route_incoming(true, Method::Invite, true), Route::ToTransaction);
    assert_eq!(route_incoming(false, Method::Invite, true), Route::ToTransaction);
    assert_eq!(route_incoming(true, Method::Invite, false), Route::NewServerTransaction);
    assert_eq!(route_incoming(true, Method::Ack, false), Route::ToDialog);
    assert_eq!(route_incoming(false, Method::Bye, false), Route::Drop);
}

#[test]
fn resend_on_reliable_keeps_no_timer_a() {
    let ep = endpoint();
    let mut timers = Timer::new();
    let mut tx = client(true);
    tx.send(&ep, &mut timers, 0).unwrap();
    tx.send(&ep, &mut timers, 10).unwrap();
    assert!(tx.timer_a.is_none());
    assert_eq!(tx.state, TransactionState::Trying);
    let mut udp = client(false);
    udp.send(&ep, &mut timers, 0).unwrap();
    assert!(udp.timer_a.is_some());
}

#[test]
fn server_runs_no_timer_b_and_no_g_on_reliable() {
    let ep = endpoint();
    let mut timers = Timer::new();
    let mut srv = server(true);
    srv.reply(180, "b".to_string(), &ep, &mut timers, 0).unwrap();
    assert!(srv.timer_b.is_none());
    assert_eq!(timers.len(), 0);
    srv.reply(486, "b".to_string(), &ep, &mut timers, 0).unwrap();
    assert_eq!(srv.state, TransactionState::Completed);
    assert!(srv.timer_g.is_none());
    assert!(srv.timer_d.is_some());
    assert_eq!(timers.len(), 1);
}
