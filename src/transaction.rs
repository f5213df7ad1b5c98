//! The transaction state machine: states, legal transitions, retransmission
//! and timeout timers, and the decisions taken on each message and timer event.
use vstd::prelude::*;
use crate::error::{Error, MissingHeader, TransactionErrorKind};
use crate::message::{
    copy_string, first_of, position_of, unique_push, EndpointInner, EndpointOption, Header,
    HeaderKind, Message, Method, Request, Response,
};
use crate::timer::{cancel_post, has_id, ids_distinct, schedule_post, Timer, TimerEntry};

verus! {

/// Which side of a transaction this endpoint is.
#[derive(PartialEq, Eq, Structural, Clone, Copy, Debug)]
pub enum TransactionRole {
    Client,
    Server,
}

/// Identifies a transaction: method family, topmost Via branch and sent-by, role.
#[derive(Debug)]
pub struct TransactionKey {
    pub method: Method,
    pub branch: String,
    pub host: String,
    pub port: Option<u16>,
    pub role: TransactionRole,
}

/// The method under which a request is matched: an ACK matches its INVITE.
pub open spec fn matching_method(m: Method) -> Method {
    if m == Method::Ack {
        Method::Invite
    } else {
        m
    }
}

impl TransactionKey {
    pub fn copy(&self) -> (r: TransactionKey)
        ensures
            r == *self,
    {
        TransactionKey {
            method: self.method,
            branch: copy_string(&self.branch),
            host: copy_string(&self.host),
            port: self.port,
            role: self.role,
        }
    }

    /// The key of `req` from its topmost Via; an ACK is keyed as its INVITE.
    pub fn from_request(req: &Request, role: TransactionRole) -> (r: Result<TransactionKey, Error>)
        ensures
            match first_of(req.headers@, HeaderKind::Via) {
                Some(Header::Via(v)) => r == Ok::<TransactionKey, Error>(
                    TransactionKey {
                        method: matching_method(req.method),
                        branch: v.branch,
                        host: v.host,
                        port: v.port,
                        role,
                    },
                ),
                _ => r == Err::<TransactionKey, Error>(Error::ProtocolError(MissingHeader::Via)),
            },
    {
        match position_of(&req.headers, HeaderKind::Via) {
            Some(i) => match &req.headers[i] {
                Header::Via(v) => {
                    let method = if req.method == Method::Ack {
                        Method::Invite
                    } else {
                        req.method
                    };
                    Ok(
                        TransactionKey {
                            method,
                            branch: copy_string(&v.branch),
                            host: copy_string(&v.host),
                            port: v.port,
                            role,
                        },
                    )
                },
                _ => Err(Error::ProtocolError(MissingHeader::Via)),
            },
            None => Err(Error::ProtocolError(MissingHeader::Via)),
        }
    }
}

/// The states of a transaction.
#[derive(PartialEq, Eq, Structural, Clone, Copy, Debug)]
pub enum TransactionState {
    Calling,
    Trying,
    Proceeding,
    Completed,
    Confirmed,
    Terminated,
}

/// The four kinds of transaction.
#[derive(PartialEq, Eq, Structural, Clone, Copy, Debug)]
pub enum TransactionType {
    ClientInvite,
    ClientNonInvite,
    ServerInvite,
    ServerNonInvite,
}

pub open spec fn is_client(t: TransactionType) -> bool {
    t == TransactionType::ClientInvite || t == TransactionType::ClientNonInvite
}

/// The table of legal transitions.
pub open spec fn legal_transition(from: TransactionState, to: TransactionState) -> bool {
    match to {
        TransactionState::Calling => false,
        TransactionState::Trying => from == TransactionState::Calling || from == TransactionState::Trying,
        TransactionState::Proceeding => from == TransactionState::Calling || from == TransactionState::Trying,
        TransactionState::Completed => from == TransactionState::Trying || from == TransactionState::Proceeding,
        TransactionState::Confirmed => from == TransactionState::Trying || from == TransactionState::Proceeding
            || from == TransactionState::Completed,
        TransactionState::Terminated => from != TransactionState::Terminated,
    }
}

/// Position of a state in the order in which a transaction moves.
pub open spec fn rank(s: TransactionState) -> int {
    match s {
        TransactionState::Calling => 0,
        TransactionState::Trying => 1,
        TransactionState::Proceeding => 2,
        TransactionState::Completed => 3,
        TransactionState::Confirmed => 4,
        TransactionState::Terminated => 5,
    }
}

/// A step that a transaction may take: stay where it is, or a legal transition.
pub open spec fn step_allowed(from: TransactionState, to: TransactionState) -> bool {
    from == to || legal_transition(from, to)
}

/// Every legal transition moves forward in the order Calling, Trying,
/// Proceeding, Completed, Confirmed, Terminated; the one that stays is Trying to Trying.
pub proof fn lemma_transition_moves_forward(from: TransactionState, to: TransactionState)
    requires
        legal_transition(from, to),
    ensures
        rank(from) < rank(to) || (from == TransactionState::Trying && to == TransactionState::Trying),
{
}

proof fn lemma_rank_monotone(trace: Seq<TransactionState>, a: int, b: int)
    requires
        forall|n: int| 0 <= n < trace.len() - 1 ==> step_allowed(#[trigger] trace[n], trace[n + 1]),
        0 <= a <= b < trace.len(),
    ensures
        rank(trace[a]) <= rank(trace[b]),
    decreases b - a,
{
    if a < b {
        lemma_rank_monotone(trace, a, b - 1);
        assert(step_allowed(trace[b - 1], trace[b]));
    }
}

/// Along any run of allowed steps, a state that has been left is never entered again.
pub proof fn lemma_no_reentry(trace: Seq<TransactionState>, i: int, j: int, k: int)
    requires
        forall|n: int| 0 <= n < trace.len() - 1 ==> step_allowed(#[trigger] trace[n], trace[n + 1]),
        0 <= i < j <= k < trace.len(),
        trace[j] != trace[i],
    ensures
        trace[k] != trace[i],
{
    lemma_rank_monotone(trace, i, j);
    lemma_rank_monotone(trace, j, k);
}

/// The payload of a transaction timer: which timer, for which transaction, and
/// for A and G the interval that elapsed.
#[derive(Debug)]
pub enum TransactionTimer {
    TimerA(TransactionKey, u64),
    TimerB(TransactionKey),
    TimerD(TransactionKey),
    TimerG(TransactionKey, u64),
    TimerK(TransactionKey),
}

/// The connection a transaction sends over, as far as its rules depend on it.
#[derive(PartialEq, Eq, Structural, Clone, Copy, Debug)]
pub struct Connection {
    pub reliable: bool,
}

/// The next retransmission interval after `d`: doubled, at most `cap`.
pub open spec fn next_interval(d: u64, cap: u64) -> u64 {
    if 2 * d <= cap {
        (2 * d) as u64
    } else {
        cap
    }
}

/// The entry `(id, at, v)` is live in `t`.
pub open spec fn scheduled(t: Seq<TimerEntry<TransactionTimer>>, id: u64, at: int, v: TransactionTimer) -> bool {
    t.contains(TimerEntry { task_id: id, execute_at: at as u64, value: v })
}

/// The timer service has room for the scheduling a transaction step does at `now`.
pub open spec fn timers_ready(timers: Timer<TransactionTimer>, opt: EndpointOption, now: u64) -> bool {
    &&& timers.wf()
    &&& timers.next_id() + 3 < u64::MAX
    &&& now + opt.t1 + opt.t1x64 + opt.t4 <= u64::MAX
}

/// How long a transaction that entered Completed waits in it (Timer D).
pub open spec fn completed_wait(t: TransactionType, c: Option<Connection>, opt: EndpointOption) -> u64 {
    if t == TransactionType::ClientInvite && c.is_some() && c.unwrap().reliable {
        0
    } else {
        opt.t1x64
    }
}

/// The transition to `state` needs a connection.
pub open spec fn needs_connection(t: TransactionType, state: TransactionState) -> bool {
    state == TransactionState::Trying || (state == TransactionState::Completed && t
        == TransactionType::ServerInvite)
}

/// A transaction of kind `t` in `from`, with connection `c`, may move to `to`.
pub open spec fn transition_ok(
    t: TransactionType,
    from: TransactionState,
    c: Option<Connection>,
    to: TransactionState,
) -> bool {
    from == to || (legal_transition(from, to) && (c.is_some() || !needs_connection(t, to)))
}

/// The timers that a transaction runs right after it entered its state at `now`.
pub open spec fn entry_timers(tx: Transaction, opt: EndpointOption, now: u64, t: Seq<TimerEntry<TransactionTimer>>) -> bool {
    let unreliable = tx.connection.is_some() && !tx.connection.unwrap().reliable;
    match tx.state {
        TransactionState::Trying => {
            &&& (is_client(tx.transaction_type) && unreliable) ==> (tx.timer_a.is_some()
                && scheduled(t, tx.timer_a.unwrap(), now + opt.t1, TransactionTimer::TimerA(tx.key, opt.t1)))
            &&& !(is_client(tx.transaction_type) && unreliable) ==> tx.timer_a.is_none()
            &&& is_client(tx.transaction_type) ==> tx.timer_b.is_some() && scheduled(
                t,
                tx.timer_b.unwrap(),
                now + opt.t1x64,
                TransactionTimer::TimerB(tx.key),
            )
            &&& !is_client(tx.transaction_type) ==> tx.timer_b.is_none()
        },
        TransactionState::Proceeding => {
            &&& tx.timer_a.is_none()
            &&& is_client(tx.transaction_type) ==> tx.timer_b.is_some() && scheduled(
                t,
                tx.timer_b.unwrap(),
                now + opt.t1x64,
                TransactionTimer::TimerB(tx.key),
            )
            &&& !is_client(tx.transaction_type) ==> tx.timer_b.is_none()
        },
        TransactionState::Completed => {
            &&& tx.timer_a.is_none()
            &&& tx.timer_b.is_none()
            &&& (tx.transaction_type == TransactionType::ServerInvite && unreliable) ==> (
            tx.timer_g.is_some() && scheduled(
                t,
                tx.timer_g.unwrap(),
                now + opt.t1,
                TransactionTimer::TimerG(tx.key, opt.t1),
            ))
            &&& !(tx.transaction_type == TransactionType::ServerInvite && unreliable) ==> tx.timer_g.is_none()
            &&& tx.timer_d.is_some()
            &&& scheduled(
                t,
                tx.timer_d.unwrap(),
                now + completed_wait(tx.transaction_type, tx.connection, opt),
                TransactionTimer::TimerD(tx.key),
            )
        },
        TransactionState::Confirmed => {
            &&& tx.timer_a.is_none()
            &&& tx.timer_b.is_none()
            &&& tx.timer_d.is_none()
            &&& tx.timer_g.is_none()
            &&& tx.timer_k.is_some()
            &&& scheduled(t, tx.timer_k.unwrap(), now + opt.t4, TransactionTimer::TimerK(tx.key))
        },
        TransactionState::Terminated => {
            &&& tx.timer_a.is_none()
            &&& tx.timer_b.is_none()
            &&& tx.timer_d.is_none()
            &&& tx.timer_g.is_none()
            &&& tx.timer_k.is_none()
        },
        TransactionState::Calling => true,
    }
}

/// A transaction: its request, its state, its last messages and its timers.
pub struct Transaction {
    pub transaction_type: TransactionType,
    pub key: TransactionKey,
    pub original: Request,
    pub state: TransactionState,
    pub connection: Option<Connection>,
    /// Where to send over a datagram transport, where set by the user.
    pub destination: Option<String>,
    pub last_response: Option<Response>,
    pub last_ack: Option<Request>,
    pub timer_a: Option<u64>,
    pub timer_b: Option<u64>,
    pub timer_d: Option<u64>,
    pub timer_k: Option<u64>,
    pub timer_g: Option<u64>,
    pub is_cleaned_up: bool,
}

/// The parts of a transaction that a step leaves alone.
pub open spec fn same_identity(a: Transaction, b: Transaction) -> bool {
    &&& a.transaction_type == b.transaction_type
    &&& a.key == b.key
    &&& a.original == b.original
    &&& a.connection == b.connection
    &&& a.destination == b.destination
}

/// Handle `h` names a timer that `t` has already issued (or none).
pub open spec fn handle_issued(h: Option<u64>, t: Timer<TransactionTimer>) -> bool {
    h.is_some() ==> h.unwrap() < t.next_id()
}

/// Every timer handle of `tx` was issued by `t`: the timer service a
/// transaction runs on.
pub open spec fn handles_issued(tx: Transaction, t: Timer<TransactionTimer>) -> bool {
    &&& handle_issued(tx.timer_a, t)
    &&& handle_issued(tx.timer_b, t)
    &&& handle_issued(tx.timer_d, t)
    &&& handle_issued(tx.timer_g, t)
    &&& handle_issued(tx.timer_k, t)
}

/// The timer behind handle `h` is no longer live in `t`, unless `h` is `except`.
pub open spec fn handle_gone(h: Option<u64>, t: Seq<TimerEntry<TransactionTimer>>, except: Option<u64>) -> bool {
    h.is_some() && h != except ==> !has_id(t, h.unwrap())
}

/// None of the timers behind the handles of `tx` is live in `t`, but `except`.
pub open spec fn handles_gone(tx: Transaction, t: Seq<TimerEntry<TransactionTimer>>, except: Option<u64>) -> bool {
    &&& handle_gone(tx.timer_a, t, except)
    &&& handle_gone(tx.timer_b, t, except)
    &&& handle_gone(tx.timer_d, t, except)
    &&& handle_gone(tx.timer_g, t, except)
    &&& handle_gone(tx.timer_k, t, except)
}

proof fn lemma_schedule_keeps(
    before: Seq<TimerEntry<TransactionTimer>>,
    after: Seq<TimerEntry<TransactionTimer>>,
    id: u64,
    at: u64,
    v: TransactionTimer,
    e: TimerEntry<TransactionTimer>,
)
    requires
        schedule_post(before, after, id, at, v),
    ensures
        before.contains(e) ==> after.contains(e),
        after.contains(TimerEntry { task_id: id, execute_at: at, value: v }),
{
    let p = choose|p: int|
        0 <= p <= before.len() && after == before.insert(
            p,
            TimerEntry { task_id: id, execute_at: at, value: v },
        );
    assert(after[p] == TimerEntry { task_id: id, execute_at: at, value: v });
    if before.contains(e) {
        let i = choose|i: int| 0 <= i < before.len() && before[i] == e;
        if i < p {
            assert(after[i] == e);
        } else {
            assert(after[i + 1] == e);
        }
    }
}

/// Stops the timer behind `handle`, if any.
fn stop_timer(handle: &mut Option<u64>, timers: &mut Timer<TransactionTimer>)
    requires
        old(timers).wf(),
    ensures
        final(handle).is_none(),
        final(timers).wf(),
        final(timers).next_id() == old(timers).next_id(),
        match *old(handle) {
            Some(id) => exists|r: Option<TransactionTimer>| cancel_post(old(timers).entries(), final(timers).entries(), id, r),
            None => final(timers).entries() == old(timers).entries(),
        },
        forall|x: u64| !has_id(old(timers).entries(), x) ==> !has_id(final(timers).entries(), x),
        old(handle).is_some() ==> !has_id(final(timers).entries(), old(handle).unwrap()),
{
    match handle.take() {
        Some(id) => {
            let r = timers.cancel(id);
            proof {
                let b = old(timers).entries();
                let a = timers.entries();
                match r {
                    Some(v) => {
                        let i = choose|i: int| 0 <= i < b.len() && b[i].task_id == id && v == b[i].value && a == b.remove(i);
                        lemma_remove_keeps_absent(b, i);
                        if has_id(a, id) {
                            let k = choose|k: int| 0 <= k < a.len() && #[trigger] a[k].task_id == id;
                            let bk = if k < i { k } else { k + 1 };
                            assert(b[bk].task_id == a[k].task_id);
                            assert(ids_distinct(b));
                            assert(b[bk].task_id != b[i].task_id);
                        }
                    },
                    None => {},
                }
            }
        },
        None => {},
    }
}

proof fn lemma_remove_keeps_absent(b: Seq<TimerEntry<TransactionTimer>>, i: int)
    requires
        0 <= i < b.len(),
    ensures
        forall|x: u64| !has_id(b, x) ==> !has_id(b.remove(i), x),
{
    assert forall|x: u64| !has_id(b, x) implies !has_id(b.remove(i), x) by {
        let a = b.remove(i);
        if has_id(a, x) {
            let k = choose|k: int| 0 <= k < a.len() && #[trigger] a[k].task_id == x;
            let bk = if k < i { k } else { k + 1 };
            assert(b[bk].task_id == x);
        }
    }
}

/// Starts a timer with payload `v` that fires `d` after `now`.
fn start_timer(timers: &mut Timer<TransactionTimer>, now: u64, d: u64, v: TransactionTimer) -> (id: u64)
    requires
        old(timers).wf(),
        old(timers).next_id() < u64::MAX,
        now + d <= u64::MAX,
    ensures
        final(timers).wf(),
        final(timers).next_id() == old(timers).next_id() + 1,
        id == old(timers).next_id(),
        scheduled(final(timers).entries(), id, now + d, v),
        forall|e: TimerEntry<TransactionTimer>| old(timers).entries().contains(e) ==> final(timers).entries().contains(e),
        forall|x: u64| x != id && !has_id(old(timers).entries(), x) ==> !has_id(final(timers).entries(), x),
{
    let id = timers.timeout(now, d, v);
    proof {
        let b = old(timers).entries();
        let a = timers.entries();
        let p = choose|p: int| 0 <= p <= b.len() && a == #[trigger] b.insert(p, TimerEntry { task_id: id, execute_at: (now + d) as u64, value: v });
        assert forall|x: u64| x != id && !has_id(b, x) implies !has_id(a, x) by {
            if has_id(a, x) {
                let k = choose|k: int| 0 <= k < a.len() && #[trigger] a[k].task_id == x;
                if k < p {
                    assert(b[k].task_id == x);
                } else if k > p {
                    assert(b[k - 1].task_id == x);
                }
            }
        }
        assert forall|e: TimerEntry<TransactionTimer>| old(timers).entries().contains(e) implies final(timers).entries().contains(e) by {
            lemma_schedule_keeps(old(timers).entries(), final(timers).entries(), id, (now + d) as u64, v, e);
        }
        lemma_schedule_keeps(old(timers).entries(), final(timers).entries(), id, (now + d) as u64, v, TimerEntry { task_id: id, execute_at: (now + d) as u64, value: v });
    }
    id
}


/// The message a finished transaction leaves behind for matching retransmissions:
/// a client INVITE its last ACK, a server non-INVITE its last response.
pub open spec fn final_message_of(tx: Transaction) -> Option<Message> {
    if tx.transaction_type == TransactionType::ClientInvite {
        match tx.last_ack {
            Some(a) => Some(Message::Request(a)),
            None => None,
        }
    } else if tx.transaction_type == TransactionType::ServerNonInvite {
        match tx.last_response {
            Some(r) => Some(Message::Response(r)),
            None => None,
        }
    } else {
        None
    }
}

/// What a transaction step hands back: messages to write on the connection,
/// and a message for the transaction user.
pub struct Step {
    pub outgoing: Vec<Message>,
    pub to_tu: Option<Message>,
}

/// The events in a transaction's mailbox.
pub enum TransactionEvent {
    Received(Message, Option<Connection>),
    Timer(TransactionTimer),
    Respond(Response),
    Terminate,
}

/// The state a client enters on a response with `code`.
pub open spec fn client_state_on(t: TransactionType, code: u16) -> TransactionState {
    if code == 100 {
        TransactionState::Trying
    } else if code < 200 {
        TransactionState::Proceeding
    } else if t == TransactionType::ClientInvite {
        TransactionState::Completed
    } else {
        TransactionState::Terminated
    }
}

/// The state a server enters when it sends a response with `code`.
pub open spec fn server_state_on(t: TransactionType, code: u16) -> TransactionState {
    if code == 100 {
        TransactionState::Trying
    } else if code < 200 {
        TransactionState::Proceeding
    } else if t == TransactionType::ServerInvite {
        TransactionState::Completed
    } else {
        TransactionState::Terminated
    }
}

/// Two requests hold the same method, URI, headers and body.
pub open spec fn same_request(a: Request, b: Request) -> bool {
    a.method == b.method && a.uri == b.uri && a.headers@ == b.headers@ && a.body@ == b.body@
}

/// Two responses hold the same status, headers and body.
pub open spec fn same_response(a: Response, b: Response) -> bool {
    a.status_code == b.status_code && a.headers@ == b.headers@ && a.body@ == b.body@
}

/// What `respond` does: `before`/`after` are the transaction, `tb`/`ta` the timer service, around the call.
pub open spec fn respond_post(
    before: Transaction,
    after: Transaction,
    response: Response,
    endpoint: EndpointInner,
    now: u64,
    tb: Timer<TransactionTimer>,
    ta: Timer<TransactionTimer>,
    r: Result<Response, Error>,
) -> bool {
    &&& (handles_issued(after, ta))
    &&& (ta.wf())
    &&& (tb.next_id() <= ta.next_id() <= tb.next_id() + 2)
    &&& (r.is_err() ==> after == before && ta == tb)
    &&& (is_client(before.transaction_type) ==> r == Err::<Response, Error>(Error::TransactionError(TransactionErrorKind::NotServer)))
    &&& (!is_client(before.transaction_type) && !legal_transition(
                before.state,
                server_state_on(before.transaction_type, response.status_code),
            ) ==> r == Err::<Response, Error>(Error::TransactionError(TransactionErrorKind::InvalidTransition)))
    &&& (!is_client(before.transaction_type) && legal_transition(
                before.state,
                server_state_on(before.transaction_type, response.status_code),
            ) && before.connection.is_none() ==> r == Err::<Response, Error>(Error::TransactionError(TransactionErrorKind::NoConnection)))
    &&& (!is_client(before.transaction_type) && legal_transition(
                before.state,
                server_state_on(before.transaction_type, response.status_code),
            ) && before.connection.is_some() ==> {
                &&& r.is_ok()
                &&& same_response(r.unwrap(), response)
                &&& after.state == server_state_on(before.transaction_type, response.status_code)
                &&& after.last_response == Some(response)
                &&& same_identity(after, before)
                &&& (after.state != before.state ==> entry_timers(after, endpoint.option, now, ta.entries()))
            })
}

/// What `on_received_request` does: `before`/`after` are the transaction, `tb`/`ta` the timer service, around the call.
pub open spec fn request_post(
    before: Transaction,
    after: Transaction,
    req: Request,
    connection: Option<Connection>,
    endpoint: EndpointInner,
    now: u64,
    tb: Timer<TransactionTimer>,
    ta: Timer<TransactionTimer>,
    r: Step,
) -> bool {
    &&& (handles_issued(after, ta))
    &&& (ta.wf())
    &&& (is_client(before.transaction_type) ==> r.outgoing@.len() == 0 && r.to_tu.is_none()
                && after == before && ta == tb)
    &&& (!is_client(before.transaction_type) ==> after.connection == (if before.connection.is_none() {
                connection
            } else {
                before.connection
            }))
    &&& (!is_client(before.transaction_type) && req.method == Method::Cancel ==> {
                let pending = before.state == TransactionState::Trying || before.state == TransactionState::Proceeding
                    || before.state == TransactionState::Completed;
                &&& after.state == before.state
                &&& (pending ==> r.to_tu == Some(Message::Request(req)))
                &&& (!pending ==> r.to_tu.is_none())
                &&& r.outgoing@.len() == (if after.connection.is_some() { 1int } else { 0 })
                &&& (r.outgoing@.len() == 1 ==> match r.outgoing@[0] {
                    Message::Response(resp) => resp.status_code == (if pending { 200u16 } else { 481 })
                        && resp.headers@ == crate::message::response_headers(req.headers@, endpoint.user_agent),
                    _ => false,
                })
            })
    &&& (!is_client(before.transaction_type) && req.method != Method::Cancel ==> {
                &&& (before.state == TransactionState::Trying || before.state == TransactionState::Proceeding) ==> (
                    after.state == before.state && r.to_tu.is_none()
                    && r.outgoing@.len() == (if before.last_response.is_some() && after.connection.is_some() { 1int } else { 0 })
                    && (r.outgoing@.len() == 1 ==> match r.outgoing@[0] {
                        Message::Response(resp) => same_response(resp, before.last_response.unwrap()),
                        _ => false,
                    }))
                &&& (before.state == TransactionState::Completed && req.method == Method::Ack) ==> (
                    after.state == TransactionState::Confirmed && r.to_tu == Some(Message::Request(req))
                    && r.outgoing@.len() == 0 && entry_timers(after, endpoint.option, now, ta.entries())
                    && handles_gone(before, ta.entries(), None))
                &&& !(before.state == TransactionState::Trying || before.state == TransactionState::Proceeding
                    || (before.state == TransactionState::Completed && req.method == Method::Ack)) ==> (
                    after.state == before.state && r.to_tu.is_none() && r.outgoing@.len() == 0)
            })
}

/// What `on_received_response` does: `before`/`after` are the transaction, `tb`/`ta` the timer service, around the call.
pub open spec fn response_post(
    before: Transaction,
    after: Transaction,
    resp: Response,
    endpoint: EndpointInner,
    now: u64,
    tb: Timer<TransactionTimer>,
    ta: Timer<TransactionTimer>,
    r: Option<Response>,
) -> bool {
    &&& (handles_issued(after, ta))
    &&& (ta.wf())
    &&& (tb.next_id() <= ta.next_id() <= tb.next_id() + 2)
    &&& (r.is_some() <==> (is_client(before.transaction_type) && legal_transition(
                before.state,
                client_state_on(before.transaction_type, resp.status_code),
            ) && before.state != client_state_on(before.transaction_type, resp.status_code)))
    &&& (r.is_none() ==> after == before && ta == tb)
    &&& (r.is_some() ==> same_response(r.unwrap(), resp) && after.last_response == Some(resp))
    &&& (r.is_some() && transition_ok(
                before.transaction_type,
                before.state,
                before.connection,
                client_state_on(before.transaction_type, resp.status_code),
            ) ==> after.state == client_state_on(before.transaction_type, resp.status_code)
                && entry_timers(after, endpoint.option, now, ta.entries()))
    &&& (r.is_some() && !transition_ok(
                before.transaction_type,
                before.state,
                before.connection,
                client_state_on(before.transaction_type, resp.status_code),
            ) ==> after.state == before.state)
    &&& (step_allowed(before.state, after.state))
}

/// What `on_timer` does: `before`/`after` are the transaction, `tb`/`ta` the timer service, around the call.
pub open spec fn timer_post(
    before: Transaction,
    after: Transaction,
    timer: TransactionTimer,
    endpoint: EndpointInner,
    now: u64,
    tb: Timer<TransactionTimer>,
    ta: Timer<TransactionTimer>,
    r: Step,
) -> bool {
    &&& (handles_issued(after, ta))
    &&& (ta.wf())
    &&& (step_allowed(before.state, after.state))
    &&& (same_identity(after, before))
    &&& (match timer {
                TransactionTimer::TimerA(k, d) => if before.state == TransactionState::Trying && is_client(before.transaction_type) {
                    &&& after.state == TransactionState::Trying
                    &&& r.to_tu.is_none()
                    &&& r.outgoing@.len() == (if before.connection.is_some() { 1int } else { 0 })
                    &&& (r.outgoing@.len() == 1 ==> match r.outgoing@[0] {
                        Message::Request(q) => same_request(q, before.original),
                        _ => false,
                    })
                    &&& after.timer_a.is_some()
                    &&& scheduled(
                        ta.entries(),
                        after.timer_a.unwrap(),
                        now + next_interval(d, endpoint.option.t1x64),
                        TransactionTimer::TimerA(k, next_interval(d, endpoint.option.t1x64)),
                    )
                } else {
                    after == before && r.outgoing@.len() == 0 && r.to_tu.is_none()
                },
                TransactionTimer::TimerB(_) => if (before.state == TransactionState::Trying || before.state
                    == TransactionState::Proceeding) && is_client(before.transaction_type) {
                    &&& after.state == TransactionState::Terminated
                    &&& r.outgoing@.len() == 0
                    &&& match r.to_tu {
                        Some(Message::Response(resp)) => resp.status_code == 408 && resp.headers@
                            == crate::message::response_headers(before.original.headers@, endpoint.user_agent)
                            && resp.body@.len() == 0,
                        _ => false,
                    }
                    &&& entry_timers(after, endpoint.option, now, ta.entries())
                        && handles_gone(before, ta.entries(), None)
                } else {
                    after == before && r.outgoing@.len() == 0 && r.to_tu.is_none()
                },
                TransactionTimer::TimerG(k, d) => if before.state == TransactionState::Completed {
                    &&& after.state == TransactionState::Completed
                    &&& r.to_tu.is_none()
                    &&& r.outgoing@.len() == (if before.connection.is_some() && before.last_response.is_some() { 1int } else { 0 })
                    &&& (r.outgoing@.len() == 1 ==> match r.outgoing@[0] {
                        Message::Response(q) => same_response(q, before.last_response.unwrap()),
                        _ => false,
                    })
                    &&& after.timer_g.is_some()
                    &&& scheduled(
                        ta.entries(),
                        after.timer_g.unwrap(),
                        now + next_interval(d, endpoint.option.t1x64),
                        TransactionTimer::TimerG(k, next_interval(d, endpoint.option.t1x64)),
                    )
                } else {
                    after == before && r.outgoing@.len() == 0 && r.to_tu.is_none()
                },
                TransactionTimer::TimerD(_) => if before.state == TransactionState::Completed {
                    after.state == TransactionState::Terminated && r.outgoing@.len() == 0 && r.to_tu.is_none()
                        && entry_timers(after, endpoint.option, now, ta.entries())
                        && handles_gone(before, ta.entries(), None)
                } else {
                    after == before && r.outgoing@.len() == 0 && r.to_tu.is_none()
                },
                TransactionTimer::TimerK(_) => if before.state == TransactionState::Confirmed {
                    after.state == TransactionState::Terminated && r.outgoing@.len() == 0 && r.to_tu.is_none()
                        && entry_timers(after, endpoint.option, now, ta.entries())
                        && handles_gone(before, ta.entries(), None)
                } else {
                    after == before && r.outgoing@.len() == 0 && r.to_tu.is_none()
                },
            })
}

impl Transaction {
    fn new(transaction_type: TransactionType, key: TransactionKey, original: Request, connection: Option<Connection>) -> (r: Transaction)
        ensures
            r.transaction_type == transaction_type,
            r.key == key,
            r.original == original,
            r.connection == connection,
            r.destination.is_none(),
            r.state == TransactionState::Calling,
            r.last_response.is_none(),
            r.last_ack.is_none(),
            r.timer_a.is_none() && r.timer_b.is_none() && r.timer_d.is_none() && r.timer_g.is_none() && r.timer_k.is_none(),
            !r.is_cleaned_up,
    {
        Transaction {
            transaction_type,
            key,
            original,
            state: TransactionState::Calling,
            connection,
            destination: None,
            last_response: None,
            last_ack: None,
            timer_a: None,
            timer_b: None,
            timer_d: None,
            timer_k: None,
            timer_g: None,
            is_cleaned_up: false,
        }
    }

    /// A client transaction for `original`: a client INVITE for an INVITE, else client non-INVITE.
    pub fn new_client(key: TransactionKey, original: Request, connection: Option<Connection>) -> (r: Transaction)
        ensures
            r.transaction_type == (if original.method == Method::Invite {
                TransactionType::ClientInvite
            } else {
                TransactionType::ClientNonInvite
            }),
            r.key == key,
            r.original == original,
            r.connection == connection,
            r.destination.is_none(),
            r.state == TransactionState::Calling,
            r.last_response.is_none() && r.last_ack.is_none(),
            r.timer_a.is_none() && r.timer_b.is_none() && r.timer_d.is_none() && r.timer_g.is_none() && r.timer_k.is_none(),
            !r.is_cleaned_up,
    {
        let t = if original.method == Method::Invite {
            TransactionType::ClientInvite
        } else {
            TransactionType::ClientNonInvite
        };
        Transaction::new(t, key, original, connection)
    }

    /// A server transaction for `original`: a server INVITE for an INVITE or an ACK, else server non-INVITE.
    pub fn new_server(key: TransactionKey, original: Request, connection: Option<Connection>) -> (r: Transaction)
        ensures
            r.transaction_type == (if original.method == Method::Invite || original.method == Method::Ack {
                TransactionType::ServerInvite
            } else {
                TransactionType::ServerNonInvite
            }),
            r.key == key,
            r.original == original,
            r.connection == connection,
            r.destination.is_none(),
            r.state == TransactionState::Calling,
            r.last_response.is_none() && r.last_ack.is_none(),
            r.timer_a.is_none() && r.timer_b.is_none() && r.timer_d.is_none() && r.timer_g.is_none() && r.timer_k.is_none(),
            !r.is_cleaned_up,
    {
        let t = if original.method == Method::Invite || original.method == Method::Ack {
            TransactionType::ServerInvite
        } else {
            TransactionType::ServerNonInvite
        };
        Transaction::new(t, key, original, connection)
    }

    pub fn is_terminated(&self) -> (r: bool)
        ensures
            r == (self.state == TransactionState::Terminated),
    {
        self.state == TransactionState::Terminated
    }

    /// Checks `target` against the table of legal transitions.
    pub fn can_transition(&self, target: TransactionState) -> (r: Result<(), Error>)
        ensures
            r.is_ok() == legal_transition(self.state, target),
            r.is_err() ==> r == Err::<(), Error>(Error::TransactionError(TransactionErrorKind::InvalidTransition)),
    {
        let ok = match target {
            TransactionState::Calling => false,
            TransactionState::Trying => self.state == TransactionState::Calling || self.state == TransactionState::Trying,
            TransactionState::Proceeding => self.state == TransactionState::Calling || self.state == TransactionState::Trying,
            TransactionState::Completed => self.state == TransactionState::Trying || self.state == TransactionState::Proceeding,
            TransactionState::Confirmed => self.state == TransactionState::Trying || self.state == TransactionState::Proceeding
                || self.state == TransactionState::Completed,
            TransactionState::Terminated => self.state != TransactionState::Terminated,
        };
        if ok {
            Ok(())
        } else {
            Err(Error::TransactionError(TransactionErrorKind::InvalidTransition))
        }
    }

    /// Stops every timer of the transaction.
    pub fn cleanup_timer(&mut self, timers: &mut Timer<TransactionTimer>)
        requires
            old(timers).wf(),
        ensures
            final(timers).wf(),
            final(timers).next_id() == old(timers).next_id(),
            final(self).timer_a.is_none() && final(self).timer_b.is_none() && final(self).timer_d.is_none()
                && final(self).timer_g.is_none() && final(self).timer_k.is_none(),
            same_identity(*final(self), *old(self)),
            final(self).state == old(self).state,
            final(self).last_response == old(self).last_response,
            final(self).last_ack == old(self).last_ack,
            final(self).is_cleaned_up == old(self).is_cleaned_up,
            handles_gone(*old(self), final(timers).entries(), None),
            forall|x: u64| !has_id(old(timers).entries(), x) ==> !has_id(final(timers).entries(), x),
    {
        stop_timer(&mut self.timer_a, timers);
        stop_timer(&mut self.timer_b, timers);
        stop_timer(&mut self.timer_d, timers);
        stop_timer(&mut self.timer_k, timers);
        stop_timer(&mut self.timer_g, timers);
    }

    /// Releases the transaction once: stops its timers and returns the message
    /// to keep for matching retransmissions. Later calls do nothing.
    pub fn cleanup(&mut self, timers: &mut Timer<TransactionTimer>) -> (r: Option<Message>)
        requires
            old(timers).wf(),
        ensures
            final(timers).wf(),
            final(timers).next_id() == old(timers).next_id(),
            final(self).is_cleaned_up,
            old(self).is_cleaned_up ==> r.is_none() && *final(self) == *old(self) && *final(timers) == *old(timers),
            !old(self).is_cleaned_up ==> r == final_message_of(*old(self)),
            !old(self).is_cleaned_up ==> final(self).timer_a.is_none() && final(self).timer_b.is_none()
                && final(self).timer_d.is_none() && final(self).timer_g.is_none() && final(self).timer_k.is_none(),
            same_identity(*final(self), *old(self)),
            final(self).state == old(self).state,
    {
        if self.is_cleaned_up {
            return None;
        }
        self.is_cleaned_up = true;
        self.cleanup_timer(timers);
        if self.transaction_type == TransactionType::ClientInvite {
            match self.last_ack.take() {
                Some(a) => Some(Message::Request(a)),
                None => None,
            }
        } else if self.transaction_type == TransactionType::ServerNonInvite {
            match self.last_response.take() {
                Some(r) => Some(Message::Response(r)),
                None => None,
            }
        } else {
            None
        }
    }

    /// Moves the transaction to `state`, stopping the timers of the state it
    /// leaves and starting those of the state it enters; staying is a no-op.
    pub fn transition(
        &mut self,
        state: TransactionState,
        endpoint: &EndpointInner,
        timers: &mut Timer<TransactionTimer>,
        now: u64,
    ) -> (r: Result<TransactionState, Error>)
        requires
            timers_ready(*old(timers), endpoint.option, now),
            handles_issued(*old(self), *old(timers)),
        ensures
            handles_issued(*final(self), *final(timers)),
            final(timers).wf(),
            old(timers).next_id() <= final(timers).next_id() <= old(timers).next_id() + 2,
            same_identity(*final(self), *old(self)),
            final(self).last_response == old(self).last_response,
            final(self).last_ack == old(self).last_ack,
            final(self).is_cleaned_up == old(self).is_cleaned_up,
            r.is_ok() == transition_ok(old(self).transaction_type, old(self).state, old(self).connection, state),
            r.is_ok() ==> r == Ok::<TransactionState, Error>(state) && final(self).state == state,
            r.is_err() ==> *final(self) == *old(self) && *final(timers) == *old(timers),
            r.is_err() && !legal_transition(old(self).state, state) ==> r == Err::<TransactionState, Error>(
                Error::TransactionError(TransactionErrorKind::InvalidTransition)),
            r.is_err() && legal_transition(old(self).state, state) ==> r == Err::<TransactionState, Error>(
                Error::TransactionError(TransactionErrorKind::NoConnection)),
            state == old(self).state ==> *final(self) == *old(self) && *final(timers) == *old(timers),
            r.is_ok() && state != old(self).state ==> entry_timers(*final(self), endpoint.option, now, final(timers).entries()),
            r.is_ok() && state != old(self).state && state == TransactionState::Terminated ==> handles_gone(
                *old(self),
                final(timers).entries(),
                None,
            ),
            r.is_ok() && state != old(self).state && state == TransactionState::Confirmed ==> handles_gone(
                *old(self),
                final(timers).entries(),
                None,
            ),
    {
        if self.state == state {
            return Ok(state);
        }
        if self.can_transition(state).is_err() {
            return Err(Error::TransactionError(TransactionErrorKind::InvalidTransition));
        }
        let needs = state == TransactionState::Trying || (state == TransactionState::Completed
            && self.transaction_type == TransactionType::ServerInvite);
        if needs && self.connection.is_none() {
            return Err(Error::TransactionError(TransactionErrorKind::NoConnection));
        }
        let unreliable = match self.connection {
            Some(c) => !c.reliable,
            None => false,
        };
        let client = self.transaction_type == TransactionType::ClientInvite || self.transaction_type
            == TransactionType::ClientNonInvite;
        let t1 = endpoint.option.t1;
        let t1x64 = endpoint.option.t1x64;
        match state {
            TransactionState::Trying => {
                stop_timer(&mut self.timer_a, timers);
                stop_timer(&mut self.timer_b, timers);
                if client && unreliable {
                    let a = start_timer(timers, now, t1, TransactionTimer::TimerA(self.key.copy(), t1));
                    self.timer_a = Some(a);
                }
                if client {
                    let b = start_timer(timers, now, t1x64, TransactionTimer::TimerB(self.key.copy()));
                    self.timer_b = Some(b);
                }
            },
            TransactionState::Proceeding => {
                stop_timer(&mut self.timer_a, timers);
                stop_timer(&mut self.timer_b, timers);
                if client {
                    let b = start_timer(timers, now, t1x64, TransactionTimer::TimerB(self.key.copy()));
                    self.timer_b = Some(b);
                }
            },
            TransactionState::Completed => {
                stop_timer(&mut self.timer_a, timers);
                stop_timer(&mut self.timer_b, timers);
                stop_timer(&mut self.timer_g, timers);
                stop_timer(&mut self.timer_d, timers);
                if self.transaction_type == TransactionType::ServerInvite && unreliable {
                    let g = start_timer(timers, now, t1, TransactionTimer::TimerG(self.key.copy(), t1));
                    self.timer_g = Some(g);
                }
                let wait = if self.transaction_type == TransactionType::ClientInvite && !unreliable
                    && self.connection.is_some() {
                    0
                } else {
                    t1x64
                };
                let d = start_timer(timers, now, wait, TransactionTimer::TimerD(self.key.copy()));
                self.timer_d = Some(d);
            },
            TransactionState::Confirmed => {
                self.cleanup_timer(timers);
                let k = start_timer(timers, now, endpoint.option.t4, TransactionTimer::TimerK(self.key.copy()));
                self.timer_k = Some(k);
            },
            _ => {
                self.cleanup_timer(timers);
            },
        }
        self.state = state;
        Ok(state)
    }

    /// Sends the request of a client transaction: stamps Content-Length and
    /// enters Trying. Returns the request to write on the connection.
    pub fn send(&mut self, endpoint: &EndpointInner, timers: &mut Timer<TransactionTimer>, now: u64) -> (r: Result<Request, Error>)
        requires
            timers_ready(*old(timers), endpoint.option, now),
            handles_issued(*old(self), *old(timers)),
        ensures
            handles_issued(*final(self), *final(timers)),
            final(timers).wf(),
            old(timers).next_id() <= final(timers).next_id() <= old(timers).next_id() + 2,
            final(self).transaction_type == old(self).transaction_type,
            final(self).key == old(self).key,
            final(self).connection == old(self).connection,
            final(self).destination == old(self).destination,
            r.is_ok() && old(self).connection.is_some() && old(self).connection.unwrap().reliable
                ==> final(self).timer_a.is_none(),
            !is_client(old(self).transaction_type) ==> r == Err::<Request, Error>(Error::TransactionError(TransactionErrorKind::NotClient))
                && *final(self) == *old(self) && *final(timers) == *old(timers),
            is_client(old(self).transaction_type) ==> (r.is_ok() == transition_ok(
                old(self).transaction_type,
                old(self).state,
                old(self).connection,
                TransactionState::Trying,
            )),
            r.is_err() ==> *final(self) == *old(self) && *final(timers) == *old(timers),
            r.is_ok() ==> {
                &&& final(self).state == TransactionState::Trying
                &&& final(self).original.headers@ == old(self).original.headers@.filter(
                    |x: Header| x.kind() != HeaderKind::ContentLength,
                ).push(Header::ContentLength(old(self).original.body@.len() as u32))
                &&& final(self).original.method == old(self).original.method
                &&& final(self).original.uri == old(self).original.uri
                &&& final(self).original.body@ == old(self).original.body@
                &&& same_request(r.unwrap(), final(self).original)
                &&& (old(self).state != TransactionState::Trying ==> entry_timers(*final(self), endpoint.option, now, final(timers).entries()))
            },
    {
        if !(self.transaction_type == TransactionType::ClientInvite || self.transaction_type
            == TransactionType::ClientNonInvite) {
            return Err(Error::TransactionError(TransactionErrorKind::NotClient));
        }
        match self.transition(TransactionState::Trying, endpoint, timers, now) {
            Ok(_) => {},
            Err(e) => {
                return Err(e);
            },
        }
        let reliable = match self.connection {
            Some(c) => c.reliable,
            None => false,
        };
        if reliable {
            stop_timer(&mut self.timer_a, timers);
        }
        let len = self.original.body.len() as u32;
        unique_push(&mut self.original.headers, Header::ContentLength(len));
        Ok(self.original.copy())
    }

    /// Sends `response` on a server transaction: the state it leads to must be
    /// a legal transition. Returns the response to write on the connection.
    pub fn respond(
        &mut self,
        response: Response,
        endpoint: &EndpointInner,
        timers: &mut Timer<TransactionTimer>,
        now: u64,
    ) -> (r: Result<Response, Error>)
        requires
            timers_ready(*old(timers), endpoint.option, now),
            handles_issued(*old(self), *old(timers)),
        ensures
            respond_post(*old(self), *final(self), response, *endpoint, now, *old(timers), *final(timers), r),

    {
        if self.transaction_type == TransactionType::ClientInvite || self.transaction_type
            == TransactionType::ClientNonInvite {
            return Err(Error::TransactionError(TransactionErrorKind::NotServer));
        }
        let new_state = if response.status_code == 100 {
            TransactionState::Trying
        } else if response.status_code < 200 {
            TransactionState::Proceeding
        } else if self.transaction_type == TransactionType::ServerInvite {
            TransactionState::Completed
        } else {
            TransactionState::Terminated
        };
        match self.can_transition(new_state) {
            Ok(_) => {},
            Err(e) => {
                return Err(e);
            },
        }
        if self.connection.is_none() {
            return Err(Error::TransactionError(TransactionErrorKind::NoConnection));
        }
        let out = response.copy();
        self.last_response = Some(response);
        let _ = self.transition(new_state, endpoint, timers, now);
        Ok(out)
    }

    /// Sends a 100 Trying built from the original request.
    pub fn send_trying(&mut self, endpoint: &EndpointInner, timers: &mut Timer<TransactionTimer>, now: u64) -> (r: Result<Response, Error>)
        requires
            timers_ready(*old(timers), endpoint.option, now),
            handles_issued(*old(self), *old(timers)),
        ensures
            handles_issued(*final(self), *final(timers)),
            final(timers).wf(),
            r.is_err() ==> *final(self) == *old(self) && *final(timers) == *old(timers),
            r.is_ok() <==> (!is_client(old(self).transaction_type) && legal_transition(old(self).state, TransactionState::Trying)
                && old(self).connection.is_some()),
            r.is_ok() ==> r.unwrap().status_code == 100 && r.unwrap().headers@ == crate::message::response_headers(
                old(self).original.headers@,
                endpoint.user_agent,
            ) && final(self).state == TransactionState::Trying,
    {
        let response = endpoint.make_response(&self.original, 100, None);
        self.respond(response, endpoint, timers, now)
    }

    /// Replies with `status_code`, extra `headers` and `body`. A final reply
    /// first gives the original's To header the tag `to_tag` where it has none.
    pub fn reply_with(
        &mut self,
        status_code: u16,
        headers: Vec<Header>,
        body: Option<Vec<u8>>,
        to_tag: String,
        endpoint: &EndpointInner,
        timers: &mut Timer<TransactionTimer>,
        now: u64,
    ) -> (r: Result<Response, Error>)
        requires
            timers_ready(*old(timers), endpoint.option, now),
            handles_issued(*old(self), *old(timers)),
        ensures
            handles_issued(*final(self), *final(timers)),
            final(timers).wf(),
            status_code >= 200 && first_of(old(self).original.headers@, HeaderKind::To).is_none()
                ==> r == Err::<Response, Error>(Error::ProtocolError(MissingHeader::To)),
            r.is_ok() ==> r.unwrap().status_code == status_code && r.unwrap().headers@
                == crate::message::response_headers(final(self).original.headers@, endpoint.user_agent) + headers@
                && final(self).state == server_state_on(old(self).transaction_type, status_code),
            r.is_ok() <==> (!is_client(old(self).transaction_type) && legal_transition(
                old(self).state,
                server_state_on(old(self).transaction_type, status_code),
            ) && old(self).connection.is_some() && (status_code < 200 || first_of(
                old(self).original.headers@,
                HeaderKind::To,
            ).is_some())),
            r.is_ok() && status_code >= 200 ==> match first_of(old(self).original.headers@, HeaderKind::To) {
                Some(Header::To(t)) => first_of(final(self).original.headers@, HeaderKind::To) == Some(
                    Header::To(crate::message::NameAddr { tag: if t.tag.is_some() { t.tag } else { Some(to_tag) }, ..t }),
                ),
                _ => false,
            },
    {
        if status_code >= 200 {
            match position_of(&self.original.headers, HeaderKind::To) {
                Some(i) => {
                    let tagged = match &self.original.headers[i] {
                        Header::To(t) => {
                            if t.tag.is_none() {
                                let mut nt = t.copy();
                                nt.tag = Some(to_tag);
                                Some(nt)
                            } else {
                                None
                            }
                        },
                        _ => None,
                    };
                    match tagged {
                        Some(nt) => {
                            let ghost h = Header::To(nt);
                            unique_push(&mut self.original.headers, Header::To(nt));
                            proof {
                                crate::message::lemma_unique_push_only(old(self).original.headers@, h);
                            }
                        },
                        None => {},
                    }
                },
                None => {
                    return Err(Error::ProtocolError(MissingHeader::To));
                },
            }
        }
        let mut resp = endpoint.make_response(&self.original, status_code, body);
        let mut extra = headers;
        resp.headers.append(&mut extra);
        self.respond(resp, endpoint, timers, now)
    }

    /// Replies with `status_code`, no extra headers and no body.
    pub fn reply(
        &mut self,
        status_code: u16,
        to_tag: String,
        endpoint: &EndpointInner,
        timers: &mut Timer<TransactionTimer>,
        now: u64,
    ) -> (r: Result<Response, Error>)
        requires
            timers_ready(*old(timers), endpoint.option, now),
            handles_issued(*old(self), *old(timers)),
        ensures
            handles_issued(*final(self), *final(timers)),
            final(timers).wf(),
            r.is_ok() ==> r.unwrap().status_code == status_code && r.unwrap().headers@
                == crate::message::response_headers(final(self).original.headers@, endpoint.user_agent)
                && final(self).state == server_state_on(old(self).transaction_type, status_code),
            r.is_ok() <==> (!is_client(old(self).transaction_type) && legal_transition(
                old(self).state,
                server_state_on(old(self).transaction_type, status_code),
            ) && old(self).connection.is_some() && (status_code < 200 || first_of(
                old(self).original.headers@,
                HeaderKind::To,
            ).is_some())),
    {
        let r = self.reply_with(status_code, Vec::new(), None, to_tag, endpoint, timers, now);
        proof {
            if r.is_ok() {
                assert(r.unwrap().headers@ =~= crate::message::response_headers(self.original.headers@, endpoint.user_agent));
            }
        }
        r
    }

    /// Sends a CANCEL for a client INVITE that has no final response yet and
    /// terminates it. Returns the CANCEL to write, if there is a connection.
    pub fn send_cancel(
        &mut self,
        cancel: Request,
        endpoint: &EndpointInner,
        timers: &mut Timer<TransactionTimer>,
        now: u64,
    ) -> (r: Result<Option<Request>, Error>)
        requires
            timers_ready(*old(timers), endpoint.option, now),
            handles_issued(*old(self), *old(timers)),
        ensures
            handles_issued(*final(self), *final(timers)),
            final(timers).wf(),
            r.is_err() ==> *final(self) == *old(self) && *final(timers) == *old(timers),
            old(self).transaction_type != TransactionType::ClientInvite ==> r == Err::<Option<Request>, Error>(
                Error::TransactionError(TransactionErrorKind::NotClientInvite)),
            old(self).transaction_type == TransactionType::ClientInvite && !(old(self).state == TransactionState::Calling
                || old(self).state == TransactionState::Trying || old(self).state == TransactionState::Proceeding)
                ==> r == Err::<Option<Request>, Error>(Error::TransactionError(TransactionErrorKind::InvalidStateForCancel)),
            r.is_ok() <==> (old(self).transaction_type == TransactionType::ClientInvite && (old(self).state
                == TransactionState::Calling || old(self).state == TransactionState::Trying || old(self).state
                == TransactionState::Proceeding)),
            r.is_ok() ==> final(self).state == TransactionState::Terminated && entry_timers(
                *final(self),
                endpoint.option,
                now,
                final(timers).entries(),
            ) && handles_gone(*old(self), final(timers).entries(), None) && (r.unwrap().is_some() <==> old(self).connection.is_some()) && (r.unwrap().is_some()
                ==> r.unwrap().unwrap() == cancel),
    {
        if self.transaction_type != TransactionType::ClientInvite {
            return Err(Error::TransactionError(TransactionErrorKind::NotClientInvite));
        }
        if !(self.state == TransactionState::Calling || self.state == TransactionState::Trying || self.state
            == TransactionState::Proceeding) {
            return Err(Error::TransactionError(TransactionErrorKind::InvalidStateForCancel));
        }
        let _ = self.transition(TransactionState::Terminated, endpoint, timers, now);
        if self.connection.is_some() {
            Ok(Some(cancel))
        } else {
            Ok(None)
        }
    }

    /// Sends the ACK for a non-2xx final response of a client INVITE and
    /// terminates it. Returns the ACK to write.
    pub fn send_ack(
        &mut self,
        ack: Request,
        endpoint: &EndpointInner,
        timers: &mut Timer<TransactionTimer>,
        now: u64,
    ) -> (r: Result<Request, Error>)
        requires
            timers_ready(*old(timers), endpoint.option, now),
            handles_issued(*old(self), *old(timers)),
        ensures
            handles_issued(*final(self), *final(timers)),
            final(timers).wf(),
            r.is_err() ==> *final(self) == *old(self) && *final(timers) == *old(timers),
            old(self).transaction_type != TransactionType::ClientInvite ==> r == Err::<Request, Error>(
                Error::TransactionError(TransactionErrorKind::NotClientInvite)),
            old(self).transaction_type == TransactionType::ClientInvite && old(self).connection.is_none()
                ==> r == Err::<Request, Error>(Error::TransactionError(TransactionErrorKind::NoConnection)),
            old(self).transaction_type == TransactionType::ClientInvite && old(self).connection.is_some()
                && old(self).state != TransactionState::Completed ==> r == Err::<Request, Error>(
                Error::TransactionError(TransactionErrorKind::InvalidStateForAck)),
            r.is_ok() <==> (old(self).transaction_type == TransactionType::ClientInvite && old(self).connection.is_some()
                && old(self).state == TransactionState::Completed),
            r.is_ok() ==> handles_gone(*old(self), final(timers).entries(), None),
            r.is_ok() ==> final(self).state == TransactionState::Terminated && same_request(r.unwrap(), ack)
                && final(self).last_ack.is_some() && same_request(final(self).last_ack.unwrap(), ack),
    {
        if self.transaction_type != TransactionType::ClientInvite {
            return Err(Error::TransactionError(TransactionErrorKind::NotClientInvite));
        }
        if self.connection.is_none() {
            return Err(Error::TransactionError(TransactionErrorKind::NoConnection));
        }
        if self.state != TransactionState::Completed {
            return Err(Error::TransactionError(TransactionErrorKind::InvalidStateForAck));
        }
        self.last_ack = Some(ack.copy());
        let _ = self.transition(TransactionState::Terminated, endpoint, timers, now);
        Ok(ack)
    }

    /// Handles a request that arrived for a server transaction. A CANCEL while
    /// the INVITE is pending is answered 200 and passed to the user, otherwise
    /// answered 481; a duplicate request in Trying or Proceeding replays the
    /// last response; an ACK in Completed confirms and is passed to the user.
    pub fn on_received_request(
        &mut self,
        req: Request,
        connection: Option<Connection>,
        endpoint: &EndpointInner,
        timers: &mut Timer<TransactionTimer>,
        now: u64,
    ) -> (r: Step)
        requires
            timers_ready(*old(timers), endpoint.option, now),
            handles_issued(*old(self), *old(timers)),
        ensures
            request_post(*old(self), *final(self), req, connection, *endpoint, now, *old(timers), *final(timers), r),

    {
        let mut outgoing: Vec<Message> = Vec::new();
        if self.transaction_type == TransactionType::ClientInvite || self.transaction_type
            == TransactionType::ClientNonInvite {
            return Step { outgoing, to_tu: None };
        }
        if self.connection.is_none() && connection.is_some() {
            self.connection = connection;
        }
        if req.method == Method::Cancel {
            let pending = self.state == TransactionState::Trying || self.state == TransactionState::Proceeding
                || self.state == TransactionState::Completed;
            let code: u16 = if pending { 200 } else { 481 };
            if self.connection.is_some() {
                let resp = endpoint.make_response(&req, code, None);
                outgoing.push(Message::Response(resp));
            }
            if pending {
                return Step { outgoing, to_tu: Some(Message::Request(req)) };
            }
            return Step { outgoing, to_tu: None };
        }
        if self.state == TransactionState::Trying || self.state == TransactionState::Proceeding {
            if self.connection.is_some() {
                match &self.last_response {
                    Some(last) => {
                        outgoing.push(Message::Response(last.copy()));
                    },
                    None => {},
                }
            }
            return Step { outgoing, to_tu: None };
        }
        if self.state == TransactionState::Completed && req.method == Method::Ack {
            let _ = self.transition(TransactionState::Confirmed, endpoint, timers, now);
            return Step { outgoing, to_tu: Some(Message::Request(req)) };
        }
        Step { outgoing, to_tu: None }
    }

    /// Handles a response that arrived for a client transaction: a response that
    /// moves the transaction forward is recorded and returned for the user; a
    /// duplicate, or one the table does not allow, is dropped.
    pub fn on_received_response(
        &mut self,
        resp: Response,
        endpoint: &EndpointInner,
        timers: &mut Timer<TransactionTimer>,
        now: u64,
    ) -> (r: Option<Response>)
        requires
            timers_ready(*old(timers), endpoint.option, now),
            handles_issued(*old(self), *old(timers)),
        ensures
            response_post(*old(self), *final(self), resp, *endpoint, now, *old(timers), *final(timers), r),

    {
        if !(self.transaction_type == TransactionType::ClientInvite || self.transaction_type
            == TransactionType::ClientNonInvite) {
            return None;
        }
        let new_state = if resp.status_code == 100 {
            TransactionState::Trying
        } else if resp.status_code < 200 {
            TransactionState::Proceeding
        } else if self.transaction_type == TransactionType::ClientInvite {
            TransactionState::Completed
        } else {
            TransactionState::Terminated
        };
        if self.can_transition(new_state).is_err() {
            return None;
        }
        if self.state == new_state {
            return None;
        }
        let out = resp.copy();
        self.last_response = Some(resp);
        let _ = self.transition(new_state, endpoint, timers, now);
        Some(out)
    }

    /// Handles a timer that fired at `now`. Timer A retransmits the request of a
    /// client in Trying and restarts with the doubled interval, at most T1x64;
    /// Timer B hands the user of a client a 408 and terminates; Timer G retransmits the last
    /// response in Completed and restarts the same way; Timers D and K terminate.
    /// A timer that does not belong to the current state is ignored.
    pub fn on_timer(
        &mut self,
        timer: TransactionTimer,
        endpoint: &EndpointInner,
        timers: &mut Timer<TransactionTimer>,
        now: u64,
    ) -> (r: Step)
        requires
            timers_ready(*old(timers), endpoint.option, now),
            handles_issued(*old(self), *old(timers)),
        ensures
            timer_post(*old(self), *final(self), timer, *endpoint, now, *old(timers), *final(timers), r),

    {
        let mut outgoing: Vec<Message> = Vec::new();
        let client = self.transaction_type == TransactionType::ClientInvite || self.transaction_type
            == TransactionType::ClientNonInvite;
        let cap = endpoint.option.t1x64;
        match timer {
            TransactionTimer::TimerA(k, d) => {
                if self.state == TransactionState::Trying && client {
                    if self.connection.is_some() {
                        outgoing.push(Message::Request(self.original.copy()));
                    }
                    let next = if d <= cap / 2 { d * 2 } else { cap };
                    let id = start_timer(timers, now, next, TransactionTimer::TimerA(k, next));
                    self.timer_a = Some(id);
                }
                Step { outgoing, to_tu: None }
            },
            TransactionTimer::TimerB(_) => {
                if (self.state == TransactionState::Trying || self.state == TransactionState::Proceeding) && client {
                    let timeout = endpoint.make_response(&self.original, 408, None);
                    let _ = self.transition(TransactionState::Terminated, endpoint, timers, now);
                    Step { outgoing, to_tu: Some(Message::Response(timeout)) }
                } else {
                    Step { outgoing, to_tu: None }
                }
            },
            TransactionTimer::TimerG(k, d) => {
                if self.state == TransactionState::Completed {
                    if self.connection.is_some() {
                        match &self.last_response {
                            Some(last) => {
                                outgoing.push(Message::Response(last.copy()));
                            },
                            None => {},
                        }
                    }
                    let next = if d <= cap / 2 { d * 2 } else { cap };
                    let id = start_timer(timers, now, next, TransactionTimer::TimerG(k, next));
                    self.timer_g = Some(id);
                }
                Step { outgoing, to_tu: None }
            },
            TransactionTimer::TimerD(_) => {
                if self.state == TransactionState::Completed {
                    let _ = self.transition(TransactionState::Terminated, endpoint, timers, now);
                }
                Step { outgoing, to_tu: None }
            },
            TransactionTimer::TimerK(_) => {
                if self.state == TransactionState::Confirmed {
                    let _ = self.transition(TransactionState::Terminated, endpoint, timers, now);
                }
                Step { outgoing, to_tu: None }
            },
        }
    }

    /// Applies one mailbox event and returns what to write and what to hand the
    /// user; `closed` tells the user that the transaction is over.
    pub fn receive(
        &mut self,
        event: TransactionEvent,
        endpoint: &EndpointInner,
        timers: &mut Timer<TransactionTimer>,
        now: u64,
    ) -> (r: (Step, bool))
        requires
            timers_ready(*old(timers), endpoint.option, now),
            handles_issued(*old(self), *old(timers)),
        ensures
            handles_issued(*final(self), *final(timers)),
            final(timers).wf(),
            step_allowed(old(self).state, final(self).state),
            r.1 == (event is Terminate || final(self).state == TransactionState::Terminated),
            event is Terminate ==> *final(self) == *old(self) && r.0.outgoing@.len() == 0 && r.0.to_tu.is_none(),
            old(self).state == TransactionState::Terminated ==> r.0.to_tu.is_none() && r.1
                && final(self).state == TransactionState::Terminated,
            match event {
                TransactionEvent::Received(Message::Request(req), c) => request_post(
                    *old(self),
                    *final(self),
                    req,
                    c,
                    *endpoint,
                    now,
                    *old(timers),
                    *final(timers),
                    r.0,
                ),
                TransactionEvent::Received(Message::Response(resp), _) => r.0.outgoing@.len() == 0 && exists|
                    o: Option<Response>,
                | {
                    &&& #[trigger] response_post(*old(self), *final(self), resp, *endpoint, now, *old(timers), *final(timers), o)
                    &&& match o {
                        Some(x) => r.0.to_tu == Some(Message::Response(x)),
                        None => r.0.to_tu.is_none(),
                    }
                },
                TransactionEvent::Timer(t) => timer_post(
                    *old(self),
                    *final(self),
                    t,
                    *endpoint,
                    now,
                    *old(timers),
                    *final(timers),
                    r.0,
                ),
                TransactionEvent::Respond(resp) => r.0.to_tu.is_none() && exists|o: Result<Response, Error>| {
                    &&& #[trigger] respond_post(*old(self), *final(self), resp, *endpoint, now, *old(timers), *final(timers), o)
                    &&& match o {
                        Ok(x) => r.0.outgoing@ == seq![Message::Response(x)],
                        Err(_) => r.0.outgoing@.len() == 0,
                    }
                },
                TransactionEvent::Terminate => *final(timers) == *old(timers),
            },
    {
        let step = match event {
            TransactionEvent::Received(Message::Request(req), connection) => {
                self.on_received_request(req, connection, endpoint, timers, now)
            },
            TransactionEvent::Received(Message::Response(resp), _) => {
                let o = self.on_received_response(resp, endpoint, timers, now);
                let ghost go = o;
                let step = match o {
                    Some(resp) => Step { outgoing: Vec::new(), to_tu: Some(Message::Response(resp)) },
                    None => Step { outgoing: Vec::new(), to_tu: None },
                };
                proof {
                    assert(match go {
                        Some(x) => step.to_tu == Some(Message::Response(x)),
                        None => step.to_tu.is_none(),
                    });
                }
                step
            },
            TransactionEvent::Timer(t) => self.on_timer(t, endpoint, timers, now),
            TransactionEvent::Respond(resp) => {
                let o = self.respond(resp, endpoint, timers, now);
                let ghost go = o;
                let step = match o {
                    Ok(resp) => {
                        let mut outgoing: Vec<Message> = Vec::new();
                        outgoing.push(Message::Response(resp));
                        Step { outgoing, to_tu: None }
                    },
                    Err(_) => Step { outgoing: Vec::new(), to_tu: None },
                };
                proof {
                    assert(match go {
                        Ok(x) => step.outgoing@ == seq![Message::Response(x)],
                        Err(_) => step.outgoing@.len() == 0,
                    });
                }
                step
            },
            TransactionEvent::Terminate => {
                return (Step { outgoing: Vec::new(), to_tu: None }, true);
            },
        };
        let closed = self.state == TransactionState::Terminated;
        (step, closed)
    }
}

/// Where the endpoint sends a message that arrived.
#[derive(PartialEq, Eq, Structural, Clone, Copy, Debug)]
pub enum Route {
    /// Into the mailbox of the transaction with the message's key.
    ToTransaction,
    /// A new request: create a server transaction and hand it to the user.
    NewServerTransaction,
    /// An ACK for a 2xx: it belongs to the dialog, not to a transaction.
    ToDialog,
    /// A response that matches no transaction.
    Drop,
}

/// Routes a message that arrived: `is_request` and `method` describe it,
/// `attached` tells whether a transaction with its key exists.
pub fn route_incoming(is_request: bool, method: Method, attached: bool) -> (r: Route)
    ensures
        attached ==> r == Route::ToTransaction,
        !attached && is_request && method == Method::Ack ==> r == Route::ToDialog,
        !attached && is_request && method != Method::Ack ==> r == Route::NewServerTransaction,
        !attached && !is_request ==> r == Route::Drop,
{
    if attached {
        Route::ToTransaction
    } else if !is_request {
        Route::Drop
    } else if method == Method::Ack {
        Route::ToDialog
    } else {
        Route::NewServerTransaction
    }
}

/// The interval of the `n`-th run of a retransmission timer that starts at `t1`
/// and doubles up to `cap`.
pub open spec fn retransmit_interval(t1: u64, cap: u64, n: nat) -> u64
    decreases n,
{
    if n == 0 {
        t1
    } else {
        next_interval(retransmit_interval(t1, cap, (n - 1) as nat), cap)
    }
}

/// When, after the transaction entered Trying, the `n`-th retransmission goes out.
pub open spec fn retransmit_time(t1: u64, cap: u64, n: nat) -> int
    decreases n,
{
    if n == 0 {
        0
    } else {
        retransmit_time(t1, cap, (n - 1) as nat) + retransmit_interval(t1, cap, (n - 1) as nat)
    }
}

pub open spec fn pow2(n: nat) -> nat
    decreases n,
{
    if n == 0 {
        1
    } else {
        2 * pow2((n - 1) as nat)
    }
}

proof fn lemma_interval_unclamped(t1: u64, cap: u64, j: nat)
    requires
        retransmit_interval(t1, cap, j) < cap,
    ensures
        retransmit_interval(t1, cap, j) == pow2(j) * t1,
    decreases j,
{
    if j > 0 {
        let prev = retransmit_interval(t1, cap, (j - 1) as nat);
        assert(2 * prev <= cap);
        assert(retransmit_interval(t1, cap, j) == 2 * prev);
        lemma_interval_unclamped(t1, cap, (j - 1) as nat);
        assert(pow2(j) == 2 * pow2((j - 1) as nat));
        assert(pow2(j) * t1 == 2 * (pow2((j - 1) as nat) * t1)) by (nonlinear_arith)
            requires
                pow2(j) == 2 * pow2((j - 1) as nat),
        ;
    } else {
        assert(pow2(0) == 1);
    }
}

proof fn lemma_time_at_least_t1(t1: u64, cap: u64, m: nat)
    requires
        m >= 1,
    ensures
        retransmit_time(t1, cap, m) >= t1,
    decreases m,
{
    if m > 1 {
        lemma_time_at_least_t1(t1, cap, (m - 1) as nat);
    } else {
        assert(retransmit_time(t1, cap, 0) == 0);
        assert(retransmit_interval(t1, cap, 0) == t1);
    }
}

proof fn lemma_pow2_large(k: nat)
    requires
        k >= 7,
    ensures
        pow2(k) >= 128,
    decreases k,
{
    if k > 7 {
        lemma_pow2_large((k - 1) as nat);
    } else {
        reveal_with_fuel(pow2, 8);
        assert(pow2(7) == 128);
    }
}

/// Retransmissions of a request on an unreliable transport are bounded: if the
/// `n`-th one goes out no later than Timer B (at `cap`, that is T1x64), then
/// `2^(n-1) * t1 <= cap`, so `n <= log2(cap / t1) + 1`; with `cap = 64 * t1`, `n <= 7`.
pub proof fn lemma_retransmissions_bounded(t1: u64, cap: u64, n: nat)
    requires
        t1 > 0,
        n >= 1,
        retransmit_time(t1, cap, n) <= cap,
    ensures
        pow2((n - 1) as nat) * t1 <= cap,
        cap == 64 * t1 ==> n <= 7,
{
    let m = (n - 1) as nat;
    let d = retransmit_interval(t1, cap, m);
    if n == 1 {
        assert(retransmit_time(t1, cap, 1) == t1);
    } else {
        lemma_time_at_least_t1(t1, cap, m);
        assert(d < cap);
        lemma_interval_unclamped(t1, cap, m);
    }
    if cap == 64 * t1 && n > 7 {
        lemma_pow2_large(m);
        assert(pow2(m) * t1 >= 128 * t1) by (nonlinear_arith)
            requires
                pow2(m) >= 128,
                t1 > 0,
        ;
    }
}

} // verus!