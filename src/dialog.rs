//! Dialogs: identifiers, states with their broadcast log, CSeq counters, the
//! route set and the requests built inside a dialog.
use vstd::prelude::*;
use vstd::string::*;
use crate::error::{DialogErrorKind, Error, MissingHeader};
use crate::message::{
    copy_string, first_of, position_of, CSeq, Header, HeaderKind, Method, Request, Response,
};
use crate::transaction::TransactionRole;

verus! {

/// Identifies a dialog: Call-ID, From tag and To tag. An early or pre-dialog
/// identifier has an empty To tag.
#[derive(Debug)]
pub struct DialogId {
    pub call_id: String,
    pub from_tag: String,
    pub to_tag: String,
}

impl DialogId {
    pub fn copy(&self) -> (r: DialogId)
        ensures
            r == *self,
    {
        DialogId {
            call_id: copy_string(&self.call_id),
            from_tag: copy_string(&self.from_tag),
            to_tag: copy_string(&self.to_tag),
        }
    }

    /// Equality of identifiers.
    pub fn same(&self, other: &DialogId) -> (r: bool)
        ensures
            r == (self@ == other@),
    {
        self.call_id == other.call_id && self.from_tag == other.from_tag && self.to_tag == other.to_tag
    }

    /// The identifier of the dialog that `req` opens or belongs to: its
    /// Call-ID, From tag and To tag (empty where the To header has none).
    pub fn from_request(req: &Request) -> (r: Result<DialogId, Error>)
        ensures
            match first_of(req.headers@, HeaderKind::CallId) {
                Some(Header::CallId(c)) => match first_of(req.headers@, HeaderKind::From) {
                    Some(Header::From(f)) => match f.tag {
                        Some(ft) => match first_of(req.headers@, HeaderKind::To) {
                            Some(Header::To(t)) => r.is_ok() && r.unwrap()@ == (c@, ft@, match t.tag {
                                Some(tt) => tt@,
                                None => Seq::<char>::empty(),
                            }),
                            _ => r == Err::<DialogId, Error>(Error::ProtocolError(MissingHeader::To)),
                        },
                        None => r == Err::<DialogId, Error>(Error::ProtocolError(MissingHeader::From)),
                    },
                    _ => r == Err::<DialogId, Error>(Error::ProtocolError(MissingHeader::From)),
                },
                _ => r == Err::<DialogId, Error>(Error::ProtocolError(MissingHeader::CallId)),
            },
    {
        let c = match position_of(&req.headers, HeaderKind::CallId) {
            Some(i) => match &req.headers[i] {
                Header::CallId(c) => copy_string(c),
                _ => {
                    return Err(Error::ProtocolError(MissingHeader::CallId));
                },
            },
            None => {
                return Err(Error::ProtocolError(MissingHeader::CallId));
            },
        };
        let f = match position_of(&req.headers, HeaderKind::From) {
            Some(i) => match &req.headers[i] {
                Header::From(f) => match &f.tag {
                    Some(t) => copy_string(t),
                    None => {
                        return Err(Error::ProtocolError(MissingHeader::From));
                    },
                },
                _ => {
                    return Err(Error::ProtocolError(MissingHeader::From));
                },
            },
            None => {
                return Err(Error::ProtocolError(MissingHeader::From));
            },
        };
        let t = match position_of(&req.headers, HeaderKind::To) {
            Some(i) => match &req.headers[i] {
                Header::To(t) => match &t.tag {
                    Some(t) => copy_string(t),
                    None => String::new(),
                },
                _ => {
                    return Err(Error::ProtocolError(MissingHeader::To));
                },
            },
            None => {
                return Err(Error::ProtocolError(MissingHeader::To));
            },
        };
        Ok(DialogId { call_id: c, from_tag: f, to_tag: t })
    }
}

impl PartialEq for DialogId {
    fn eq(&self, other: &DialogId) -> (r: bool) {
        self.same(other)
    }
}

impl vstd::std_specs::cmp::PartialEqSpecImpl for DialogId {
    open spec fn obeys_eq_spec() -> bool {
        true
    }

    open spec fn eq_spec(&self, other: &DialogId) -> bool {
        self@ == other@
    }
}

impl View for DialogId {
    type V = (Seq<char>, Seq<char>, Seq<char>);

    open spec fn view(&self) -> (Seq<char>, Seq<char>, Seq<char>) {
        (self.call_id@, self.from_tag@, self.to_tag@)
    }
}

/// Why a dialog ended.
#[derive(PartialEq, Eq, Structural, Clone, Copy, Debug)]
pub enum TerminatedReason {
    Timeout,
    UacCancel,
    UacBye,
    UasBye,
    UacBusy,
    UasBusy,
    UasCancel,
    UacOther(u16),
    UasOther(u16),
    Error(Error),
}

/// The reason a client dialog ends on a final failure response with `code`.
pub open spec fn reason_for_code(code: u16) -> TerminatedReason {
    if code == 486 || code == 600 {
        TerminatedReason::UasBusy
    } else if code == 487 {
        TerminatedReason::UacCancel
    } else if code == 408 {
        TerminatedReason::Timeout
    } else {
        TerminatedReason::UasOther(code)
    }
}

/// The reason a client dialog ends on a final failure response with `code`.
pub fn terminated_reason_for(code: u16) -> (r: TerminatedReason)
    ensures
        r == reason_for_code(code),
{
    if code == 486 || code == 600 {
        TerminatedReason::UasBusy
    } else if code == 487 {
        TerminatedReason::UacCancel
    } else if code == 408 {
        TerminatedReason::Timeout
    } else {
        TerminatedReason::UasOther(code)
    }
}

/// The states of a dialog.
#[derive(Debug)]
pub enum DialogState {
    Calling(DialogId),
    Trying(DialogId),
    Early(DialogId, Response),
    WaitAck(DialogId, Response),
    Confirmed(DialogId),
    Updated(DialogId, Request),
    Notify(DialogId, Request),
    Info(DialogId, Request),
    Options(DialogId, Request),
    Terminated(DialogId, TerminatedReason),
}

/// Two states that hold the same values.
pub open spec fn same_state(a: DialogState, b: DialogState) -> bool {
    match (a, b) {
        (DialogState::Calling(x), DialogState::Calling(y)) => x == y,
        (DialogState::Trying(x), DialogState::Trying(y)) => x == y,
        (DialogState::Early(x, p), DialogState::Early(y, q)) => x == y && crate::transaction::same_response(p, q),
        (DialogState::WaitAck(x, p), DialogState::WaitAck(y, q)) => x == y && crate::transaction::same_response(p, q),
        (DialogState::Confirmed(x), DialogState::Confirmed(y)) => x == y,
        (DialogState::Updated(x, p), DialogState::Updated(y, q)) => x == y && crate::transaction::same_request(p, q),
        (DialogState::Notify(x, p), DialogState::Notify(y, q)) => x == y && crate::transaction::same_request(p, q),
        (DialogState::Info(x, p), DialogState::Info(y, q)) => x == y && crate::transaction::same_request(p, q),
        (DialogState::Options(x, p), DialogState::Options(y, q)) => x == y && crate::transaction::same_request(p, q),
        (DialogState::Terminated(x, p), DialogState::Terminated(y, q)) => x == y && p == q,
        _ => false,
    }
}

impl DialogState {
    pub open spec fn is_terminated_spec(&self) -> bool {
        self is Terminated
    }

    pub fn is_terminated(&self) -> (r: bool)
        ensures
            r == self.is_terminated_spec(),
    {
        match self {
            DialogState::Terminated(_, _) => true,
            _ => false,
        }
    }

    pub fn is_confirmed(&self) -> (r: bool)
        ensures
            r == (self is Confirmed),
    {
        match self {
            DialogState::Confirmed(_) => true,
            _ => false,
        }
    }

    pub fn copy(&self) -> (r: DialogState)
        ensures
            same_state(r, *self),
    {
        match self {
            DialogState::Calling(x) => DialogState::Calling(x.copy()),
            DialogState::Trying(x) => DialogState::Trying(x.copy()),
            DialogState::Early(x, p) => DialogState::Early(x.copy(), p.copy()),
            DialogState::WaitAck(x, p) => DialogState::WaitAck(x.copy(), p.copy()),
            DialogState::Confirmed(x) => DialogState::Confirmed(x.copy()),
            DialogState::Updated(x, p) => DialogState::Updated(x.copy(), p.copy()),
            DialogState::Notify(x, p) => DialogState::Notify(x.copy(), p.copy()),
            DialogState::Info(x, p) => DialogState::Info(x.copy(), p.copy()),
            DialogState::Options(x, p) => DialogState::Options(x.copy(), p.copy()),
            DialogState::Terminated(x, p) => DialogState::Terminated(x.copy(), *p),
        }
    }
}

/// The broadcast log after one more event: when it is full the oldest event goes.
pub open spec fn log_after(log: Seq<DialogState>, capacity: nat, s: DialogState) -> Seq<DialogState> {
    if capacity == 0 {
        log
    } else if log.len() < capacity {
        log.push(s)
    } else {
        log.skip(1).push(s)
    }
}

/// Two logs that hold the same states in the same order.
pub open spec fn same_log(a: Seq<DialogState>, b: Seq<DialogState>) -> bool {
    a.len() == b.len() && forall|i: int| 0 <= i < a.len() ==> same_state(#[trigger] a[i], b[i])
}

/// Digest credentials of a user.
pub struct Credential {
    pub username: String,
    pub password: String,
    pub realm: Option<String>,
}

impl Credential {
    pub fn copy(&self) -> (r: Credential)
        ensures
            r == *self,
    {
        Credential {
            username: copy_string(&self.username),
            password: copy_string(&self.password),
            realm: crate::message::copy_opt_string(&self.realm),
        }
    }
}

/// The shared state of one dialog.
pub struct DialogInner {
    pub role: TransactionRole,
    pub id: DialogId,
    pub initial_request: Request,
    pub local_seq: u32,
    pub remote_seqs: Vec<CSeq>,
    pub local_contact: Option<String>,
    pub remote_contact: Option<String>,
    pub route_set: Vec<crate::message::RouteEntry>,
    pub credential: Option<Credential>,
    pub state: DialogState,
    pub events: Vec<DialogState>,
    pub event_capacity: usize,
}

/// No two entries of the remote CSeq table share a method.
pub open spec fn methods_distinct(s: Seq<CSeq>) -> bool {
    forall|i: int, j: int| 0 <= i < s.len() && 0 <= j < s.len() && i != j ==> #[trigger] s[i].method != #[trigger] s[j].method
}

/// The last remote CSeq number seen for `m`, if any.
pub open spec fn last_remote_seq(s: Seq<CSeq>, m: Method) -> Option<u32> {
    if exists|i: int| 0 <= i < s.len() && #[trigger] s[i].method == m {
        let i = choose|i: int| 0 <= i < s.len() && #[trigger] s[i].method == m;
        Some(s[i].seq)
    } else {
        None
    }
}

/// What a transition attempt does to a dialog: from Terminated it fails and
/// changes nothing; otherwise the new state is set and broadcast.
pub open spec fn transition_post(before: DialogInner, after: DialogInner, s: DialogState, ok: bool) -> bool {
    if before.state_spec().is_terminated_spec() {
        !ok && after == before
    } else {
        &&& ok
        &&& same_state(after.state_spec(), s)
        &&& same_log(after.events_spec(), log_after(before.events_spec(), before.capacity_spec() as nat, s))
        &&& after.id_spec() == before.id_spec()
        &&& after.local_seq_spec() == before.local_seq_spec()
        &&& after.capacity_spec() == before.capacity_spec()
    }
}

impl DialogInner {
    pub open spec fn id_spec(&self) -> DialogId {
        self.id
    }

    pub open spec fn state_spec(&self) -> DialogState {
        self.state
    }

    pub open spec fn local_seq_spec(&self) -> u32 {
        self.local_seq
    }

    pub open spec fn remote_seqs_spec(&self) -> Seq<CSeq> {
        self.remote_seqs@
    }

    pub open spec fn events_spec(&self) -> Seq<DialogState> {
        self.events@
    }

    pub open spec fn capacity_spec(&self) -> usize {
        self.event_capacity
    }

    pub open spec fn wf(&self) -> bool {
        &&& self.events_spec().len() <= self.capacity_spec()
        &&& methods_distinct(self.remote_seqs_spec())
    }

    /// A dialog in state Calling whose local CSeq is the one of `initial_request`;
    /// the broadcast log keeps the last `event_capacity` states.
    pub fn new(
        role: TransactionRole,
        id: DialogId,
        initial_request: Request,
        credential: Option<Credential>,
        local_contact: Option<String>,
        event_capacity: usize,
    ) -> (r: Result<DialogInner, Error>)
        ensures
            match first_of(initial_request.headers@, HeaderKind::CSeq) {
                Some(Header::CSeq(c)) => r.is_ok() && {
                    let d = r.unwrap();
                    &&& d.wf()
                    &&& d.local_seq_spec() == c.seq
                    &&& d.id_spec() == id
                    &&& d.state_spec() == DialogState::Calling(id)
                    &&& d.events_spec().len() == 0
                    &&& d.capacity_spec() == event_capacity
                    &&& d.remote_seqs_spec().len() == 0
                    &&& d.role == role
                    &&& d.initial_request == initial_request
                    &&& d.credential == credential
                    &&& d.local_contact == local_contact
                    &&& d.remote_contact.is_none()
                    &&& d.route_set@.len() == 0
                },
                _ => r == Err::<DialogInner, Error>(Error::ProtocolError(MissingHeader::CSeq)),
            },
    {
        let seq = match position_of(&initial_request.headers, HeaderKind::CSeq) {
            Some(i) => match &initial_request.headers[i] {
                Header::CSeq(c) => c.seq,
                _ => {
                    return Err(Error::ProtocolError(MissingHeader::CSeq));
                },
            },
            None => {
                return Err(Error::ProtocolError(MissingHeader::CSeq));
            },
        };
        let state = DialogState::Calling(id.copy());
        Ok(
            DialogInner {
                role,
                id,
                initial_request,
                local_seq: seq,
                remote_seqs: Vec::new(),
                local_contact,
                remote_contact: None,
                route_set: Vec::new(),
                credential,
                state,
                events: Vec::new(),
                event_capacity,
            },
        )
    }

    /// A copy of the dialog, for a second holder such as the dialog layer.
    pub fn copy(&self) -> (r: DialogInner)
        requires
            self.wf(),
        ensures
            r.wf(),
            r.role == self.role,
            r.id == self.id,
            r.local_seq == self.local_seq,
            r.remote_seqs@ == self.remote_seqs@,
            same_state(r.state, self.state),
            same_log(r.events@, self.events@),
            r.event_capacity == self.event_capacity,
            crate::transaction::same_request(r.initial_request, self.initial_request),
            r.local_contact == self.local_contact,
            r.remote_contact == self.remote_contact,
            r.route_set@ == self.route_set@,
            r.credential == self.credential,
    {
        let mut remote_seqs: Vec<CSeq> = Vec::new();
        let mut i: usize = 0;
        while i < self.remote_seqs.len()
            invariant
                i <= self.remote_seqs@.len(),
                remote_seqs@ == self.remote_seqs@.take(i as int),
            decreases self.remote_seqs@.len() - i,
        {
            remote_seqs.push(self.remote_seqs[i]);
            i = i + 1;
            proof {
                assert(self.remote_seqs@.take(i as int) == self.remote_seqs@.take(i - 1).push(self.remote_seqs@[i - 1]));
            }
        }
        proof {
            assert(self.remote_seqs@.take(self.remote_seqs@.len() as int) == self.remote_seqs@);
        }
        let mut route_set: Vec<crate::message::RouteEntry> = Vec::new();
        let mut j: usize = 0;
        while j < self.route_set.len()
            invariant
                j <= self.route_set@.len(),
                route_set@ == self.route_set@.take(j as int),
            decreases self.route_set@.len() - j,
        {
            route_set.push(self.route_set[j].copy());
            j = j + 1;
            proof {
                assert(self.route_set@.take(j as int) == self.route_set@.take(j - 1).push(self.route_set@[j - 1]));
            }
        }
        proof {
            assert(self.route_set@.take(self.route_set@.len() as int) == self.route_set@);
        }
        DialogInner {
            role: self.role,
            id: self.id.copy(),
            initial_request: self.initial_request.copy(),
            local_seq: self.local_seq,
            remote_seqs,
            local_contact: crate::message::copy_opt_string(&self.local_contact),
            remote_contact: crate::message::copy_opt_string(&self.remote_contact),
            route_set,
            credential: match &self.credential {
                Some(c) => Some(c.copy()),
                None => None,
            },
            state: self.state.copy(),
            events: self.events(),
            event_capacity: self.event_capacity,
        }
    }

    pub fn id(&self) -> (r: DialogId)
        ensures
            r == self.id_spec(),
    {
        self.id.copy()
    }

    pub fn state(&self) -> (r: DialogState)
        ensures
            same_state(r, self.state_spec()),
    {
        self.state.copy()
    }

    /// The broadcast states still in the log, oldest first.
    pub fn events(&self) -> (r: Vec<DialogState>)
        ensures
            same_log(r@, self.events_spec()),
    {
        let mut r: Vec<DialogState> = Vec::new();
        let mut i: usize = 0;
        while i < self.events.len()
            invariant
                i <= self.events@.len(),
                r@.len() == i,
                forall|j: int| 0 <= j < i ==> same_state(#[trigger] r@[j], self.events@[j]),
            decreases self.events@.len() - i,
        {
            r.push(self.events[i].copy());
            i = i + 1;
        }
        r
    }

    pub fn get_local_seq(&self) -> (r: u32)
        ensures
            r == self.local_seq_spec(),
    {
        self.local_seq
    }

    /// Advances the local CSeq and returns the new value.
    pub fn increment_local_seq(&mut self) -> (r: u32)
        requires
            old(self).local_seq_spec() < u32::MAX,
        ensures
            r == old(self).local_seq_spec() + 1,
            final(self).local_seq_spec() == r,
            final(self).id_spec() == old(self).id_spec(),
            final(self).state_spec() == old(self).state_spec(),
            final(self).events_spec() == old(self).events_spec(),
            final(self).capacity_spec() == old(self).capacity_spec(),
            final(self).remote_seqs_spec() == old(self).remote_seqs_spec(),
            final(self).role == old(self).role,
            final(self).initial_request == old(self).initial_request,
            final(self).route_set == old(self).route_set,
            final(self).remote_contact == old(self).remote_contact,
            final(self).local_contact == old(self).local_contact,
            final(self).credential == old(self).credential,
    {
        self.local_seq = self.local_seq + 1;
        self.local_seq
    }

    pub fn is_confirmed(&self) -> (r: bool)
        ensures
            r == (self.state_spec() is Confirmed),
    {
        self.state.is_confirmed()
    }

    pub fn is_terminated(&self) -> (r: bool)
        ensures
            r == self.state_spec().is_terminated_spec(),
    {
        self.state.is_terminated()
    }

    /// The one place where the state changes. Fails once the dialog is
    /// Terminated; otherwise sets `state` and broadcasts it, dropping the oldest
    /// logged state when the log is full.
    pub fn transition(&mut self, state: DialogState) -> (r: Result<(), Error>)
        requires
            old(self).wf(),
        ensures
            final(self).wf(),
            transition_post(*old(self), *final(self), state, r.is_ok()),
            r.is_err() ==> r == Err::<(), Error>(Error::DialogError(DialogErrorKind::AlreadyTerminated)),
            final(self).role == old(self).role,
            final(self).initial_request == old(self).initial_request,
            final(self).route_set == old(self).route_set,
            final(self).remote_contact == old(self).remote_contact,
            final(self).credential == old(self).credential,
            final(self).remote_seqs_spec() == old(self).remote_seqs_spec(),
    {
        if self.state.is_terminated() {
            return Err(Error::DialogError(DialogErrorKind::AlreadyTerminated));
        }
        let ghost before = self.events@;
        let ghost cap = self.event_capacity as nat;
        let ghost s = state;
        if self.event_capacity > 0 {
            if self.events.len() >= self.event_capacity {
                self.events.remove(0);
                proof {
                    assert(self.events@ == before.skip(1));
                }
            }
            self.events.push(state.copy());
        }
        self.state = state;
        proof {
            let target = log_after(before, cap, s);
            assert(self.events@.len() == target.len());
            assert forall|i: int| 0 <= i < self.events@.len() implies same_state(#[trigger] self.events@[i], target[i]) by {
                if cap > 0 && i < self.events@.len() - 1 {
                    if before.len() >= cap {
                        assert(self.events@[i] == before[i + 1]);
                        assert(target[i] == before[i + 1]);
                    } else {
                        assert(self.events@[i] == before[i]);
                    }
                    lemma_same_state_refl(self.events@[i]);
                }
            }
            lemma_same_state_refl(s);
        }
        Ok(())
    }
}

/// Where an in-dialog request goes: with a strict router first in the route
/// set, the Request-URI is that router and the remote target closes the route
/// set; otherwise the Request-URI is the remote target and the route set is kept.
pub open spec fn route_plan(
    routes: Seq<crate::message::RouteEntry>,
    target: String,
) -> (String, Seq<crate::message::RouteEntry>) {
    if routes.len() > 0 && !routes[0].lr {
        (routes[0].uri, routes.skip(1).push(crate::message::RouteEntry { uri: target, lr: false }))
    } else {
        (target, routes)
    }
}

/// The headers of a request built inside a dialog: the base headers, the
/// local Contact where there is one, then one Route header per route entry.
pub open spec fn in_dialog_headers(
    base: Seq<Header>,
    contact: Option<String>,
    routes: Seq<crate::message::RouteEntry>,
) -> Seq<Header> {
    let with_contact = match contact {
        Some(c) => base.push(Header::Contact(crate::message::Contact { uri: c, expires: None })),
        None => base,
    };
    with_contact + route_headers(routes)
}

/// One Route header per route entry, in order.
pub open spec fn route_headers(routes: Seq<crate::message::RouteEntry>) -> Seq<Header>
    decreases routes.len(),
{
    if routes.len() == 0 {
        Seq::empty()
    } else {
        route_headers(routes.drop_last()).push(Header::Route(routes.last()))
    }
}

/// The local and remote party of a dialog, from its initial request: the
/// client is the From side, the server the To side; each carries its tag.
pub open spec fn parties(d: DialogInner) -> Option<(crate::message::NameAddr, crate::message::NameAddr)> {
    match (first_of(d.initial_request.headers@, HeaderKind::From), first_of(d.initial_request.headers@, HeaderKind::To)) {
        (Some(Header::From(f)), Some(Header::To(t))) => {
            let from = crate::message::NameAddr { tag: Some(d.id.from_tag), ..f };
            let to = crate::message::NameAddr {
                tag: if d.id.to_tag@.len() == 0 { None } else { Some(d.id.to_tag) },
                ..t
            };
            if d.role == TransactionRole::Client {
                Some((from, to))
            } else {
                Some((to, from))
            }
        },
        _ => None,
    }
}

/// The URI that in-dialog requests target: the remote Contact, else the
/// initial request's URI.
pub open spec fn remote_target(d: DialogInner) -> String {
    match d.remote_contact {
        Some(c) => c,
        None => d.initial_request.uri,
    }
}

impl DialogInner {
    /// Accepts a request from the peer with CSeq `cseq` only if its number is
    /// above the last one seen for that method (or none was seen), and records it.
    pub fn check_remote_seq(&mut self, cseq: CSeq) -> (r: Result<(), Error>)
        requires
            old(self).wf(),
        ensures
            final(self).wf(),
            r.is_ok() == match last_remote_seq(old(self).remote_seqs@, cseq.method) {
                Some(last) => last < cseq.seq,
                None => true,
            },
            r.is_err() ==> r == Err::<(), Error>(Error::DialogError(DialogErrorKind::CSeqOutOfOrder))
                && *final(self) == *old(self),
            r.is_ok() ==> last_remote_seq(final(self).remote_seqs@, cseq.method) == Some(cseq.seq),
            forall|m: Method| m != cseq.method ==> last_remote_seq(final(self).remote_seqs@, m)
                == last_remote_seq(old(self).remote_seqs@, m),
            final(self).id == old(self).id,
            final(self).state == old(self).state,
            final(self).local_seq == old(self).local_seq,
            final(self).events == old(self).events,
    {
        let mut i: usize = 0;
        while i < self.remote_seqs.len()
            invariant
                i <= self.remote_seqs@.len(),
                *self == *old(self),
                self.wf(),
                forall|j: int| 0 <= j < i ==> #[trigger] self.remote_seqs@[j].method != cseq.method,
            decreases self.remote_seqs@.len() - i,
        {
            if self.remote_seqs[i].method == cseq.method {
                let ghost s = self.remote_seqs@;
                proof {
                    assert(last_remote_seq(s, cseq.method) == Some(s[i as int].seq)) by {
                        let k = choose|k: int| 0 <= k < s.len() && #[trigger] s[k].method == cseq.method;
                        assert(k == i);
                    }
                }
                if self.remote_seqs[i].seq >= cseq.seq {
                    return Err(Error::DialogError(DialogErrorKind::CSeqOutOfOrder));
                }
                self.remote_seqs.set(i, cseq);
                proof {
                    let t = self.remote_seqs@;
                    assert(t == s.update(i as int, cseq));
                    assert(last_remote_seq(t, cseq.method) == Some(cseq.seq)) by {
                        assert(t[i as int].method == cseq.method);
                        let k = choose|k: int| 0 <= k < t.len() && #[trigger] t[k].method == cseq.method;
                        if k != i {
                            assert(s[k].method != s[i as int].method);
                        }
                    }
                    assert forall|m: Method| m != cseq.method implies last_remote_seq(t, m)
                        == last_remote_seq(s, m) by {
                        if exists|k: int| 0 <= k < s.len() && #[trigger] s[k].method == m {
                            let k = choose|k: int| 0 <= k < s.len() && #[trigger] s[k].method == m;
                            assert(t[k].method == m);
                            let k2 = choose|k2: int| 0 <= k2 < t.len() && #[trigger] t[k2].method == m;
                            assert(t[k2] == s[k2]);
                            if k2 != k {
                                assert(s[k].method != s[k2].method);
                            }
                        } else {
                            if exists|k: int| 0 <= k < t.len() && #[trigger] t[k].method == m {
                                let k = choose|k: int| 0 <= k < t.len() && #[trigger] t[k].method == m;
                                assert(s[k].method == m);
                            }
                        }
                    }
                    assert forall|a: int, b: int| 0 <= a < t.len() && 0 <= b < t.len() && a != b implies #[trigger] t[a].method
                        != #[trigger] t[b].method by {
                        assert(s[a].method != s[b].method);
                    }
                }
                return Ok(());
            }
            i = i + 1;
        }
        let ghost s = self.remote_seqs@;
        self.remote_seqs.push(cseq);
        proof {
            let t = self.remote_seqs@;
            assert(last_remote_seq(s, cseq.method).is_none()) by {
                if exists|k: int| 0 <= k < s.len() && #[trigger] s[k].method == cseq.method {
                    let k = choose|k: int| 0 <= k < s.len() && #[trigger] s[k].method == cseq.method;
                    assert(s[k].method != cseq.method);
                }
            }
            assert(last_remote_seq(t, cseq.method) == Some(cseq.seq)) by {
                assert(t[s.len() as int].method == cseq.method);
                let k = choose|k: int| 0 <= k < t.len() && #[trigger] t[k].method == cseq.method;
                if k < s.len() {
                    assert(s[k].method != cseq.method);
                }
            }
            assert forall|m: Method| m != cseq.method implies last_remote_seq(t, m) == last_remote_seq(s, m) by {
                if exists|k: int| 0 <= k < s.len() && #[trigger] s[k].method == m {
                    let k = choose|k: int| 0 <= k < s.len() && #[trigger] s[k].method == m;
                    assert(t[k].method == m);
                    let k2 = choose|k2: int| 0 <= k2 < t.len() && #[trigger] t[k2].method == m;
                    assert(k2 < s.len());
                    assert(t[k2] == s[k2]);
                    if k2 != k {
                        assert(s[k].method != s[k2].method);
                    }
                } else {
                    if exists|k: int| 0 <= k < t.len() && #[trigger] t[k].method == m {
                        let k = choose|k: int| 0 <= k < t.len() && #[trigger] t[k].method == m;
                        assert(k < s.len());
                        assert(s[k].method == m);
                    }
                }
            }
            assert forall|a: int, b: int| 0 <= a < t.len() && 0 <= b < t.len() && a != b implies #[trigger] t[a].method
                != #[trigger] t[b].method by {
                if a < s.len() && b < s.len() {
                    assert(s[a].method != s[b].method);
                }
            }
        }
        Ok(())
    }

    /// Learns the remote tag: an empty one is set, a set one never changes.
    /// Returns whether the dialog's remote tag is now `tag`.
    pub fn update_remote_tag(&mut self, tag: &String) -> (r: bool)
        ensures
            old(self).id.to_tag@.len() == 0 ==> final(self).id == (DialogId { to_tag: *tag, ..old(self).id }),
            old(self).id.to_tag@.len() != 0 ==> final(self).id == old(self).id,
            r == (final(self).id.to_tag@ == tag@),
            final(self).state == old(self).state,
            final(self).local_seq == old(self).local_seq,
            final(self).events == old(self).events,
            final(self).event_capacity == old(self).event_capacity,
            final(self).remote_seqs == old(self).remote_seqs,
            final(self).role == old(self).role,
            final(self).initial_request == old(self).initial_request,
            final(self).route_set == old(self).route_set,
            final(self).remote_contact == old(self).remote_contact,
            final(self).local_contact == old(self).local_contact,
            final(self).credential == old(self).credential,
    {
        if self.id.to_tag.as_str().unicode_len() == 0 {
            proof {
                assert(self.id.to_tag@.len() == 0);
            }
            self.id.to_tag = tag.clone();
        }
        self.id.to_tag == *tag
    }

    /// The local and remote party of the dialog.
    pub fn parties(&self) -> (r: Result<(crate::message::NameAddr, crate::message::NameAddr), Error>)
        ensures
            match parties(*self) {
                Some(p) => r == Ok::<(crate::message::NameAddr, crate::message::NameAddr), Error>(p),
                None => r.is_err(),
            },
    {
        let f = match position_of(&self.initial_request.headers, HeaderKind::From) {
            Some(i) => match &self.initial_request.headers[i] {
                Header::From(f) => f.copy(),
                _ => {
                    return Err(Error::ProtocolError(MissingHeader::From));
                },
            },
            None => {
                return Err(Error::ProtocolError(MissingHeader::From));
            },
        };
        let t = match position_of(&self.initial_request.headers, HeaderKind::To) {
            Some(i) => match &self.initial_request.headers[i] {
                Header::To(t) => t.copy(),
                _ => {
                    return Err(Error::ProtocolError(MissingHeader::To));
                },
            },
            None => {
                return Err(Error::ProtocolError(MissingHeader::To));
            },
        };
        let from = crate::message::NameAddr { tag: Some(self.id.from_tag.clone()), ..f };
        let to_tag = if self.id.to_tag.as_str().unicode_len() == 0 {
            None
        } else {
            Some(self.id.to_tag.clone())
        };
        let to = crate::message::NameAddr { tag: to_tag, ..t };
        if self.role == TransactionRole::Client {
            Ok((from, to))
        } else {
            Ok((to, from))
        }
    }

    fn build_request(
        &self,
        method: Method,
        seq: u32,
        via: crate::message::Via,
        endpoint: &crate::message::EndpointInner,
    ) -> (r: Result<Request, Error>)
        ensures
            match parties(*self) {
                Some((local, remote)) => r.is_ok() && {
                    let req = r.unwrap();
                    let plan = route_plan(self.route_set@, remote_target(*self));
                    &&& req.method == method
                    &&& req.uri == plan.0
                    &&& req.body@.len() == 0
                    &&& req.headers@ == in_dialog_headers(
                        seq![
                            Header::Via(via),
                            Header::CallId(self.id.call_id),
                            Header::From(local),
                            Header::To(remote),
                            Header::CSeq(CSeq { seq, method }),
                            Header::MaxForwards(70),
                            Header::UserAgent(endpoint.user_agent),
                        ],
                        self.local_contact,
                        plan.1,
                    )
                },
                None => r.is_err(),
            },
    {
        let (local, remote) = match self.parties() {
            Ok(p) => p,
            Err(e) => {
                return Err(e);
            },
        };
        let target = match &self.remote_contact {
            Some(c) => c.clone(),
            None => self.initial_request.uri.clone(),
        };
        let ghost routes = self.route_set@;
        let ghost plan = route_plan(routes, target);
        let strict = self.route_set.len() > 0 && !self.route_set[0].lr;
        let mut planned: Vec<crate::message::RouteEntry> = Vec::new();
        let uri;
        if strict {
            uri = self.route_set[0].uri.clone();
            let mut i: usize = 1;
            while i < self.route_set.len()
                invariant
                    1 <= i <= routes.len(),
                    routes == self.route_set@,
                    planned@ == routes.subrange(1, i as int),
                decreases routes.len() - i,
            {
                planned.push(self.route_set[i].copy());
                i = i + 1;
                proof {
                    assert(routes.subrange(1, i as int) == routes.subrange(1, i - 1).push(routes[i - 1]));
                }
            }
            planned.push(crate::message::RouteEntry { uri: target, lr: false });
            proof {
                assert(routes.skip(1) == routes.subrange(1, routes.len() as int));
            }
        } else {
            uri = target;
            let mut i: usize = 0;
            while i < self.route_set.len()
                invariant
                    i <= routes.len(),
                    routes == self.route_set@,
                    planned@ == routes.take(i as int),
                decreases routes.len() - i,
            {
                planned.push(self.route_set[i].copy());
                i = i + 1;
                proof {
                    assert(routes.take(i as int) == routes.take(i - 1).push(routes[i - 1]));
                }
            }
            proof {
                assert(routes.take(routes.len() as int) == routes);
            }
        }
        let mut req = endpoint.make_request(method, uri, via, local, remote, seq, self.id.call_id.clone());
        let ghost base = req.headers@;
        match &self.local_contact {
            Some(c) => {
                req.headers.push(Header::Contact(crate::message::Contact { uri: c.clone(), expires: None }));
            },
            None => {},
        }
        let ghost with_contact = req.headers@;
        let ghost u = req.uri;
        let ghost b = req.body@;
        let mut i: usize = 0;
        while i < planned.len()
            invariant
                i <= planned@.len(),
                req.uri == u,
                req.method == method,
                req.body@ == b,
                req.headers@ == with_contact + route_headers(planned@.take(i as int)),
            decreases planned@.len() - i,
        {
            req.headers.push(Header::Route(planned[i].copy()));
            i = i + 1;
            proof {
                assert(planned@.take(i as int) == planned@.take(i - 1).push(planned@[i - 1]));
                assert(planned@.take(i as int).drop_last() == planned@.take(i - 1));
            }
        }
        proof {
            assert(planned@.take(planned@.len() as int) == planned@);
        }
        Ok(req)
    }

    /// Builds a request of `method` inside the dialog with the next local CSeq:
    /// To is the remote party, From the local party, Route the route set
    /// (strict routing honoured), Contact the local contact.
    pub fn make_request(
        &mut self,
        method: Method,
        via: crate::message::Via,
        endpoint: &crate::message::EndpointInner,
    ) -> (r: Result<Request, Error>)
        requires
            old(self).local_seq < u32::MAX,
        ensures
            r.is_ok() == parties(*old(self)).is_some(),
            r.is_ok() ==> final(self).local_seq == old(self).local_seq + 1,
            r.is_err() ==> *final(self) == *old(self),
            r.is_ok() ==> {
                let req = r.unwrap();
                let (local, remote) = parties(*old(self)).unwrap();
                let plan = route_plan(old(self).route_set@, remote_target(*old(self)));
                &&& req.method == method
                &&& req.uri == plan.0
                &&& req.body@.len() == 0
                &&& req.headers@ == in_dialog_headers(
                    seq![
                        Header::Via(via),
                        Header::CallId(old(self).id.call_id),
                        Header::From(local),
                        Header::To(remote),
                        Header::CSeq(CSeq { seq: final(self).local_seq, method }),
                        Header::MaxForwards(70),
                        Header::UserAgent(endpoint.user_agent),
                    ],
                    old(self).local_contact,
                    plan.1,
                )
            },
            final(self).id == old(self).id,
            final(self).state == old(self).state,
            final(self).events == old(self).events,
            final(self).event_capacity == old(self).event_capacity,
            final(self).remote_seqs == old(self).remote_seqs,
    {
        let seq = self.local_seq + 1;
        match self.build_request(method, seq, via, endpoint) {
            Ok(req) => {
                self.local_seq = seq;
                Ok(req)
            },
            Err(e) => Err(e),
        }
    }

    /// Builds the ACK for a 2xx to the INVITE with CSeq number `seq`: an
    /// in-dialog request with that number, without advancing the local CSeq.
    pub fn make_ack(&self, seq: u32, via: crate::message::Via, endpoint: &crate::message::EndpointInner) -> (r: Result<Request, Error>)
        ensures
            r.is_ok() == parties(*self).is_some(),
            r.is_ok() ==> {
                let req = r.unwrap();
                let (local, remote) = parties(*self).unwrap();
                let plan = route_plan(self.route_set@, remote_target(*self));
                &&& req.method == Method::Ack
                &&& req.uri == plan.0
                &&& req.body@.len() == 0
                &&& req.headers@ == in_dialog_headers(
                    seq![
                        Header::Via(via),
                        Header::CallId(self.id.call_id),
                        Header::From(local),
                        Header::To(remote),
                        Header::CSeq(CSeq { seq, method: Method::Ack }),
                        Header::MaxForwards(70),
                        Header::UserAgent(endpoint.user_agent),
                    ],
                    self.local_contact,
                    plan.1,
                )
            },
    {
        self.build_request(Method::Ack, seq, via, endpoint)
    }
}

/// The CSeq number of a request, if it has a CSeq header.
pub open spec fn cseq_of(req: Request) -> Option<u32> {
    match first_of(req.headers@, HeaderKind::CSeq) {
        Some(Header::CSeq(c)) => Some(c.seq),
        _ => None,
    }
}

proof fn lemma_seq_monotone(trace: Seq<u32>, a: int, b: int)
    requires
        forall|n: int| 0 <= n < trace.len() - 1 ==> #[trigger] trace[n] <= trace[n + 1],
        0 <= a <= b < trace.len(),
    ensures
        trace[a] <= trace[b],
    decreases b - a,
{
    if a < b {
        lemma_seq_monotone(trace, a, b - 1);
        assert(trace[b - 1] <= trace[b]);
    }
}

/// The local CSeq strictly increases: `trace` holds a dialog's local CSeq
/// after each operation; no operation lowers it and each in-dialog request
/// raises it by one and carries the new value. Then a request built after
/// another carries a strictly larger CSeq number.
pub proof fn lemma_local_cseq_strictly_increases(trace: Seq<u32>, requests: Set<int>, a: int, b: int)
    requires
        forall|n: int| 0 <= n < trace.len() - 1 ==> #[trigger] trace[n] <= trace[n + 1],
        forall|n: int| #[trigger] requests.contains(n) ==> 0 <= n < trace.len() - 1 && trace[n + 1] == trace[n] + 1,
        requests.contains(a),
        requests.contains(b),
        a < b,
    ensures
        trace[a + 1] < trace[b + 1],
{
    lemma_seq_monotone(trace, a + 1, b);
}

/// How an INVITE transaction goes on after a response.
pub enum InviteProgress {
    /// Nothing for the user yet; keep receiving.
    Continue,
    /// An early dialog was formed or updated.
    Early,
    /// The dialog is confirmed; the ACK to send on a fresh transaction.
    Confirmed(Request),
    /// A digest challenge arrived and the dialog has a credential: retry with
    /// authorization under this new local CSeq number.
    Challenged(u32),
    /// The dialog is over.
    Failed(TerminatedReason),
    /// The dialog was already over; the response changes nothing.
    Ignored,
}

/// The To tag of a response, if it has one.
pub open spec fn to_tag_of(resp: Response) -> Option<String> {
    match first_of(resp.headers@, HeaderKind::To) {
        Some(Header::To(t)) => t.tag,
        _ => None,
    }
}

/// The Record-Route entries of a response, in reverse: the route set of a client dialog.
pub open spec fn reversed_record_route(s: Seq<Header>) -> Seq<crate::message::RouteEntry>
    decreases s.len(),
{
    if s.len() == 0 {
        Seq::empty()
    } else {
        match s[0] {
            Header::RecordRoute(e) => reversed_record_route(s.skip(1)).push(e),
            _ => reversed_record_route(s.skip(1)),
        }
    }
}

/// The URI of the first Contact of a response, if any.
pub open spec fn contact_of(s: Seq<Header>) -> Option<String> {
    match first_of(s, HeaderKind::Contact) {
        Some(Header::Contact(c)) => Some(c.uri),
        _ => None,
    }
}

/// The route set of a client dialog from the Record-Route headers of `headers`, reversed.
pub fn route_set_from(headers: &Vec<Header>) -> (r: Vec<crate::message::RouteEntry>)
    ensures
        r@ == reversed_record_route(headers@),
{
    let mut r: Vec<crate::message::RouteEntry> = Vec::new();
    let mut i: usize = headers.len();
    while i > 0
        invariant
            i <= headers@.len(),
            r@ == reversed_record_route(headers@.skip(i as int)),
        decreases i,
    {
        i = i - 1;
        proof {
            let s = headers@.skip(i as int);
            assert(s.skip(1) == headers@.skip(i + 1));
            assert(s[0] == headers@[i as int]);
        }
        match &headers[i] {
            Header::RecordRoute(e) => {
                r.push(e.copy());
            },
            _ => {},
        }
    }
    proof {
        assert(headers@.skip(0) == headers@);
    }
    r
}

/// A challenge with `code` is answered once with credentials: the dialog
/// has a credential, has not retried yet, and has room for one more CSeq.
pub open spec fn retry_allowed(d: DialogInner, code: u16, retried: bool) -> bool {
    (code == 401 || code == 407) && d.credential.is_some() && !retried && d.local_seq < u32::MAX
}

/// The client side of an INVITE dialog.
pub struct ClientInviteDialog {
    pub inner: DialogInner,
}

impl ClientInviteDialog {
    pub fn id(&self) -> (r: DialogId)
        ensures
            r == self.inner.id,
    {
        self.inner.id()
    }

    /// Applies one response of the INVITE transaction to the dialog. `retried`
    /// tells whether the INVITE already carried credentials; `via` is the Via
    /// of the ACK to build on a 2xx.
    pub fn on_invite_response(
        &mut self,
        resp: Response,
        retried: bool,
        via: crate::message::Via,
        endpoint: &crate::message::EndpointInner,
    ) -> (r: InviteProgress)
        requires
            old(self).inner.wf(),
        ensures
            final(self).inner.wf(),
            !(r is Challenged) ==> final(self).inner.local_seq == old(self).inner.local_seq,
            old(self).inner.state.is_terminated_spec() ==> r is Ignored && *final(self) == *old(self),
            !old(self).inner.state.is_terminated_spec() ==> {
                let code = resp.status_code;
                &&& code < 200 && (code == 100 || to_tag_of(resp).is_none()) ==> r is Continue && *final(self) == *old(self)
                &&& (100 < code < 200 && to_tag_of(resp).is_some()) ==> (r is Early && (old(self).inner.id.to_tag@.len() == 0
                    ==> final(self).inner.id.to_tag == to_tag_of(resp).unwrap()) && final(self).inner.state is Early)
                &&& (200 <= code < 300) ==> (final(self).inner.state is Confirmed
                    && final(self).inner.route_set@ == reversed_record_route(resp.headers@)
                    && (contact_of(resp.headers@).is_some() ==> final(self).inner.remote_contact == contact_of(resp.headers@))
                    && (to_tag_of(resp).is_some() && old(self).inner.id.to_tag@.len() == 0
                        ==> final(self).inner.id.to_tag == to_tag_of(resp).unwrap())
                    && (r is Confirmed || r is Failed))
                &&& (r is Confirmed ==> r->Confirmed_0.method == Method::Ack
                    && cseq_of(r->Confirmed_0) == Some(old(self).inner.local_seq))
                &&& retry_allowed(old(self).inner, code, retried) ==> r == InviteProgress::Challenged(
                    final(self).inner.local_seq,
                ) && final(self).inner.local_seq == old(self).inner.local_seq + 1 && final(self).inner.state
                    == old(self).inner.state && final(self).inner.id == old(self).inner.id
                    && final(self).inner.credential == old(self).inner.credential
                    && final(self).inner.initial_request == old(self).inner.initial_request
                &&& (code >= 300 && !retry_allowed(old(self).inner, code, retried)) ==> (
                    r == InviteProgress::Failed(reason_for_code(code)) && final(self).inner.state
                    == DialogState::Terminated(final(self).inner.id, reason_for_code(code)))
            },
    {
        if self.inner.is_terminated() {
            return InviteProgress::Ignored;
        }
        let code = resp.status_code;
        let tag: Option<String> = match position_of(&resp.headers, HeaderKind::To) {
            Some(i) => match &resp.headers[i] {
                Header::To(t) => crate::message::copy_opt_string(&t.tag),
                _ => None,
            },
            None => None,
        };
        if code < 200 {
            if code == 100 {
                return InviteProgress::Continue;
            }
            match tag {
                Some(t) => {
                    self.inner.update_remote_tag(&t);
                    let id = self.inner.id();
                    let _ = self.inner.transition(DialogState::Early(id, resp));
                    return InviteProgress::Early;
                },
                None => {
                    return InviteProgress::Continue;
                },
            }
        }
        if code < 300 {
            match &tag {
                Some(t) => {
                    self.inner.update_remote_tag(t);
                },
                None => {},
            }
            self.inner.route_set = route_set_from(&resp.headers);
            match position_of(&resp.headers, HeaderKind::Contact) {
                Some(i) => match &resp.headers[i] {
                    Header::Contact(c) => {
                        self.inner.remote_contact = Some(c.uri.clone());
                    },
                    _ => {},
                },
                None => {},
            }
            let id = self.inner.id();
            let _ = self.inner.transition(DialogState::Confirmed(id));
            let seq = self.inner.local_seq;
            return match self.inner.make_ack(seq, via, endpoint) {
                Ok(ack) => {
                    proof {
                        crate::message::lemma_first_in_prefix(ack.headers@, 4, HeaderKind::CSeq);
                    }
                    InviteProgress::Confirmed(ack)
                },
                Err(e) => InviteProgress::Failed(TerminatedReason::Error(e)),
            };
        }
        if (code == 401 || code == 407) && self.inner.credential.is_some() && !retried && self.inner.local_seq
            < u32::MAX {
            let seq = self.inner.increment_local_seq();
            return InviteProgress::Challenged(seq);
        }
        let reason = terminated_reason_for(code);
        let id = self.inner.id();
        let _ = self.inner.transition(DialogState::Terminated(id, reason));
        InviteProgress::Failed(reason)
    }
}

/// The reason a server dialog ends when it answers with final failure `code`.
pub open spec fn server_reason_for_code(code: u16) -> TerminatedReason {
    if code == 486 || code == 600 {
        TerminatedReason::UasBusy
    } else if code == 487 {
        TerminatedReason::UacCancel
    } else {
        TerminatedReason::UasOther(code)
    }
}

/// The server side of an INVITE dialog.
pub struct ServerInviteDialog {
    pub inner: DialogInner,
}

impl ServerInviteDialog {
    pub fn id(&self) -> (r: DialogId)
        ensures
            r == self.inner.id,
    {
        self.inner.id()
    }

    /// Records a response the user sent to the INVITE: a 1xx with a To tag
    /// makes the dialog early, a 2xx waits for the ACK, a failure ends it.
    pub fn on_response_sent(&mut self, resp: Response) -> (r: Result<(), Error>)
        requires
            old(self).inner.wf(),
        ensures
            final(self).inner.wf(),
            final(self).inner.local_seq == old(self).inner.local_seq,
            old(self).inner.state.is_terminated_spec() ==> r.is_err() && *final(self) == *old(self),
            !old(self).inner.state.is_terminated_spec() ==> {
                let code = resp.status_code;
                &&& r.is_ok()
                &&& code < 200 && (code == 100 || to_tag_of(resp).is_none()) ==> *final(self) == *old(self)
                &&& (100 < code < 200 && to_tag_of(resp).is_some()) ==> final(self).inner.state is Early
                &&& (200 <= code < 300) ==> final(self).inner.state is WaitAck
                &&& code >= 300 ==> final(self).inner.state == DialogState::Terminated(
                    final(self).inner.id,
                    server_reason_for_code(code),
                )
            },
    {
        if self.inner.is_terminated() {
            return Err(Error::DialogError(DialogErrorKind::AlreadyTerminated));
        }
        let code = resp.status_code;
        let has_tag = match position_of(&resp.headers, HeaderKind::To) {
            Some(i) => match &resp.headers[i] {
                Header::To(t) => t.tag.is_some(),
                _ => false,
            },
            None => false,
        };
        let id = self.inner.id();
        if code < 200 {
            if code == 100 || !has_tag {
                return Ok(());
            }
            self.inner.transition(DialogState::Early(id, resp))
        } else if code < 300 {
            self.inner.transition(DialogState::WaitAck(id, resp))
        } else {
            let reason = if code == 486 || code == 600 {
                TerminatedReason::UasBusy
            } else if code == 487 {
                TerminatedReason::UacCancel
            } else {
                TerminatedReason::UasOther(code)
            };
            self.inner.transition(DialogState::Terminated(id, reason))
        }
    }

    /// The ACK for the 2xx arrived: a dialog waiting for it is confirmed.
    pub fn on_ack(&mut self) -> (r: Result<(), Error>)
        requires
            old(self).inner.wf(),
        ensures
            final(self).inner.wf(),
            old(self).inner.state is WaitAck ==> r.is_ok() && final(self).inner.state == DialogState::Confirmed(
                old(self).inner.id,
            ),
            !(old(self).inner.state is WaitAck) ==> r.is_err() && *final(self) == *old(self),
    {
        match self.inner.state {
            DialogState::WaitAck(_, _) => {
                let id = self.inner.id();
                self.inner.transition(DialogState::Confirmed(id))
            },
            _ => Err(Error::DialogError(DialogErrorKind::NotFound)),
        }
    }

    /// Accepts a request from the peer inside the dialog only if its CSeq is
    /// above the last one seen for its method; a BYE ends the dialog.
    pub fn on_request(&mut self, req: &Request) -> (r: Result<(), Error>)
        requires
            old(self).inner.wf(),
        ensures
            final(self).inner.wf(),
            first_of(req.headers@, HeaderKind::CSeq).is_none() ==> r == Err::<(), Error>(
                Error::ProtocolError(MissingHeader::CSeq)),
            r.is_ok() ==> match first_of(req.headers@, HeaderKind::CSeq) {
                Some(Header::CSeq(c)) => last_remote_seq(final(self).inner.remote_seqs@, c.method) == Some(c.seq),
                _ => false,
            },
            r.is_ok() && req.method == Method::Bye ==> final(self).inner.state == DialogState::Terminated(
                final(self).inner.id,
                TerminatedReason::UacBye,
            ),
            r.is_ok() && req.method != Method::Bye ==> final(self).inner.state == old(self).inner.state,
            match first_of(req.headers@, HeaderKind::CSeq) {
                Some(Header::CSeq(c)) => {
                    let fresh = match last_remote_seq(old(self).inner.remote_seqs@, c.method) {
                        Some(last) => last < c.seq,
                        None => true,
                    };
                    &&& r.is_ok() <==> (fresh && (req.method == Method::Bye ==> !old(self).inner.state.is_terminated_spec()))
                    &&& !fresh ==> r == Err::<(), Error>(Error::DialogError(DialogErrorKind::CSeqOutOfOrder))
                    &&& fresh && req.method == Method::Bye && old(self).inner.state.is_terminated_spec() ==> r
                        == Err::<(), Error>(Error::DialogError(DialogErrorKind::AlreadyTerminated))
                },
                _ => true,
            },
    {
        let cseq = match position_of(&req.headers, HeaderKind::CSeq) {
            Some(i) => match &req.headers[i] {
                Header::CSeq(c) => *c,
                _ => {
                    return Err(Error::ProtocolError(MissingHeader::CSeq));
                },
            },
            None => {
                return Err(Error::ProtocolError(MissingHeader::CSeq));
            },
        };
        match self.inner.check_remote_seq(cseq) {
            Ok(_) => {},
            Err(e) => {
                return Err(e);
            },
        }
        if req.method == Method::Bye {
            let id = self.inner.id();
            let r = self.inner.transition(DialogState::Terminated(id, TerminatedReason::UacBye));
            return r;
        }
        Ok(())
    }
}

pub proof fn lemma_same_state_refl(s: DialogState)
    ensures
        same_state(s, s),
{
}

proof fn lemma_terminated_stays(trace: Seq<DialogInner>, attempts: Seq<DialogState>, oks: Seq<bool>, i: int, j: int)
    requires
        trace.len() == attempts.len() + 1,
        oks.len() == attempts.len(),
        forall|n: int| 0 <= n < attempts.len() ==> transition_post(#[trigger] trace[n], trace[n + 1], attempts[n], oks[n]),
        0 <= i <= j < trace.len(),
        trace[i].state_spec().is_terminated_spec(),
    ensures
        trace[j] == trace[i],
    decreases j - i,
{
    if j > i {
        lemma_terminated_stays(trace, attempts, oks, i, j - 1);
        assert(transition_post(trace[j - 1], trace[j], attempts[j - 1], oks[j - 1]));
    }
}

/// Once a dialog is Terminated, every later transition attempt fails and
/// neither its state nor its broadcast log changes.
pub proof fn lemma_terminated_is_absorbing(trace: Seq<DialogInner>, attempts: Seq<DialogState>, oks: Seq<bool>, i: int)
    requires
        trace.len() == attempts.len() + 1,
        oks.len() == attempts.len(),
        forall|n: int| 0 <= n < attempts.len() ==> transition_post(#[trigger] trace[n], trace[n + 1], attempts[n], oks[n]),
        0 <= i < trace.len(),
        trace[i].state_spec().is_terminated_spec(),
    ensures
        forall|j: int| i <= j < trace.len() ==> #[trigger] trace[j] == trace[i],
        forall|n: int| i <= n < attempts.len() ==> !#[trigger] oks[n],
{
    assert forall|j: int| i <= j < trace.len() implies #[trigger] trace[j] == trace[i] by {
        lemma_terminated_stays(trace, attempts, oks, i, j);
    }
    assert forall|n: int| i <= n < attempts.len() implies !#[trigger] oks[n] by {
        lemma_terminated_stays(trace, attempts, oks, i, n);
        assert(transition_post(trace[n], trace[n + 1], attempts[n], oks[n]));
    }
}

} // verus!
