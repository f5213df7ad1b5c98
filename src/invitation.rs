//! The dialog layer: the table of dialogs, and the INVITE that opens a client dialog.
use vstd::prelude::*;
use crate::dialog::{ClientInviteDialog, Credential, DialogId, DialogInner, DialogState};
use crate::error::Error;
use crate::message::{
    copy_string, first_of, unique_push, unique_pushed, unique_pushed_all, Contact, EndpointInner, Header,
    HeaderKind, Method, NameAddr, Request, Via, CSeq,
};
use crate::transaction::{Transaction, TransactionKey, TransactionRole, TransactionState, TransactionType};

verus! {

/// What an outgoing call needs.
pub struct InviteOption {
    pub caller: String,
    pub callee: String,
    pub destination: Option<String>,
    pub content_type: Option<String>,
    pub offer: Option<Vec<u8>>,
    pub contact: String,
    pub credential: Option<Credential>,
    pub headers: Option<Vec<Header>>,
}

/// No two dialogs of the table share an identifier.
pub open spec fn ids_distinct(s: Seq<DialogInner>) -> bool {
    forall|i: int, j: int| 0 <= i < s.len() && 0 <= j < s.len() && i != j ==> #[trigger] s[i].id@ != #[trigger] s[j].id@
}

/// The table holds a dialog with identifier `id`.
pub open spec fn holds(s: Seq<DialogInner>, id: (Seq<char>, Seq<char>, Seq<char>)) -> bool {
    exists|i: int| 0 <= i < s.len() && #[trigger] s[i].id@ == id
}

/// The dialogs of an endpoint, and the CSeq counter of the requests that open them.
pub struct DialogLayer {
    pub endpoint: EndpointInner,
    pub last_seq: u32,
    pub dialogs: Vec<DialogInner>,
}

impl DialogLayer {
    pub open spec fn wf(&self) -> bool {
        ids_distinct(self.dialogs@)
    }

    pub fn new(endpoint: EndpointInner) -> (r: DialogLayer)
        ensures
            r.wf(),
            r.last_seq == 0,
            r.dialogs@.len() == 0,
            r.endpoint == endpoint,
    {
        DialogLayer { endpoint, last_seq: 0, dialogs: Vec::new() }
    }

    /// Advances the CSeq counter of initial requests and returns the new value.
    pub fn increment_last_seq(&mut self) -> (r: u32)
        requires
            old(self).last_seq < u32::MAX,
        ensures
            r == old(self).last_seq + 1,
            final(self).last_seq == r,
            final(self).dialogs == old(self).dialogs,
            final(self).endpoint == old(self).endpoint,
    {
        self.last_seq = self.last_seq + 1;
        self.last_seq
    }

    pub fn len(&self) -> (r: usize)
        ensures
            r == self.dialogs@.len(),
    {
        self.dialogs.len()
    }

    /// Index of the dialog with identifier `id`.
    pub fn find(&self, id: &DialogId) -> (r: Option<usize>)
        ensures
            match r {
                Some(i) => i < self.dialogs@.len() && self.dialogs@[i as int].id@ == id@,
                None => !holds(self.dialogs@, id@),
            },
    {
        let mut i: usize = 0;
        while i < self.dialogs.len()
            invariant
                i <= self.dialogs@.len(),
                forall|j: int| 0 <= j < i ==> #[trigger] self.dialogs@[j].id@ != id@,
            decreases self.dialogs@.len() - i,
        {
            if self.dialogs[i].id.same(id) {
                return Some(i);
            }
            i = i + 1;
        }
        None
    }

    /// Takes the dialog with identifier `id` out of the table.
    pub fn remove_dialog(&mut self, id: &DialogId) -> (r: Option<DialogInner>)
        requires
            old(self).wf(),
        ensures
            final(self).wf(),
            final(self).last_seq == old(self).last_seq,
            !holds(final(self).dialogs@, id@),
            match r {
                Some(d) => d.id@ == id@ && exists|i: int| 0 <= i < old(self).dialogs@.len() && old(self).dialogs@[i] == d
                    && final(self).dialogs@ == old(self).dialogs@.remove(i),
                None => !holds(old(self).dialogs@, id@) && final(self).dialogs@ == old(self).dialogs@,
            },
    {
        match self.find(id) {
            Some(i) => {
                let ghost before = self.dialogs@;
                let d = self.dialogs.remove(i);
                proof {
                    let after = self.dialogs@;
                    assert forall|a: int, b: int| 0 <= a < after.len() && 0 <= b < after.len() && a != b implies #[trigger] after[a].id@
                        != #[trigger] after[b].id@ by {
                        let ba = if a < i { a } else { a + 1 };
                        let bb = if b < i { b } else { b + 1 };
                        assert(before[ba].id@ != before[bb].id@);
                    }
                    if holds(after, id@) {
                        let k = choose|k: int| 0 <= k < after.len() && #[trigger] after[k].id@ == id@;
                        let bk = if k < i { k } else { k + 1 };
                        assert(before[bk].id@ != before[i as int].id@);
                    }
                }
                Some(d)
            },
            None => None,
        }
    }

    /// Puts `dialog` in the table under its identifier, in place of any dialog
    /// that had it.
    pub fn insert_dialog(&mut self, dialog: DialogInner)
        requires
            old(self).wf(),
        ensures
            final(self).wf(),
            final(self).last_seq == old(self).last_seq,
            final(self).dialogs@.last() == dialog,
            final(self).dialogs@.drop_last() == old(self).dialogs@.filter(|d: DialogInner| d.id@ != dialog.id@),
    {
        let ghost f = |d: DialogInner| d.id@ != dialog.id@;
        let removed = self.remove_dialog(&dialog.id);
        proof {
            let s = old(self).dialogs@;
            match removed {
                Some(d) => {
                    let i = choose|i: int| 0 <= i < s.len() && s[i] == d && self.dialogs@ == s.remove(i);
                    lemma_filter_removes_only(s, i, dialog);
                },
                None => {
                    lemma_filter_keeps_all(s, dialog);
                },
            }
        }
        let ghost before = self.dialogs@;
        self.dialogs.push(dialog);
        proof {
            let after = self.dialogs@;
            assert(after.drop_last() == before);
            assert forall|a: int, b: int| 0 <= a < after.len() && 0 <= b < after.len() && a != b implies #[trigger] after[a].id@
                != #[trigger] after[b].id@ by {
                if a < before.len() && b < before.len() {
                    assert(before[a].id@ != before[b].id@);
                } else if a == before.len() {
                    assert(!holds(before, dialog.id@));
                    assert(after[b] == before[b]);
                } else {
                    assert(!holds(before, dialog.id@));
                    assert(after[a] == before[a]);
                }
            }
        }
    }

    /// Records a confirmed client dialog under its identifier.
    pub fn confirm_client_dialog(&mut self, dialog: ClientInviteDialog)
        requires
            old(self).wf(),
        ensures
            final(self).wf(),
            final(self).last_seq == old(self).last_seq,
            final(self).dialogs@.last() == dialog.inner,
            final(self).dialogs@.drop_last() == old(self).dialogs@.filter(|d: DialogInner| d.id@ != dialog.inner.id@),
    {
        self.insert_dialog(dialog.inner);
    }

    /// Builds an INVITE from `opt` with the next CSeq of the layer: From is the
    /// caller with tag `from_tag`, To the callee without tag, the Request-URI the
    /// callee; then Contact, Content-Type (application/sdp unless given) and the
    /// extra headers of `opt`, each replacing any header of its kind.
    pub fn make_invite_request(&mut self, opt: &InviteOption, via: Via, from_tag: String, call_id: &str) -> (r: Request)
        requires
            old(self).last_seq < u32::MAX,
        ensures
            final(self).last_seq == old(self).last_seq + 1,
            final(self).dialogs == old(self).dialogs,
            final(self).endpoint == old(self).endpoint,
            r.method == Method::Invite,
            r.uri == opt.callee,
            r.body@.len() == 0,
            exists|ct: String, cid: String| {
                &&& cid@ == crate::message::call_id_of(call_id@, old(self).endpoint.option.callid_suffix)
                &&& ct@ == match opt.content_type {
                    Some(c) => c@,
                    None => "application/sdp"@,
                }
                &&& r.headers@ == unique_pushed_all(
                    unique_pushed(
                        unique_pushed(
                            seq![
                                Header::Via(via),
                                Header::CallId(cid),
                                Header::From(NameAddr { display_name: None, uri: opt.caller, tag: Some(from_tag) }),
                                Header::To(NameAddr { display_name: None, uri: opt.callee, tag: None }),
                                Header::CSeq(CSeq { seq: final(self).last_seq, method: Method::Invite }),
                                Header::MaxForwards(70),
                                Header::UserAgent(old(self).endpoint.user_agent),
                            ],
                            Header::Contact(Contact { uri: opt.contact, expires: None }),
                        ),
                        Header::ContentType(ct),
                    ),
                    match opt.headers {
                        Some(h) => h@,
                        None => Seq::<Header>::empty(),
                    },
                )
            },
    {
        let seq = self.increment_last_seq();
        let to = NameAddr { display_name: None, uri: copy_string(&opt.callee), tag: None };
        let from = NameAddr { display_name: None, uri: copy_string(&opt.caller), tag: Some(from_tag) };
        let cid = self.endpoint.make_call_id(call_id);
        let ghost cid_spec = cid;
        let mut request = self.endpoint.make_request(Method::Invite, copy_string(&opt.callee), via, from, to, seq, cid);
        unique_push(&mut request.headers, Header::Contact(Contact { uri: copy_string(&opt.contact), expires: None }));
        let ct = match &opt.content_type {
            Some(c) => copy_string(c),
            None => {
                proof {
                    reveal_strlit("application/sdp");
                }
                "application/sdp".to_string()
            },
        };
        let ghost ct_spec = ct;
        unique_push(&mut request.headers, Header::ContentType(ct));
        let ghost start = request.headers@;
        proof {
            assert(start == unique_pushed(
                unique_pushed(
                    seq![
                        Header::Via(via),
                        Header::CallId(cid_spec),
                        Header::From(NameAddr { display_name: None, uri: opt.caller, tag: Some(from_tag) }),
                        Header::To(NameAddr { display_name: None, uri: opt.callee, tag: None }),
                        Header::CSeq(CSeq { seq: self.last_seq, method: Method::Invite }),
                        Header::MaxForwards(70),
                        Header::UserAgent(old(self).endpoint.user_agent),
                    ],
                    Header::Contact(Contact { uri: opt.contact, expires: None }),
                ),
                Header::ContentType(ct_spec),
            ));
        }
        match &opt.headers {
            Some(headers) => {
                let mut i: usize = 0;
                while i < headers.len()
                    invariant
                        i <= headers@.len(),
                        request.method == Method::Invite,
                        request.uri == opt.callee,
                        request.body@.len() == 0,
                        request.headers@ == unique_pushed_all(start, headers@.take(i as int)),
                    decreases headers@.len() - i,
                {
                    unique_push(&mut request.headers, headers[i].copy());
                    i = i + 1;
                    proof {
                        assert(headers@.take(i as int).drop_last() == headers@.take(i - 1));
                    }
                }
                proof {
                    assert(headers@.take(headers@.len() as int) == headers@);
                }
            },
            None => {
                proof {
                    assert(unique_pushed_all(start, Seq::<Header>::empty()) == start);
                }
            },
        }
        proof {
            assert(cid_spec@ == crate::message::call_id_of(call_id@, old(self).endpoint.option.callid_suffix));
            assert(ct_spec@ == match opt.content_type {
                Some(c) => c@,
                None => "application/sdp"@,
            });
        }
        request
    }

    /// Builds the INVITE of `opt` with its offer as body and Content-Length,
    /// the client dialog it opens (state Calling, local CSeq that of the
    /// INVITE) and the client INVITE transaction that carries it.
    pub fn create_client_invite_dialog(
        &mut self,
        opt: InviteOption,
        via: Via,
        from_tag: String,
        call_id: &str,
        event_capacity: usize,
    ) -> (r: Result<(ClientInviteDialog, Transaction), Error>)
        requires
            old(self).last_seq < u32::MAX,
        ensures
            final(self).last_seq == old(self).last_seq + 1,
            final(self).dialogs == old(self).dialogs,
            opt.headers.is_none() ==> r.is_ok(),
            r.is_ok() ==> {
                let (dialog, tx) = r.unwrap();
                &&& dialog.inner.wf()
                &&& dialog.inner.role == TransactionRole::Client
                &&& dialog.inner.state == DialogState::Calling(dialog.inner.id)
                &&& dialog.inner.events@.len() == 0
                &&& dialog.inner.credential == opt.credential
                &&& dialog.inner.local_contact == Some(opt.contact)
                &&& tx.transaction_type == TransactionType::ClientInvite
                &&& tx.state == TransactionState::Calling
                &&& tx.connection.is_none()
                &&& crate::transaction::same_request(tx.original, dialog.inner.initial_request)
                &&& tx.original.method == Method::Invite
                &&& tx.original.body@ == match opt.offer {
                    Some(b) => b@,
                    None => Seq::<u8>::empty(),
                }
                &&& tx.destination == opt.destination
                &&& first_of(tx.original.headers@, HeaderKind::ContentLength) == Some(
                    Header::ContentLength(tx.original.body@.len() as u32),
                )
                &&& match (
                    first_of(tx.original.headers@, HeaderKind::CallId),
                    first_of(tx.original.headers@, HeaderKind::From),
                    first_of(tx.original.headers@, HeaderKind::To),
                ) {
                    (Some(Header::CallId(c)), Some(Header::From(f)), Some(Header::To(t))) => f.tag.is_some()
                        && dialog.inner.id@ == (c@, f.tag.unwrap()@, match t.tag {
                        Some(tt) => tt@,
                        None => Seq::<char>::empty(),
                    }),
                    _ => false,
                }
            },
            r.is_ok() && opt.headers.is_none() ==> {
                let (dialog, tx) = r.unwrap();
                &&& dialog.inner.local_seq == final(self).last_seq
                &&& dialog.inner.id.from_tag@ == from_tag@
                &&& dialog.inner.id.to_tag@.len() == 0
            },
    {
        let ghost tag = from_tag;
        let mut request = self.make_invite_request(&opt, via, from_tag, call_id);
        let ghost r0 = request.headers@;
        let body = match opt.offer {
            Some(b) => b,
            None => Vec::new(),
        };
        request.body = body;
        let len = request.body.len() as u32;
        let ghost before_len = request.headers@;
        unique_push(&mut request.headers, Header::ContentLength(len));
        proof {
            crate::message::lemma_unique_push_only(before_len, Header::ContentLength(len));
        }
        proof {
            if opt.headers.is_none() {
                let ct = choose|ct: String, cid: String| {
                    &&& cid@ == crate::message::call_id_of(call_id@, old(self).endpoint.option.callid_suffix)
                    &&& ct@ == match opt.content_type {
                        Some(c) => c@,
                        None => "application/sdp"@,
                    }
                    &&& r0 == unique_pushed_all(
                        unique_pushed(
                            unique_pushed(
                                seq![
                                    Header::Via(via),
                                    Header::CallId(cid),
                                    Header::From(NameAddr { display_name: None, uri: opt.caller, tag: Some(tag) }),
                                    Header::To(NameAddr { display_name: None, uri: opt.callee, tag: None }),
                                    Header::CSeq(CSeq { seq: self.last_seq, method: Method::Invite }),
                                    Header::MaxForwards(70),
                                    Header::UserAgent(old(self).endpoint.user_agent),
                                ],
                                Header::Contact(Contact { uri: opt.contact, expires: None }),
                            ),
                            Header::ContentType(ct),
                        ),
                        Seq::<Header>::empty(),
                    )
                };
                let (ct, cid) = ct;
                let base = seq![
                    Header::Via(via),
                    Header::CallId(cid),
                    Header::From(NameAddr { display_name: None, uri: opt.caller, tag: Some(tag) }),
                    Header::To(NameAddr { display_name: None, uri: opt.callee, tag: None }),
                    Header::CSeq(CSeq { seq: self.last_seq, method: Method::Invite }),
                    Header::MaxForwards(70),
                    Header::UserAgent(old(self).endpoint.user_agent),
                ];
                let h1 = Header::Contact(Contact { uri: opt.contact, expires: None });
                let h2 = Header::ContentType(ct);
                let h3 = Header::ContentLength(len);
                let s1 = unique_pushed(base, h1);
                let s2 = unique_pushed(s1, h2);
                assert(r0 == s2);
                assert(request.headers@ == unique_pushed(s2, h3));
                crate::message::lemma_first_in_prefix(base, 0, HeaderKind::Via);
                crate::message::lemma_first_in_prefix(base, 1, HeaderKind::CallId);
                crate::message::lemma_first_in_prefix(base, 2, HeaderKind::From);
                crate::message::lemma_first_in_prefix(base, 3, HeaderKind::To);
                crate::message::lemma_first_in_prefix(base, 4, HeaderKind::CSeq);
                let ks = seq![HeaderKind::Via, HeaderKind::CallId, HeaderKind::From, HeaderKind::To, HeaderKind::CSeq];
                assert forall|j: int| 0 <= j < 5 implies first_of(request.headers@, #[trigger] ks[j]) == first_of(base, ks[j]) by {
                    crate::message::lemma_unique_push_keeps_other(base, h1, ks[j]);
                    crate::message::lemma_unique_push_keeps_other(s1, h2, ks[j]);
                    crate::message::lemma_unique_push_keeps_other(s2, h3, ks[j]);
                }
                assert(first_of(request.headers@, ks[0]) == first_of(base, ks[0]));
                assert(first_of(request.headers@, ks[1]) == first_of(base, ks[1]));
                assert(first_of(request.headers@, ks[2]) == first_of(base, ks[2]));
                assert(first_of(request.headers@, ks[3]) == first_of(base, ks[3]));
                assert(first_of(request.headers@, ks[4]) == first_of(base, ks[4]));
            }
        }
        let id = match DialogId::from_request(&request) {
            Ok(id) => id,
            Err(e) => {
                return Err(e);
            },
        };
        let key = match TransactionKey::from_request(&request, TransactionRole::Client) {
            Ok(k) => k,
            Err(e) => {
                return Err(e);
            },
        };
        let credential = match &opt.credential {
            Some(c) => Some(c.copy()),
            None => None,
        };
        let inner = match DialogInner::new(
            TransactionRole::Client,
            id,
            request.copy(),
            credential,
            Some(copy_string(&opt.contact)),
            event_capacity,
        ) {
            Ok(d) => d,
            Err(e) => {
                return Err(e);
            },
        };
        let mut tx = Transaction::new_client(key, request, None);
        tx.destination = opt.destination;
        Ok((ClientInviteDialog { inner }, tx))
    }
}

proof fn lemma_filter_keeps_all(s: Seq<DialogInner>, dialog: DialogInner)
    requires
        !holds(s, dialog.id@),
    ensures
        s.filter(|d: DialogInner| d.id@ != dialog.id@) == s,
    decreases s.len(),
{
    let f = |d: DialogInner| d.id@ != dialog.id@;
    if s.len() == 0 {
        reveal(Seq::filter);
    } else {
        let t = s.drop_last();
        assert(!holds(t, dialog.id@)) by {
            if holds(t, dialog.id@) {
                let k = choose|k: int| 0 <= k < t.len() && #[trigger] t[k].id@ == dialog.id@;
                assert(s[k] == t[k]);
            }
        }
        lemma_filter_keeps_all(t, dialog);
        assert(s == t.push(s.last()));
        t.lemma_filter_push(s.last(), f);
        assert(s[s.len() - 1].id@ != dialog.id@);
    }
}

proof fn lemma_filter_removes_only(s: Seq<DialogInner>, i: int, dialog: DialogInner)
    requires
        0 <= i < s.len(),
        s[i].id@ == dialog.id@,
        ids_distinct(s),
    ensures
        s.filter(|d: DialogInner| d.id@ != dialog.id@) == s.remove(i),
    decreases s.len(),
{
    let f = |d: DialogInner| d.id@ != dialog.id@;
    let t = s.drop_last();
    assert(s == t.push(s.last()));
    t.lemma_filter_push(s.last(), f);
    if i == s.len() - 1 {
        assert(!holds(t, dialog.id@)) by {
            if holds(t, dialog.id@) {
                let k = choose|k: int| 0 <= k < t.len() && #[trigger] t[k].id@ == dialog.id@;
                assert(s[k].id@ != s[i].id@);
            }
        }
        lemma_filter_keeps_all(t, dialog);
        assert(s.remove(i) == t);
    } else {
        assert forall|a: int, b: int| 0 <= a < t.len() && 0 <= b < t.len() && a != b implies #[trigger] t[a].id@
            != #[trigger] t[b].id@ by {
            assert(s[a].id@ != s[b].id@);
        }
        lemma_filter_removes_only(t, i, dialog);
        assert(s.last().id@ != dialog.id@) by {
            assert(s[s.len() - 1].id@ != s[i].id@);
        }
        assert(s.remove(i) == t.remove(i).push(s.last()));
    }
}

} // verus!
