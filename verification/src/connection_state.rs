//! The connection driver's decision core. One driver owns one stream: it
//! serializes outbound envelopes, correlates inbound replies with waiting
//! slots, routes server events, and on shutdown settles every slot exactly
//! once. The embedding program performs the socket operations and feeds the
//! outcomes back in.

use vstd::prelude::*;

use crate::error::Error;
use crate::json::{parse_json, ser_json};
use crate::message::{
    spec_create_game_session, spec_refresh_connection, spec_terminate_process,
    spec_update_game_session, CreateGameSessionMessage, RefreshConnectionMessage,
    TerminateProcessMessage, UpdateGameSessionMessage,
};
use crate::protocol::{envelope_obj, spec_decode_response, RequestMessage, ResponceMessage};

verus! {

/// A waiting caller's one-shot reply slot, named by the multiplexer.
pub type SlotId = u64;

/// A decoded server-initiated event, as handed to the dispatcher.
pub enum ServerEventInner {
    OnStartGameSession(CreateGameSessionMessage),
    OnUpdateGameSession(UpdateGameSessionMessage),
    OnTerminateProcess(TerminateProcessMessage),
    OnRefreshConnection(RefreshConnectionMessage),
    OnHealthCheck,
}

/// What the embedding program must do after a driver step.
pub enum DriverAction {
    /// Wake this waiter with a reply.
    Reply(SlotId, ResponceMessage),
    /// Wake this waiter with a failure.
    Fail(SlotId, Error),
    /// Offer this event to the dispatcher's queue.
    PushEvent(ServerEventInner),
}

/// In-flight requests: correlation id and reply slot, ids unique.
pub open spec fn pending_view(s: Seq<(String, SlotId)>) -> Seq<(Seq<char>, SlotId)>
    decreases s,
{
    if s.len() == 0 {
        Seq::empty()
    } else {
        seq![(s[0].0@, s[0].1)] + pending_view(s.drop_first())
    }
}

pub proof fn lemma_pending_view(s: Seq<(String, SlotId)>)
    ensures
        pending_view(s).len() == s.len(),
        forall|i: int|
            0 <= i < s.len() ==> pending_view(s)[i] == ((#[trigger] s[i]).0@, s[i].1),
    decreases s,
{
    if s.len() > 0 {
        lemma_pending_view(s.drop_first());
        assert forall|i: int| 0 <= i < s.len() implies pending_view(s)[i] == ((#[trigger] s[i]).0@,
        s[i].1) by {
            if i > 0 {
                assert(pending_view(s)[i] == pending_view(s.drop_first())[i - 1]);
                assert(s.drop_first()[i - 1] == s[i]);
            }
        }
    }
}

/// No two in-flight requests share a correlation id.
pub open spec fn pending_unique(p: Seq<(Seq<char>, SlotId)>) -> bool {
    forall|i: int, j: int| 0 <= i < j < p.len() ==> (#[trigger] p[i]).0 != (#[trigger] p[j]).0
}

/// The first slot waiting on an id, if any.
pub open spec fn pending_lookup(p: Seq<(Seq<char>, SlotId)>, id: Seq<char>) -> Option<SlotId>
    decreases p.len(),
{
    if p.len() == 0 {
        None
    } else if p[0].0 == id {
        Some(p[0].1)
    } else {
        pending_lookup(p.drop_first(), id)
    }
}

/// The map without any entry for the id.
pub open spec fn pending_remove(p: Seq<(Seq<char>, SlotId)>, id: Seq<char>) -> Seq<
    (Seq<char>, SlotId),
>
    decreases p.len(),
{
    if p.len() == 0 {
        Seq::empty()
    } else if p[0].0 == id {
        pending_remove(p.drop_first(), id)
    } else {
        seq![p[0]] + pending_remove(p.drop_first(), id)
    }
}

/// Removing an absent id changes nothing.
proof fn lemma_remove_absent(p: Seq<(Seq<char>, SlotId)>, id: Seq<char>)
    requires
        forall|k: int| 0 <= k < p.len() ==> (#[trigger] p[k]).0 != id,
    ensures
        pending_remove(p, id) == p,
    decreases p.len(),
{
    if p.len() > 0 {
        assert(forall|k: int|
            0 <= k < p.drop_first().len() ==> (#[trigger] p.drop_first()[k]).0 != id);
        lemma_remove_absent(p.drop_first(), id);
        assert(seq![p[0]] + p.drop_first() =~= p);
    }
}

/// With unique ids, removing the id is removing the one entry that holds it.
proof fn lemma_remove_at(p: Seq<(Seq<char>, SlotId)>, id: Seq<char>, i: int)
    requires
        pending_unique(p),
        0 <= i < p.len(),
        p[i].0 == id,
        forall|k: int| 0 <= k < i ==> (#[trigger] p[k]).0 != id,
    ensures
        pending_remove(p, id) == p.remove(i),
        pending_lookup(p, id) == Some(p[i].1),
    decreases i,
{
    if i == 0 {
        assert forall|k: int| 0 <= k < p.drop_first().len() implies (#[trigger] p.drop_first()[
        k]).0 != id by {
            assert(p.drop_first()[k] == p[k + 1]);
        }
        lemma_remove_absent(p.drop_first(), id);
        assert(p.remove(0) =~= p.drop_first());
    } else {
        assert(pending_unique(p.drop_first())) by {
            assert forall|a: int, b: int|
                0 <= a < b < p.drop_first().len() implies (#[trigger] p.drop_first()[a]).0 != (
            #[trigger] p.drop_first()[b]).0 by {
                assert(p.drop_first()[a] == p[a + 1] && p.drop_first()[b] == p[b + 1]);
            }
        }
        assert(p.drop_first()[i - 1] == p[i]);
        assert(forall|k: int|
            0 <= k < i - 1 ==> (#[trigger] p.drop_first()[k]).0 != id) by {
            assert(forall|k: int| 0 <= k < i - 1 ==> p.drop_first()[k] == p[k + 1]);
        }
        lemma_remove_at(p.drop_first(), id, i - 1);
        assert(seq![p[0]] + p.drop_first().remove(i - 1) =~= p.remove(i));
    }
}

/// Removing an id preserves uniqueness of what stays.
proof fn lemma_unique_remove(p: Seq<(Seq<char>, SlotId)>, i: int)
    requires
        pending_unique(p),
        0 <= i < p.len(),
    ensures
        pending_unique(p.remove(i)),
{
    let q = p.remove(i);
    assert forall|a: int, b: int| 0 <= a < b < q.len() implies (#[trigger] q[a]).0 != (
    #[trigger] q[b]).0 by {
        let a0: int = if a < i {
            a
        } else {
            a + 1
        };
        let b0: int = if b < i {
            b
        } else {
            b + 1
        };
        assert(q[a] == p[a0] && q[b] == p[b0]);
    }
}

/// A new entry with an id no other entry holds keeps the map unique.
proof fn lemma_unique_push(p: Seq<(Seq<char>, SlotId)>, id: Seq<char>, slot: SlotId)
    requires
        pending_unique(p),
        forall|k: int| 0 <= k < p.len() ==> (#[trigger] p[k]).0 != id,
    ensures
        pending_unique(p.push((id, slot))),
{
    let q = p.push((id, slot));
    assert forall|a: int, b: int| 0 <= a < b < q.len() implies (#[trigger] q[a]).0 != (
    #[trigger] q[b]).0 by {
        if b < p.len() {
            assert(q[a] == p[a] && q[b] == p[b]);
        } else {
            assert(q[a] == p[a] && q[b] == (id, slot));
        }
    }
}

/// Ids absent from the whole map are not found.
proof fn lemma_lookup_absent(p: Seq<(Seq<char>, SlotId)>, id: Seq<char>)
    requires
        forall|k: int| 0 <= k < p.len() ==> (#[trigger] p[k]).0 != id,
    ensures
        pending_lookup(p, id) is None,
    decreases p.len(),
{
    if p.len() > 0 {
        assert(forall|k: int|
            0 <= k < p.drop_first().len() ==> (#[trigger] p.drop_first()[k]).0 != id);
        lemma_lookup_absent(p.drop_first(), id);
    }
}

/// One frame on the wire, as the transport reports it.
pub enum Frame {
    Text(String),
    Binary(Vec<u8>),
    Ping(Vec<u8>),
    Pong(Vec<u8>),
    Close,
    Raw,
}

/// The envelope the driver is about to write, held until the write's outcome
/// is known.
pub struct SendTicket {
    pub request_id: String,
    pub action: String,
    pub slot: SlotId,
}

/// The driver's state between steps.
pub struct ConnectionState {
    pending: Vec<(String, SlotId)>,
    terminate_request_id: Option<String>,
    intake_closed: bool,
}

impl ConnectionState {
    pub closed spec fn pending_ids(&self) -> Seq<(Seq<char>, SlotId)> {
        pending_view(self.pending@)
    }

    pub closed spec fn wf(&self) -> bool {
        pending_unique(self.pending_ids())
    }

    /// Whether the driver still accepts outbound requests.
    pub closed spec fn spec_intake_closed(&self) -> bool {
        self.intake_closed
    }

    pub closed spec fn spec_terminate_request_id(&self) -> Option<Seq<char>> {
        match self.terminate_request_id {
            Some(s) => Some(s@),
            None => None,
        }
    }

    /// A fresh driver for a newly opened stream.
    pub fn new() -> (r: ConnectionState)
        ensures
            r.wf(),
            r.pending_ids() == Seq::<(Seq<char>, SlotId)>::empty(),
            !r.spec_intake_closed(),
            r.spec_terminate_request_id() is None,
    {
        let r = ConnectionState {
            pending: Vec::new(),
            terminate_request_id: None,
            intake_closed: false,
        };
        proof {
            assert(pending_view(r.pending@) =~= Seq::<(Seq<char>, SlotId)>::empty());
        }
        r
    }

    /// Whether the driver still accepts outbound requests.
    pub fn is_intake_closed(&self) -> (r: bool)
        ensures
            r == self.spec_intake_closed(),
    {
        self.intake_closed
    }

    /// Serializes one outbound envelope: the returned text is the only frame
    /// written for it. The ticket carries what the driver must remember once
    /// the write's outcome is known.
    pub fn send_request(msg: RequestMessage, slot: SlotId) -> (r: (String, SendTicket))
        ensures
            r.0@ == ser_json(envelope_obj(msg@)),
            r.1.request_id@ == msg@.request_id,
            r.1.action@ == msg@.action,
            r.1.slot == slot,
    {
        let ticket = SendTicket {
            request_id: msg.request_id.clone(),
            action: msg.action.clone(),
            slot,
        };
        (msg.encode(), ticket)
    }

    /// Records the outcome of a frame write. On success the waiter becomes
    /// pending, a terminate request is remembered, and a waiter that reused
    /// the id is failed; on failure the waiter is failed at once.
    pub fn record_send_result(&mut self, t: SendTicket, ok: bool) -> (r: Option<DriverAction>)
        requires
            old(self).wf(),
        ensures
            final(self).wf(),
            final(self).spec_intake_closed() == old(self).spec_intake_closed(),
            !ok ==> {
                &&& final(self).pending_ids() == old(self).pending_ids()
                &&& final(self).spec_terminate_request_id()
                    == old(self).spec_terminate_request_id()
                &&& (r matches Some(DriverAction::Fail(s, e)) && s == t.slot
                    && e is ServiceCallFailed)
            },
            ok ==> {
                &&& final(self).pending_ids() == pending_remove(
                    old(self).pending_ids(),
                    t.request_id@,
                ).push((t.request_id@, t.slot))
                &&& final(self).spec_terminate_request_id() == (if t.action@
                    == "TerminateServerProcess"@ {
                    Some(t.request_id@)
                } else {
                    old(self).spec_terminate_request_id()
                })
                &&& (match pending_lookup(old(self).pending_ids(), t.request_id@) {
                    Some(prev) => r matches Some(DriverAction::Fail(s, e)) && s == prev
                        && e is RequestWasOverwritten,
                    None => r is None,
                })
            },
    {
        if !ok {
            return Some(
                DriverAction::Fail(
                    t.slot,
                    Error::ServiceCallFailed(
                        String::from_str("the frame could not be written"),
                    ),
                ),
            );
        }
        if t.action == String::from_str("TerminateServerProcess") {
            self.terminate_request_id = Some(t.request_id.clone());
        }
        let ghost tid = t.request_id@;
        let ghost tslot = t.slot;
        let ghost term0 = self.terminate_request_id;
        let ghost p = pending_view(self.pending@);
        proof {
            lemma_pending_view(self.pending@);
        }
        let mut i: usize = 0;
        while i < self.pending.len()
            invariant
                ok,
                0 <= i <= self.pending@.len(),
                self.pending@ == old(self).pending@,
                self.intake_closed == old(self).intake_closed,
                self.terminate_request_id == term0,
                self.spec_terminate_request_id() == (if t.action@ == "TerminateServerProcess"@ {
                    Some(tid)
                } else {
                    old(self).spec_terminate_request_id()
                }),
                tid == t.request_id@ && tslot == t.slot,
                p == pending_view(self.pending@),
                pending_unique(p),
                p.len() == self.pending@.len(),
                forall|k: int|
                    0 <= k < self.pending@.len() ==> p[k] == ((
                    #[trigger] self.pending@[k]).0@, self.pending@[k].1),
                forall|k: int| 0 <= k < i ==> (#[trigger] p[k]).0 != tid,
            decreases self.pending@.len() - i,
        {
            if self.pending[i].0 == t.request_id {
                let found = self.pending[i].1;
                proof {
                    lemma_remove_at(p, tid, i as int);
                    lemma_unique_remove(p, i as int);
                }
                self.pending.remove(i);
                let ghost q = self.pending@;
                proof {
                    lemma_pending_view(q);
                    assert forall|k: int|
                        0 <= k < pending_view(q).len() implies pending_view(q)[k] == p.remove(
                        i as int,
                    )[k] by {
                        assert(pending_view(q)[k] == (q[k].0@, q[k].1));
                        if k < i {
                            assert(q[k] == old(self).pending@[k]);
                        } else {
                            assert(q[k] == old(self).pending@[k + 1]);
                        }
                    }
                    assert(pending_view(q) =~= p.remove(i as int));
                }
                self.pending.push((t.request_id, t.slot));
                proof {
                    lemma_pending_view(self.pending@);
                    assert forall|k: int|
                        0 <= k < pending_view(self.pending@).len() implies pending_view(
                        self.pending@,
                    )[k] == pending_view(q).push((tid, tslot))[k] by {
                        assert(pending_view(self.pending@)[k] == (self.pending@[k].0@,
                        self.pending@[k].1));
                        if k < q.len() {
                            assert(self.pending@[k] == q[k]);
                            assert(pending_view(q)[k] == (q[k].0@, q[k].1));
                        } else {
                            assert(self.pending@[k].0@ == tid && self.pending@[k].1 == tslot);
                        }
                    }
                    assert(pending_view(self.pending@) =~= pending_view(q).push((tid, tslot)));
                    assert forall|k: int|
                        0 <= k < pending_remove(p, tid).len() implies (#[trigger] pending_remove(
                        p,
                        tid,
                    )[k]).0 != tid by {
                        if k < i {
                            assert(p.remove(i as int)[k] == p[k]);
                        } else {
                            assert(p.remove(i as int)[k] == p[k + 1]);
                        }
                    }
                    lemma_unique_push(pending_remove(p, tid), tid, tslot);
                }
                return Some(DriverAction::Fail(found, Error::RequestWasOverwritten));
            }
            i = i + 1;
        }
        proof {
            lemma_lookup_absent(p, tid);
            lemma_remove_absent(p, tid);
        }
        let ghost p0 = self.pending@;
        self.pending.push((t.request_id, t.slot));
        proof {
            lemma_pending_view(self.pending@);
            lemma_pending_view(p0);
            assert forall|k: int|
                0 <= k < pending_view(self.pending@).len() implies pending_view(self.pending@)[k]
                == p.push((tid, tslot))[k] by {
                assert(pending_view(self.pending@)[k] == (self.pending@[k].0@,
                self.pending@[k].1));
                if k < p.len() {
                    assert(self.pending@[k] == p0[k]);
                } else {
                    assert(self.pending@[k].0@ == tid && self.pending@[k].1 == tslot);
                }
            }
            assert(pending_view(self.pending@) =~= p.push((tid, tslot)));
            lemma_unique_push(p, tid, tslot);
        }
        None
    }

    /// Correlates one inbound reply: the waiter on its id, if any, is woken
    /// exactly once and forgotten; a reply without an id or without a waiter
    /// changes nothing.
    pub fn do_feedback(&mut self, m: ResponceMessage) -> (r: Option<DriverAction>)
        requires
            old(self).wf(),
        ensures
            final(self).wf(),
            final(self).spec_intake_closed() == old(self).spec_intake_closed(),
            final(self).spec_terminate_request_id() == old(self).spec_terminate_request_id(),
            m@.request_id.len() == 0 ==> final(self).pending_ids() == old(self).pending_ids() && r
                is None,
            m@.request_id.len() > 0 ==> {
                &&& final(self).pending_ids() == pending_remove(
                    old(self).pending_ids(),
                    m@.request_id,
                )
                &&& (match pending_lookup(old(self).pending_ids(), m@.request_id) {
                    Some(slot) => r matches Some(DriverAction::Reply(s, m2)) && s == slot && m2@
                        == m@,
                    None => r is None,
                })
            },
    {
        if m.request_id.as_str().is_empty() {
            return None;
        }
        let ghost p = pending_view(self.pending@);
        proof {
            lemma_pending_view(self.pending@);
        }
        let mut i: usize = 0;
        while i < self.pending.len()
            invariant
                0 <= i <= self.pending@.len(),
                self.pending@ == old(self).pending@,
                self.intake_closed == old(self).intake_closed,
                self.terminate_request_id == old(self).terminate_request_id,
                m@.request_id.len() > 0,
                p == pending_view(self.pending@),
                pending_unique(p),
                p.len() == self.pending@.len(),
                forall|k: int|
                    0 <= k < self.pending@.len() ==> p[k] == ((
                    #[trigger] self.pending@[k]).0@, self.pending@[k].1),
                forall|k: int| 0 <= k < i ==> (#[trigger] p[k]).0 != m@.request_id,
            decreases self.pending@.len() - i,
        {
            if self.pending[i].0 == m.request_id {
                let slot = self.pending[i].1;
                proof {
                    lemma_remove_at(p, m@.request_id, i as int);
                    lemma_unique_remove(p, i as int);
                }
                self.pending.remove(i);
                proof {
                    lemma_pending_view(self.pending@);
                    assert forall|k: int|
                        0 <= k < pending_view(self.pending@).len() implies pending_view(
                        self.pending@,
                    )[k] == p.remove(i as int)[k] by {
                        assert(pending_view(self.pending@)[k] == (self.pending@[k].0@,
                        self.pending@[k].1));
                        if k < i {
                            assert(self.pending@[k] == old(self).pending@[k]);
                        } else {
                            assert(self.pending@[k] == old(self).pending@[k + 1]);
                        }
                    }
                    assert(pending_view(self.pending@) =~= p.remove(i as int));
                }
                return Some(DriverAction::Reply(slot, m));
            }
            i = i + 1;
        }
        proof {
            lemma_lookup_absent(p, m@.request_id);
            lemma_remove_absent(p, m@.request_id);
        }
        None
    }

    /// One inbound text frame: an undecodable frame is dropped; an event
    /// action is decoded and offered to the dispatcher (a refresh closes the
    /// outbound intake first); anything else is treated as a correlated reply.
    pub fn reaction(&mut self, text: String) -> (r: Option<DriverAction>)
        requires
            old(self).wf(),
        ensures
            final(self).wf(),
            final(self).spec_terminate_request_id() == old(self).spec_terminate_request_id(),
            reaction_post(*old(self), *final(self), text@, r),
    {
        proof {
            reveal_strlit("CreateGameSession");
            reveal_strlit("UpdateGameSession");
            reveal_strlit("TerminateProcess");
            reveal_strlit("RefreshConnection");
            assert("CreateGameSession"@[0] == 'C' && "UpdateGameSession"@[0] == 'U'
                && "TerminateProcess"@[0] == 'T' && "RefreshConnection"@[0] == 'R');
            assert("CreateGameSession"@ != "UpdateGameSession"@);
            assert("CreateGameSession"@ != "TerminateProcess"@);
            assert("CreateGameSession"@ != "RefreshConnection"@);
            assert("UpdateGameSession"@ != "TerminateProcess"@);
            assert("UpdateGameSession"@ != "RefreshConnection"@);
            assert("TerminateProcess"@ != "RefreshConnection"@);
        }
        let j = match crate::json::from_text(text.as_str()) {
            Some(j) => j,
            None => {
                return None;
            },
        };
        let m = match ResponceMessage::from_json(j) {
            Some(m) => m,
            None => {
                return None;
            },
        };
        if m.action == String::from_str("CreateGameSession") {
            match CreateGameSessionMessage::from_json(&m.rest_data) {
                Some(g) => Some(DriverAction::PushEvent(ServerEventInner::OnStartGameSession(g))),
                None => None,
            }
        } else if m.action == String::from_str("UpdateGameSession") {
            match UpdateGameSessionMessage::from_json(&m.rest_data) {
                Some(g) => Some(DriverAction::PushEvent(ServerEventInner::OnUpdateGameSession(g))),
                None => None,
            }
        } else if m.action == String::from_str("TerminateProcess") {
            match TerminateProcessMessage::from_json(&m.rest_data) {
                Some(g) => Some(DriverAction::PushEvent(ServerEventInner::OnTerminateProcess(g))),
                None => None,
            }
        } else if m.action == String::from_str("RefreshConnection") {
            self.intake_closed = true;
            match RefreshConnectionMessage::from_json(&m.rest_data) {
                Some(g) => Some(DriverAction::PushEvent(ServerEventInner::OnRefreshConnection(g))),
                None => None,
            }
        } else {
            proof {
                assert(!is_event_action(m@.action));
            }
            self.do_feedback(m)
        }
    }

    /// One inbound frame of any kind: text is decoded, a close frame shuts
    /// the outbound intake, pings, pongs and unknown frames are dropped.
    pub fn listen(&mut self, frame: Frame) -> (r: Option<DriverAction>)
        requires
            old(self).wf(),
        ensures
            final(self).wf(),
            final(self).spec_terminate_request_id() == old(self).spec_terminate_request_id(),
            match frame {
                Frame::Text(t) => reaction_post(*old(self), *final(self), t@, r),
                Frame::Close => final(self).pending_ids() == old(self).pending_ids()
                    && final(self).spec_intake_closed() && r is None,
                _ => *final(self) == *old(self) && r is None,
            },
    {
        match frame {
            Frame::Text(t) => self.reaction(t),
            Frame::Close => {
                self.intake_closed = true;
                None
            },
            _ => None,
        }
    }

    /// The stream has ended: every waiter still pending is settled exactly
    /// once. The in-flight terminate request, if any, is answered with the
    /// synthesized success; everything else fails as no longer deliverable.
    pub fn on_stream_end(&mut self) -> (r: Vec<DriverAction>)
        requires
            old(self).wf(),
        ensures
            final(self).wf(),
            final(self).pending_ids() == Seq::<(Seq<char>, SlotId)>::empty(),
            final(self).spec_terminate_request_id() is None,
            r@.len() == old(self).pending_ids().len(),
            forall|k: int|
                0 <= k < r@.len() ==> {
                    let e = old(self).pending_ids()[k];
                    if old(self).spec_terminate_request_id() == Some(e.0) {
                        &&& (#[trigger] r@[k]) matches DriverAction::Reply(s, m) && s == e.1
                            && m@.status_code == 200 && m@.request_id == e.0 && m@.action
                            == "TerminateServerProcess"@ && m@.error_message == Seq::<
                            char,
                        >::empty() && m@.rest_data is Null
                    } else {
                        &&& (#[trigger] r@[k]) matches DriverAction::Fail(s, e2) && s == e.1 && e2
                            is LocalConnectionAlreadyClosed
                    }
                },
    {
        let ghost p = pending_view(self.pending@);
        proof {
            lemma_pending_view(self.pending@);
        }
        let mut r: Vec<DriverAction> = Vec::new();
        while self.pending.len() > 0
            invariant
                r@.len() <= p.len(),
                self.pending@.len() == p.len() - r@.len(),
                self.intake_closed == old(self).intake_closed,
                self.terminate_request_id == old(self).terminate_request_id,
                pending_unique(pending_view(self.pending@)),
                forall|k: int|
                    0 <= k < self.pending@.len() ==> p[r@.len() + k] == ((
                    #[trigger] self.pending@[k]).0@, self.pending@[k].1),
                forall|k: int|
                    0 <= k < r@.len() ==> {
                        let e = p[k];
                        if old(self).spec_terminate_request_id() == Some(e.0) {
                            &&& (#[trigger] r@[k]) matches DriverAction::Reply(s, m) && s == e.1
                                && m@.status_code == 200 && m@.request_id == e.0 && m@.action
                                == "TerminateServerProcess"@ && m@.error_message == Seq::<
                                char,
                            >::empty() && m@.rest_data is Null
                        } else {
                            &&& (#[trigger] r@[k]) matches DriverAction::Fail(s, e2) && s == e.1
                                && e2 is LocalConnectionAlreadyClosed
                        }
                    },
            decreases self.pending@.len(),
        {
            let ghost pend0 = self.pending@;
            let ghost n0 = r@.len() as int;
            let e = self.pending.remove(0);
            proof {
                assert(pend0[0] == e);
                assert(p[n0] == (e.0@, e.1));

                assert forall|k: int|
                    0 <= k < self.pending@.len() implies p[n0 + 1 + k] == ((
                #[trigger] self.pending@[k]).0@, self.pending@[k].1) by {
                    assert(self.pending@[k] == pend0[k + 1]);
                }
                assert(pending_unique(pending_view(self.pending@))) by {
                    lemma_pending_view(pend0);
                    lemma_pending_view(self.pending@);
                    assert forall|a: int, b: int|
                        0 <= a < b < pending_view(self.pending@).len() implies (
                    #[trigger] pending_view(self.pending@)[a]).0 != (#[trigger] pending_view(
                        self.pending@,
                    )[b]).0 by {
                        assert(pending_view(self.pending@)[a] == (self.pending@[a].0@,
                        self.pending@[a].1));
                        assert(pending_view(self.pending@)[b] == (self.pending@[b].0@,
                        self.pending@[b].1));
                        assert(self.pending@[a] == pend0[a + 1]);
                        assert(self.pending@[b] == pend0[b + 1]);
                        assert(pending_view(pend0)[a + 1] == (pend0[a + 1].0@, pend0[a + 1].1));
                        assert(pending_view(pend0)[b + 1] == (pend0[b + 1].0@, pend0[b + 1].1));
                        assert(pending_unique(pending_view(pend0)));
                    }
                }
            }
            let is_term = match &self.terminate_request_id {
                Some(tid) => e.0 == *tid,
                None => false,
            };
            if is_term {
                let msg = ResponceMessage::new_fake_success(
                    String::from_str("TerminateServerProcess"),
                    e.0,
                );
                r.push(DriverAction::Reply(e.1, msg));
            } else {
                r.push(DriverAction::Fail(e.1, Error::LocalConnectionAlreadyClosed));
            }
        }
        self.terminate_request_id = None;
        proof {
            assert(pending_view(self.pending@) =~= Seq::<(Seq<char>, SlotId)>::empty());
        }
        r
    }
}

/// Nothing left by an eviction still holds the evicted id.
proof fn lemma_remove_no_id(p: Seq<(Seq<char>, SlotId)>, id: Seq<char>)
    ensures
        forall|k: int|
            0 <= k < pending_remove(p, id).len() ==> (#[trigger] pending_remove(p, id)[k]).0 != id,
    decreases p.len(),
{
    if p.len() > 0 {
        lemma_remove_no_id(p.drop_first(), id);
        if p[0].0 != id {
            let q = seq![p[0]] + pending_remove(p.drop_first(), id);
            assert forall|k: int| 0 <= k < q.len() implies (#[trigger] q[k]).0 != id by {
                if k > 0 {
                    assert(q[k] == pending_remove(p.drop_first(), id)[k - 1]);
                }
            }
        }
    }
}

proof fn lemma_lookup_push(q: Seq<(Seq<char>, SlotId)>, id: Seq<char>, slot: SlotId)
    requires
        forall|k: int| 0 <= k < q.len() ==> (#[trigger] q[k]).0 != id,
    ensures
        pending_lookup(q.push((id, slot)), id) == Some(slot),
    decreases q.len(),
{
    if q.len() == 0 {
        assert(q.push((id, slot))[0] == (id, slot));
    } else {
        assert(q.push((id, slot))[0] == q[0]);
        assert(q.push((id, slot)).drop_first() =~= q.drop_first().push((id, slot)));
        assert(forall|k: int|
            0 <= k < q.drop_first().len() ==> (#[trigger] q.drop_first()[k]).0 != id);
        lemma_lookup_push(q.drop_first(), id, slot);
    }
}

/// Each accepted request has exactly one waiter on record afterwards, and a
/// delivered reply leaves none: together, a request is answered at most once.
pub proof fn lemma_one_waiter_per_request(p: Seq<(Seq<char>, SlotId)>, id: Seq<char>, slot: SlotId)
    ensures
        pending_lookup(pending_remove(p, id).push((id, slot)), id) == Some(slot),
        pending_lookup(pending_remove(pending_remove(p, id).push((id, slot)), id), id) is None,
{
    lemma_remove_no_id(p, id);
    lemma_lookup_push(pending_remove(p, id), id, slot);
    lemma_reply_settles_once(pending_remove(p, id).push((id, slot)), id);
}

/// A reply settles its waiter at most once: once the waiter on an id has been
/// removed, no waiter on that id remains to be woken again.
pub proof fn lemma_reply_settles_once(p: Seq<(Seq<char>, SlotId)>, id: Seq<char>)
    ensures
        pending_lookup(pending_remove(p, id), id) is None,
    decreases p.len(),
{
    if p.len() > 0 {
        lemma_reply_settles_once(p.drop_first(), id);
        if p[0].0 != id {
            let q = seq![p[0]] + pending_remove(p.drop_first(), id);
            assert(q.drop_first() =~= pending_remove(p.drop_first(), id));
        }
    }
}

/// Everything one inbound text frame does to the driver, and the action it
/// yields.
pub open spec fn reaction_post(
    pre: ConnectionState,
    post: ConnectionState,
    text: Seq<char>,
    r: Option<DriverAction>,
) -> bool {
    match frame_msg(text) {
        None => post.pending_ids() == pre.pending_ids() && post.spec_intake_closed()
            == pre.spec_intake_closed() && r is None,
        Some(mv) => {
            &&& (mv.action == "CreateGameSession"@ ==> {
                &&& post.pending_ids() == pre.pending_ids()
                &&& post.spec_intake_closed() == pre.spec_intake_closed()
                &&& (match spec_create_game_session(mv.rest_data) {
                    Some(g) => r matches Some(
                        DriverAction::PushEvent(ServerEventInner::OnStartGameSession(gm)),
                    ) && gm@ == g,
                    None => r is None,
                })
            })
            &&& (mv.action == "UpdateGameSession"@ ==> {
                &&& post.pending_ids() == pre.pending_ids()
                &&& post.spec_intake_closed() == pre.spec_intake_closed()
                &&& (match spec_update_game_session(mv.rest_data) {
                    Some(g) => r matches Some(
                        DriverAction::PushEvent(ServerEventInner::OnUpdateGameSession(gm)),
                    ) && gm@ == g,
                    None => r is None,
                })
            })
            &&& (mv.action == "TerminateProcess"@ ==> {
                &&& post.pending_ids() == pre.pending_ids()
                &&& post.spec_intake_closed() == pre.spec_intake_closed()
                &&& (match spec_terminate_process(mv.rest_data) {
                    Some(g) => r matches Some(
                        DriverAction::PushEvent(ServerEventInner::OnTerminateProcess(gm)),
                    ) && gm@ == g,
                    None => r is None,
                })
            })
            &&& (mv.action == "RefreshConnection"@ ==> {
                &&& post.pending_ids() == pre.pending_ids()
                &&& post.spec_intake_closed()
                &&& (match spec_refresh_connection(mv.rest_data) {
                    Some(g) => r matches Some(
                        DriverAction::PushEvent(ServerEventInner::OnRefreshConnection(gm)),
                    ) && gm@ == g,
                    None => r is None,
                })
            })
            &&& (!is_event_action(mv.action) ==> {
                &&& post.spec_intake_closed() == pre.spec_intake_closed()
                &&& (mv.request_id.len() == 0 ==> post.pending_ids() == pre.pending_ids() && r
                    is None)
                &&& (mv.request_id.len() > 0 ==> {
                    &&& post.pending_ids() == pending_remove(pre.pending_ids(), mv.request_id)
                    &&& (match pending_lookup(pre.pending_ids(), mv.request_id) {
                        Some(slot) => r matches Some(DriverAction::Reply(s, m2)) && s == slot
                            && m2@ == mv,
                        None => r is None,
                    })
                })
            })
        },
    }
}

/// The decoded form of an inbound text frame, if it has one.
pub open spec fn frame_msg(text: Seq<char>) -> Option<crate::protocol::ResponceMessageV> {
    match parse_json(text) {
        Some(doc) => spec_decode_response(doc),
        None => None,
    }
}

/// The actions that name server-initiated events.
pub open spec fn is_event_action(a: Seq<char>) -> bool {
    ||| a == "CreateGameSession"@
    ||| a == "UpdateGameSession"@
    ||| a == "TerminateProcess"@
    ||| a == "RefreshConnection"@
}

} // verus!
