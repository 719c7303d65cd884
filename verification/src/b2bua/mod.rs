//! B2BUA (Back-to-Back User Agent).
//!
//! [`B2BUA`] is the session store: it holds at most one session for each
//! Call-ID, moves the sessions through their states, and answers the
//! sender of a request. [`bridge::Bridge`] pairs the two legs of a call: it
//! routes an INVITE, originates leg B, and sends on either leg what
//! arrives on the other. [`perimeter::Perimeter`] stands before both: it
//! screens sources by ACL and asks for credentials.

pub mod bridge;
pub mod call;
pub mod call_leg;
pub mod dialog;
pub mod invariants;
pub mod party;
pub mod perimeter;
pub mod policy;
pub mod reply;
pub mod session;

pub use call_leg::CallLeg;
pub use session::{Session, SessionEvent, SessionId, SessionState};

use vstd::prelude::*;
use vstd::string::*;
use crate::b2bua::call_leg::LegView;
use crate::b2bua::session::{event_of_status, state_after, status_event, SessionView};
use crate::ip::SocketAddress;
use crate::sip::header::{header_value, HeaderView};
use crate::sip::message::{Message, MessageView, Request, RequestView, Response, ResponseView};
use crate::sip::response::{reason_of, StatusCode};
use crate::text::{opt_str, or_empty, str_eq};

verus! {

/// Why a message was not handled.
#[derive(Debug, Clone, Copy, PartialEq, Eq, Structural)]
pub enum B2buaError {
    /// The message has no `Call-ID` header.
    NoCallId,
}

impl B2buaError {
    /// A description of the error.
    pub fn message(&self) -> (s: String)
        ensures
            s@ == "No Call-ID in message"@,
    {
        "No Call-ID in message".to_owned()
    }
}

pub open spec fn session_views(s: Seq<Session>) -> Seq<SessionView> {
    Seq::new(s.len(), |i: int| s[i]@)
}

/// Whether no two sessions have the same Call-ID.
pub open spec fn unique_calls(s: Seq<SessionView>) -> bool {
    forall|i: int, j: int| 0 <= i < j < s.len() ==> s[i].call_id != s[j].call_id
}

/// Whether no two sessions have the same identifier.
pub open spec fn unique_ids(s: Seq<SessionView>) -> bool {
    forall|i: int, j: int| 0 <= i < j < s.len() ==> s[i].id != s[j].id
}

/// Whether every session is alive: it has its A leg, and it is not
/// terminated. A terminated session is removed from the store.
pub open spec fn all_alive(s: Seq<SessionView>) -> bool {
    forall|i: int|
        0 <= i < s.len() ==> (#[trigger] s[i]).a_leg is Some && s[i].state
            != SessionState::Terminated
}

/// The index at or after `from` of the session of `call_id`, or the number
/// of sessions.
pub open spec fn call_index(s: Seq<SessionView>, call_id: Seq<char>, from: int) -> int
    decreases s.len() - from,
{
    if 0 <= from < s.len() && s[from].call_id != call_id {
        call_index(s, call_id, from + 1)
    } else {
        from
    }
}

/// The sessions whose identifier is not `id`, in their order.
pub open spec fn without_id(s: Seq<SessionView>, id: Seq<char>) -> Seq<SessionView>
    decreases s.len(),
{
    if s.len() == 0 {
        Seq::empty()
    } else if s.last().id == id {
        without_id(s.drop_last(), id)
    } else {
        without_id(s.drop_last(), id).push(s.last())
    }
}

/// A response with the canonical reason of its status, the given headers
/// and no body.
pub open spec fn reply(status: u16, headers: Seq<HeaderView>) -> MessageView {
    MessageView::Response(
        ResponseView {
            version: "SIP/2.0"@,
            status,
            reason: reason_of(status),
            headers,
            body: Seq::empty(),
        },
    )
}

pub open spec fn call_id_header(call_id: Seq<char>) -> HeaderView {
    HeaderView { name: "Call-ID"@, value: call_id }
}

/// The headers with which an OPTIONS request is answered.
pub open spec fn capability_headers(call_id: Seq<char>) -> Seq<HeaderView> {
    seq![
        call_id_header(call_id),
        HeaderView { name: "Allow"@, value: "INVITE, ACK, BYE, CANCEL, OPTIONS, INFO"@ },
        HeaderView { name: "Accept"@, value: "application/sdp"@ },
        HeaderView { name: "Supported"@, value: "replaces, timer"@ },
    ]
}

/// The A leg that an INVITE from `source` seeds.
pub open spec fn a_leg_of(request: RequestView, source: SocketAddress) -> LegView {
    LegView {
        remote_addr: source,
        from_uri: or_empty(header_value(request.headers, "From"@)),
        to_uri: or_empty(header_value(request.headers, "To"@)),
        contact: header_value(request.headers, "Contact"@),
        sdp: None,
        local_tag: Seq::empty(),
        cseq: 0,
    }
}

pub type Outcome = (Seq<SessionView>, Result<Option<MessageView>, B2buaError>);

/// INVITE: a session is created under the identifier `fresh` unless the
/// Call-ID has one, and `100 Trying` is answered.
pub open spec fn on_invite(
    s: Seq<SessionView>,
    request: RequestView,
    source: SocketAddress,
    fresh: Seq<char>,
) -> Outcome {
    match header_value(request.headers, "Call-ID"@) {
        None => (s, Err(B2buaError::NoCallId)),
        Some(call_id) => {
            let answer = Ok(Some(reply(100, seq![call_id_header(call_id)])));
            if call_index(s, call_id, 0) < s.len() {
                (s, answer)
            } else {
                (
                    without_id(s, fresh).push(
                        SessionView {
                            id: fresh,
                            call_id,
                            state: SessionState::Initial,
                            a_leg: Some(a_leg_of(request, source)),
                            b_leg: None,
                        },
                    ),
                    answer,
                )
            }
        },
    }
}

/// BYE: the session of the Call-ID is removed, and `200 OK` is answered.
pub open spec fn on_bye(s: Seq<SessionView>, request: RequestView) -> Outcome {
    match header_value(request.headers, "Call-ID"@) {
        None => (s, Err(B2buaError::NoCallId)),
        Some(call_id) => {
            let i = call_index(s, call_id, 0);
            let answer = Ok(Some(reply(200, seq![call_id_header(call_id)])));
            if 0 <= i < s.len() {
                (s.remove(i), answer)
            } else {
                (s, answer)
            }
        },
    }
}

/// CANCEL: a session that is not yet established is torn down, and
/// `200 OK` is answered.
pub open spec fn on_cancel(s: Seq<SessionView>, request: RequestView) -> Outcome {
    match header_value(request.headers, "Call-ID"@) {
        None => (s, Err(B2buaError::NoCallId)),
        Some(call_id) => {
            let i = call_index(s, call_id, 0);
            let answer = Ok(Some(reply(200, seq![call_id_header(call_id)])));
            if 0 <= i < s.len() && (s[i].state == SessionState::Initial || s[i].state
                == SessionState::Ringing) {
                (s.update(i, SessionView { state: SessionState::Terminating, ..s[i] }), answer)
            } else {
                (s, answer)
            }
        },
    }
}

/// OPTIONS: `200 OK` with the capabilities, and the Call-ID of the request
/// or `none`.
pub open spec fn on_options(s: Seq<SessionView>, request: RequestView) -> Outcome {
    let call_id = match header_value(request.headers, "Call-ID"@) {
        Some(c) => c,
        None => "none"@,
    };
    (s, Ok(Some(reply(200, capability_headers(call_id)))))
}

/// A request: dispatched by its method. ACK is not answered; a method
/// other than INVITE, ACK, BYE, CANCEL and OPTIONS is answered with
/// `501 Not Implemented`.
pub open spec fn on_request(
    s: Seq<SessionView>,
    request: RequestView,
    source: SocketAddress,
    fresh: Seq<char>,
) -> Outcome {
    if request.method == "INVITE"@ {
        on_invite(s, request, source, fresh)
    } else if request.method == "BYE"@ {
        on_bye(s, request)
    } else if request.method == "OPTIONS"@ {
        on_options(s, request)
    } else if request.method == "ACK"@ {
        (s, Ok(None))
    } else if request.method == "CANCEL"@ {
        on_cancel(s, request)
    } else {
        (s, Ok(Some(reply(501, Seq::empty()))))
    }
}

/// A response: the session of its Call-ID moves to the state after the
/// event that the status is, and is removed when that state is
/// `Terminated`. Nothing is answered.
pub open spec fn on_response(s: Seq<SessionView>, response: ResponseView) -> Outcome {
    match header_value(response.headers, "Call-ID"@) {
        None => (s, Err(B2buaError::NoCallId)),
        Some(call_id) => {
            let i = call_index(s, call_id, 0);
            if 0 <= i < s.len() {
                match event_of_status(response.status) {
                    Some(event) => {
                        let next = state_after(s[i].state, event);
                        if next == SessionState::Terminated {
                            (s.remove(i), Ok(None))
                        } else {
                            (s.update(i, SessionView { state: next, ..s[i] }), Ok(None))
                        }
                    },
                    None => (s, Ok(None)),
                }
            } else {
                (s, Ok(None))
            }
        },
    }
}

/// What handling a message does to the store, and what is answered.
pub open spec fn step(
    s: Seq<SessionView>,
    message: MessageView,
    source: SocketAddress,
    fresh: Seq<char>,
) -> Outcome {
    match message {
        MessageView::Request(request) => on_request(s, request, source, fresh),
        MessageView::Response(response) => on_response(s, response),
    }
}

pub open spec fn answer_view(r: Result<Option<Message>, B2buaError>) -> Result<
    Option<MessageView>,
    B2buaError,
> {
    match r {
        Ok(Some(m)) => Ok(Some(m@)),
        Ok(None) => Ok(None),
        Err(e) => Err(e),
    }
}

pub proof fn lemma_call_index_is(s: Seq<SessionView>, call_id: Seq<char>, from: int, r: int)
    requires
        0 <= from <= r <= s.len(),
        forall|j: int| from <= j < r ==> s[j].call_id != call_id,
        r < s.len() ==> s[r].call_id == call_id,
    ensures
        call_index(s, call_id, from) == r,
    decreases r - from,
{
    if from < r {
        lemma_call_index_is(s, call_id, from + 1, r);
    }
}

pub proof fn lemma_call_index(s: Seq<SessionView>, call_id: Seq<char>, from: int)
    requires
        0 <= from <= s.len(),
    ensures
        from <= call_index(s, call_id, from) <= s.len(),
        forall|j: int| from <= j < call_index(s, call_id, from) ==> s[j].call_id != call_id,
        call_index(s, call_id, from) < s.len() ==> s[call_index(s, call_id, from)].call_id
            == call_id,
    decreases s.len() - from,
{
    if from < s.len() && s[from].call_id != call_id {
        lemma_call_index(s, call_id, from + 1);
    }
}

/// What is left without an identifier stood in the list, in the same
/// order, and none of it has the identifier.
pub proof fn lemma_without_id(s: Seq<SessionView>, id: Seq<char>)
    ensures
        unique_calls(s) ==> unique_calls(without_id(s, id)),
        unique_ids(s) ==> unique_ids(without_id(s, id)),
        forall|a: int|
            0 <= a < without_id(s, id).len() ==> (#[trigger] without_id(s, id)[a]).id != id
                && s.contains(without_id(s, id)[a]),
    decreases s.len(),
{
    if s.len() > 0 {
        let d = s.drop_last();
        lemma_without_id(d, id);
        let w = without_id(s, id);
        let wd = without_id(d, id);
        assert forall|a: int| 0 <= a < w.len() implies (#[trigger] w[a]).id != id && s.contains(
            w[a],
        ) by {
            if a < wd.len() {
                assert(d.contains(wd[a]));
                let b = choose|b: int| 0 <= b < d.len() && d[b] == wd[a];
                assert(s[b] == w[a]);
            } else {
                assert(s[s.len() - 1] == w[a]);
            }
        }
        if unique_calls(s) {
            assert(unique_calls(d)) by {
                assert forall|i: int, j: int| 0 <= i < j < d.len() implies d[i].call_id
                    != d[j].call_id by {
                    assert(d[i] == s[i] && d[j] == s[j]);
                }
            }
            assert forall|i: int, j: int| 0 <= i < j < w.len() implies w[i].call_id
                != w[j].call_id by {
                if j < wd.len() {
                } else {
                    assert(d.contains(wd[i]));
                    let b = choose|b: int| 0 <= b < d.len() && d[b] == wd[i];
                    assert(s[b].call_id != s[s.len() - 1].call_id);
                }
            }
        }
        if unique_ids(s) {
            assert(unique_ids(d)) by {
                assert forall|i: int, j: int| 0 <= i < j < d.len() implies d[i].id != d[j].id by {
                    assert(d[i] == s[i] && d[j] == s[j]);
                }
            }
            assert forall|i: int, j: int| 0 <= i < j < w.len() implies w[i].id != w[j].id by {
                if j < wd.len() {
                } else {
                    assert(d.contains(wd[i]));
                    let b = choose|b: int| 0 <= b < d.len() && d[b] == wd[i];
                    assert(s[b].id != s[s.len() - 1].id);
                }
            }
        }
    }
}

/// Every step keeps the sessions of the store alive: a session that is
/// created has its A leg, and a session that terminates is removed.
pub proof fn lemma_step_keeps_sessions_alive(
    s: Seq<SessionView>,
    message: MessageView,
    source: SocketAddress,
    fresh: Seq<char>,
)
    requires
        all_alive(s),
    ensures
        all_alive(step(s, message, source, fresh).0),
{
    let after = step(s, message, source, fresh).0;
    let headers = match message {
        MessageView::Request(r) => r.headers,
        MessageView::Response(r) => r.headers,
    };
    let invite = match message {
        MessageView::Request(r) => r.method == "INVITE"@,
        MessageView::Response(r) => false,
    };
    match header_value(headers, "Call-ID"@) {
        None => {},
        Some(call_id) => {
            lemma_call_index(s, call_id, 0);
            lemma_without_id(s, fresh);
            let i = call_index(s, call_id, 0);
            let w = without_id(s, fresh);
            if invite {
                if i >= s.len() {
                    assert(after.drop_last() =~= w);
                    assert forall|a: int| 0 <= a < after.len() implies (#[trigger] after[a]).a_leg
                        is Some && after[a].state != SessionState::Terminated by {
                        if a < w.len() {
                            assert(after[a] == w[a]);
                            assert(s.contains(w[a]));
                            let k = choose|k: int| 0 <= k < s.len() && s[k] == w[a];
                            assert(s[k].a_leg is Some);
                        }
                    }
                }
            } else if after != s {
                if 0 <= i < s.len() && after == s.remove(i) {
                    assert forall|a: int| 0 <= a < after.len() implies (#[trigger] after[a]).a_leg
                        is Some && after[a].state != SessionState::Terminated by {
                        let a0 = if a < i {
                            a
                        } else {
                            a + 1
                        };
                        assert(after[a] == s[a0]);
                        assert(s[a0].a_leg is Some);
                    }
                } else if 0 <= i < s.len() {
                    assert forall|a: int| 0 <= a < after.len() implies (#[trigger] after[a]).a_leg
                        is Some && after[a].state != SessionState::Terminated by {
                        assert(s[a].a_leg is Some);
                        if a != i {
                            assert(after[a] == s[a]);
                        }
                    }
                }
            }
        },
    }
}

/// Every step keeps the store free of sessions that share a Call-ID or an
/// identifier.
pub proof fn lemma_step_keeps_calls_unique(
    s: Seq<SessionView>,
    message: MessageView,
    source: SocketAddress,
    fresh: Seq<char>,
)
    requires
        unique_calls(s),
        unique_ids(s),
    ensures
        unique_calls(step(s, message, source, fresh).0),
        unique_ids(step(s, message, source, fresh).0),
{
    let after = step(s, message, source, fresh).0;
    let headers = match message {
        MessageView::Request(r) => r.headers,
        MessageView::Response(r) => r.headers,
    };
    let invite = match message {
        MessageView::Request(r) => r.method == "INVITE"@,
        MessageView::Response(r) => false,
    };
    match header_value(headers, "Call-ID"@) {
        None => {},
        Some(call_id) => {
            lemma_call_index(s, call_id, 0);
            lemma_without_id(s, fresh);
            let i = call_index(s, call_id, 0);
            let w = without_id(s, fresh);
            if invite {
                if i >= s.len() {
                    assert(after.drop_last() =~= w);
                    assert forall|a: int, b: int| 0 <= a < b < after.len() implies after[a].call_id
                        != after[b].call_id && after[a].id != after[b].id by {
                        if b < w.len() {
                            assert(after[a] == w[a] && after[b] == w[b]);
                        } else {
                            assert(after[a] == w[a]);
                            assert(s.contains(w[a]));
                            let k = choose|k: int| 0 <= k < s.len() && s[k] == w[a];
                            assert(s[k].call_id != call_id);
                        }
                    }
                }
            } else if after != s {
                if 0 <= i < s.len() && after == s.remove(i) {
                    assert forall|a: int, b: int| 0 <= a < b < after.len() implies after[a].call_id
                        != after[b].call_id && after[a].id != after[b].id by {
                        let a0 = if a < i {
                            a
                        } else {
                            a + 1
                        };
                        let b0 = if b < i {
                            b
                        } else {
                            b + 1
                        };
                        assert(after[a] == s[a0] && after[b] == s[b0]);
                    }
                } else if 0 <= i < s.len() {
                    assert forall|a: int, b: int| 0 <= a < b < after.len() implies after[a].call_id
                        != after[b].call_id && after[a].id != after[b].id by {
                        assert(after[a].call_id == s[a].call_id && after[b].call_id == s[b].call_id);
                        assert(after[a].id == s[a].id && after[b].id == s[b].id);
                    }
                }
            }
        },
    }
}

/// B2BUA core engine.
///
/// The B2BUA acts as both a UAC (User Agent Client) and UAS (User Agent
/// Server), maintaining call state between two legs of a call.
#[derive(Debug, Clone)]
pub struct B2BUA {
    sessions: Vec<Session>,
}

fn answer(status: u16, call_id: &str) -> (m: Message)
    ensures
        m@ == reply(status, seq![call_id_header(call_id@)]),
{
    let r = Response::new(StatusCode(status)).with_header("Call-ID", call_id);
    assert(r@.headers =~= seq![call_id_header(call_id@)]);
    assert(r@.body =~= Seq::empty());
    Message::Response(r)
}

fn text_or_empty(o: Option<&str>) -> (s: String)
    ensures
        s@ == or_empty(opt_str(o)),
{
    match o {
        Some(t) => t.to_owned(),
        None => String::new(),
    }
}

fn header_text_of<'a>(request: &'a Request, name: &str) -> (r: Option<&'a str>)
    ensures
        opt_str(r) == header_value(request@.headers, name@),
{
    request.get_header_value(name)
}

impl B2BUA {
    /// The sessions of the store.
    pub closed spec fn sessions(&self) -> Seq<SessionView> {
        session_views(self.sessions@)
    }

    /// No two sessions share a Call-ID or an identifier, and every session
    /// is alive.
    pub open spec fn wf(&self) -> bool {
        unique_calls(self.sessions()) && unique_ids(self.sessions()) && all_alive(self.sessions())
    }

    pub fn new() -> (r: Self)
        ensures
            r.wf(),
            r.sessions() == Seq::<SessionView>::empty(),
    {
        let r = B2BUA { sessions: Vec::new() };
        assert(session_views(r.sessions@) =~= Seq::empty());
        r
    }

    /// Get session count.
    pub fn session_count(&self) -> (n: usize)
        ensures
            n == self.sessions().len(),
    {
        self.sessions.len()
    }

    /// The session of a Call-ID.
    pub fn find_session(&self, call_id: &str) -> (r: Option<&Session>)
        ensures
            match r {
                Some(s) => {
                    let i = call_index(self.sessions(), call_id@, 0);
                    0 <= i < self.sessions().len() && s@ == self.sessions()[i]
                },
                None => call_index(self.sessions(), call_id@, 0) == self.sessions().len(),
            },
    {
        let i = self.position(call_id);
        if i < self.sessions.len() {
            Some(&self.sessions[i])
        } else {
            None
        }
    }

    fn position(&self, call_id: &str) -> (i: usize)
        ensures
            i == call_index(self.sessions(), call_id@, 0),
            i <= self.sessions.len(),
            i < self.sessions.len() ==> self.sessions()[i as int] == self.sessions@[i as int]@,
    {
        let mut i: usize = 0;
        while i < self.sessions.len()
            invariant
                i <= self.sessions.len(),
                forall|j: int| 0 <= j < i ==> (#[trigger] self.sessions()[j]).call_id != call_id@,
            decreases self.sessions.len() - i,
        {
            assert(self.sessions()[i as int] == self.sessions@[i as int]@);
            if str_eq(self.sessions[i].call_id(), call_id) {
                proof {
                    lemma_call_index_is(self.sessions(), call_id@, 0, i as int);
                }
                return i;
            }
            i += 1;
        }
        proof {
            lemma_call_index_is(self.sessions(), call_id@, 0, i as int);
        }
        i
    }

    fn drop_id(&mut self, id: &str)
        ensures
            final(self).sessions() == without_id(old(self).sessions(), id@),
    {
        let mut rest: Vec<Session> = Vec::new();
        core::mem::swap(&mut rest, &mut self.sessions);
        let ghost all = session_views(rest@);
        let ghost mut k: int = 0;
        assert(all.take(0) =~= Seq::empty());
        assert(session_views(self.sessions@) =~= Seq::empty());
        while rest.len() > 0
            invariant
                0 <= k <= all.len(),
                session_views(rest@) == all.skip(k),
                session_views(self.sessions@) == without_id(all.take(k), id@),
            decreases rest.len(),
        {
            let ghost rest_before = session_views(rest@);
            assert(rest_before.len() == rest.len());
            assert(k < all.len());
            assert(rest_before[0] == all[k]);
            assert(rest_before[0] == rest@[0]@);
            let x = rest.remove(0);
            assert(x@ == all[k]);
            assert(session_views(rest@) =~= all.skip(k + 1)) by {
                assert forall|j: int| 0 <= j < rest@.len() implies session_views(rest@)[j]
                    == all.skip(k + 1)[j] by {
                    assert(session_views(rest@)[j] == rest_before[j + 1]);
                }
            }
            proof {
                assert(all.take(k + 1).drop_last() =~= all.take(k));
                assert(all.take(k + 1).last() == all[k]);
            }
            if !str_eq(x.id().as_str(), id) {
                let ghost kept = session_views(self.sessions@);
                self.sessions.push(x);
                assert(session_views(self.sessions@) =~= kept.push(x@));
            }
            proof {
                k = k + 1;
            }
        }
        assert(all.take(all.len() as int) =~= all);
    }

    /// Handle an incoming SIP message that came from `source`. A session
    /// that is created gets a fresh random identifier.
    pub fn handle_message(&mut self, message: Message, source: SocketAddress) -> (r: Result<
        Option<Message>,
        B2buaError,
    >)
        requires
            old(self).wf(),
        ensures
            final(self).wf(),
            exists|fresh: Seq<char>|
                (final(self).sessions(), answer_view(r)) == step(
                    old(self).sessions(),
                    message@,
                    source,
                    fresh,
                ),
    {
        let fresh = SessionId::new();
        self.handle_message_with(message, source, fresh)
    }

    /// Handle an incoming SIP message that came from `source`; a session
    /// that is created gets the identifier `fresh`.
    pub fn handle_message_with(&mut self, message: Message, source: SocketAddress, fresh: SessionId) -> (r:
        Result<Option<Message>, B2buaError>)
        requires
            old(self).wf(),
        ensures
            final(self).wf(),
            (final(self).sessions(), answer_view(r)) == step(
                old(self).sessions(),
                message@,
                source,
                fresh@,
            ),
    {
        proof {
            lemma_step_keeps_calls_unique(self.sessions(), message@, source, fresh@);
            lemma_step_keeps_sessions_alive(self.sessions(), message@, source, fresh@);
        }
        match message {
            Message::Request(request) => self.handle_request(request, source, fresh),
            Message::Response(response) => self.handle_response(response),
        }
    }

    /// Handle SIP request.
    fn handle_request(&mut self, request: Request, source: SocketAddress, fresh: SessionId) -> (r:
        Result<Option<Message>, B2buaError>)
        ensures
            (final(self).sessions(), answer_view(r)) == on_request(
                old(self).sessions(),
                request@,
                source,
                fresh@,
            ),
    {
        let name = request.method.as_str();
        if str_eq(name, "INVITE") {
            self.handle_invite(request, source, fresh)
        } else if str_eq(name, "BYE") {
            self.handle_bye(request)
        } else if str_eq(name, "OPTIONS") {
            self.handle_options(request)
        } else if str_eq(name, "ACK") {
            Ok(None)
        } else if str_eq(name, "CANCEL") {
            self.handle_cancel(request)
        } else {
            let r = Response::new(StatusCode(501));
            assert(r@.headers =~= Seq::empty());
            assert(r@.body =~= Seq::empty());
            Ok(Some(Message::Response(r)))
        }
    }

    /// Handle SIP response.
    fn handle_response(&mut self, response: Response) -> (r: Result<Option<Message>, B2buaError>)
        ensures
            (final(self).sessions(), answer_view(r)) == on_response(old(self).sessions(), response@),
    {
        let call_id = match response.get_header_value("Call-ID") {
            Some(c) => c,
            None => {
                return Err(B2buaError::NoCallId);
            },
        };
        let i = self.position(call_id);
        if i < self.sessions.len() {
            match status_event(response.status_code.0) {
                Some(event) => {
                    let ghost before = self.sessions();
                    let mut session = self.sessions.remove(i);
                    assert(self.sessions() =~= before.remove(i as int));
                    session.apply(event);
                    match session.state() {
                        SessionState::Terminated => {},
                        _ => {
                            self.sessions.insert(i, session);
                            assert(self.sessions() =~= before.update(
                                i as int,
                                SessionView {
                                    state: state_after(before[i as int].state, event),
                                    ..before[i as int]
                                },
                            ));
                        },
                    }
                },
                None => {},
            }
        }
        Ok(None)
    }

    /// Handle INVITE request - establish new session.
    fn handle_invite(&mut self, request: Request, source: SocketAddress, fresh: SessionId) -> (r:
        Result<Option<Message>, B2buaError>)
        ensures
            (final(self).sessions(), answer_view(r)) == on_invite(
                old(self).sessions(),
                request@,
                source,
                fresh@,
            ),
    {
        let call_id = match header_text_of(&request, "Call-ID") {
            Some(c) => c,
            None => {
                return Err(B2buaError::NoCallId);
            },
        };
        let i = self.position(call_id);
        if i >= self.sessions.len() {
            let mut leg = CallLeg::new(
                source,
                text_or_empty(header_text_of(&request, "From")),
                text_or_empty(header_text_of(&request, "To")),
            );
            match header_text_of(&request, "Contact") {
                Some(c) => {
                    leg = leg.with_contact(c.to_owned());
                },
                None => {},
            }
            assert(leg@ == a_leg_of(request@, source));
            let mut session = Session::with_id(fresh.duplicate(), call_id.to_owned());
            session.set_a_leg(leg);
            self.drop_id(fresh.as_str());
            let ghost kept = self.sessions();
            self.sessions.push(session);
            assert(self.sessions() =~= kept.push(session@));
        }
        Ok(Some(answer(100, call_id)))
    }

    /// Handle BYE request - terminate session.
    fn handle_bye(&mut self, request: Request) -> (r: Result<Option<Message>, B2buaError>)
        ensures
            (final(self).sessions(), answer_view(r)) == on_bye(old(self).sessions(), request@),
    {
        let call_id = match header_text_of(&request, "Call-ID") {
            Some(c) => c,
            None => {
                return Err(B2buaError::NoCallId);
            },
        };
        let i = self.position(call_id);
        if i < self.sessions.len() {
            let ghost before = self.sessions();
            let _ = self.sessions.remove(i);
            assert(self.sessions() =~= before.remove(i as int));
        }
        Ok(Some(answer(200, call_id)))
    }

    /// Handle OPTIONS request - capability query.
    fn handle_options(&mut self, request: Request) -> (r: Result<Option<Message>, B2buaError>)
        ensures
            (final(self).sessions(), answer_view(r)) == on_options(old(self).sessions(), request@),
    {
        let call_id = match header_text_of(&request, "Call-ID") {
            Some(c) => c,
            None => "none",
        };
        let r = Response::new(StatusCode(200)).with_header("Call-ID", call_id).with_header(
            "Allow",
            "INVITE, ACK, BYE, CANCEL, OPTIONS, INFO",
        ).with_header("Accept", "application/sdp").with_header("Supported", "replaces, timer");
        assert(r@.headers =~= capability_headers(call_id@));
        assert(r@.body =~= Seq::empty());
        Ok(Some(Message::Response(r)))
    }

    /// Handle CANCEL request.
    fn handle_cancel(&mut self, request: Request) -> (r: Result<Option<Message>, B2buaError>)
        ensures
            (final(self).sessions(), answer_view(r)) == on_cancel(old(self).sessions(), request@),
    {
        let call_id = match header_text_of(&request, "Call-ID") {
            Some(c) => c,
            None => {
                return Err(B2buaError::NoCallId);
            },
        };
        let i = self.position(call_id);
        if i < self.sessions.len() {
            let pending = match self.sessions[i].state() {
                SessionState::Initial => true,
                SessionState::Ringing => true,
                _ => false,
            };
            if pending {
                let ghost before = self.sessions();
                let mut session = self.sessions.remove(i);
                session.set_state(SessionState::Terminating);
                self.sessions.insert(i, session);
                assert(self.sessions() =~= before.update(
                    i as int,
                    SessionView { state: SessionState::Terminating, ..before[i as int] },
                ));
            }
        }
        Ok(Some(answer(200, call_id)))
    }
}

impl Default for B2BUA {
    fn default() -> (r: Self)
        ensures
            r.wf(),
            r.sessions() == Seq::<SessionView>::empty(),
    {
        B2BUA::new()
    }
}

} // verus!
