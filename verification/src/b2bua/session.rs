//! Session management for B2BUA.

use vstd::prelude::*;
use vstd::string::*;
use crate::b2bua::call_leg::{CallLeg, LegView};

verus! {

/// Whether a character is a hexadecimal digit in lower case.
pub open spec fn is_lower_hex(c: char) -> bool {
    ('0' <= c && c <= '9') || ('a' <= c && c <= 'f')
}

/// Whether a text has the form of a random UUID: 36 characters, which are
/// hexadecimal digits in lower case but for the hyphens at the places 8,
/// 13, 18 and 23; the digit at the place 14 is the version, `4`, and the
/// digit at the place 19 holds the variant: `8`, `9`, `a` or `b`.
pub open spec fn is_uuid_text(s: Seq<char>) -> bool {
    &&& s.len() == 36
    &&& forall|i: int|
        0 <= i < 36 ==> if i == 8 || i == 13 || i == 18 || i == 23 {
            #[trigger] s[i] == '-'
        } else {
            is_lower_hex(s[i])
        }
    &&& s[14] == '4'
    &&& s[19] == '8' || s[19] == '9' || s[19] == 'a' || s[19] == 'b'
}

/// The text of `uuid::Uuid::new_v4()`, a random identifier. Which
/// identifier it is cannot be said; the text always has the hyphenated
/// lower-case form of a UUID of version 4.
#[verifier::external_body]
pub(crate) fn random_uuid() -> (r: String)
    ensures
        is_uuid_text(r@),
{
    uuid::Uuid::new_v4().to_string()
}

/// Unique session identifier.
#[derive(Debug, Clone, PartialEq, Eq, Hash)]
pub struct SessionId(String);

impl View for SessionId {
    type V = Seq<char>;

    closed spec fn view(&self) -> Seq<char> {
        self.0@
    }
}

impl SessionId {
    /// A fresh random identifier: the text of a random UUID.
    pub fn new() -> (r: Self)
        ensures
            is_uuid_text(r@),
    {
        SessionId(random_uuid())
    }

    /// The identifier with the given text.
    pub fn from_string(id: String) -> (r: Self)
        ensures
            r@ == id@,
    {
        SessionId(id)
    }

    pub fn as_str(&self) -> (s: &str)
        ensures
            s@ == self@,
    {
        self.0.as_str()
    }

    pub fn to_string(&self) -> (s: String)
        ensures
            s@ == self@,
    {
        self.0.clone()
    }

    /// A copy of this identifier.
    pub fn duplicate(&self) -> (r: Self)
        ensures
            r@ == self@,
    {
        SessionId(self.0.clone())
    }
}

impl Default for SessionId {
    fn default() -> Self {
        SessionId::new()
    }
}

/// Session state.
#[derive(Debug, Clone, Copy, PartialEq, Eq, Structural)]
pub enum SessionState {
    /// Initial state
    Initial,
    /// Ringing
    Ringing,
    /// Call established
    Established,
    /// Call being terminated
    Terminating,
    /// Call terminated
    Terminated,
}

/// What happens to a session.
#[derive(Debug, Clone, Copy, PartialEq, Eq, Structural)]
pub enum SessionEvent {
    /// A `180 Ringing` or `183 Session Progress` arrived
    Progress,
    /// A 2xx final response arrived
    Answered,
    /// A 3xx, 4xx, 5xx or 6xx final response arrived
    Failed,
    /// A CANCEL arrived
    Cancelled,
    /// A BYE arrived
    Hangup,
    /// A timer ran out
    Timeout,
    /// The teardown is complete
    Closed,
}

/// The state after an event:
///
/// ```text
/// Initial --Progress--> Ringing --Answered--> Established
/// Initial, Ringing, Established --Failed, Cancelled, Hangup, Timeout--> Terminating
/// Terminating --Closed, Answered--> Terminated
/// ```
///
/// An answer also establishes a session that never rang. Every other event
/// leaves the state as it is.
pub open spec fn state_after(state: SessionState, event: SessionEvent) -> SessionState {
    match (state, event) {
        (SessionState::Initial, SessionEvent::Progress) => SessionState::Ringing,
        (SessionState::Initial, SessionEvent::Answered) => SessionState::Established,
        (SessionState::Ringing, SessionEvent::Answered) => SessionState::Established,
        (SessionState::Terminating, SessionEvent::Closed) => SessionState::Terminated,
        (SessionState::Terminating, SessionEvent::Answered) => SessionState::Terminated,
        (SessionState::Terminating, _) => SessionState::Terminating,
        (SessionState::Terminated, _) => SessionState::Terminated,
        (_, SessionEvent::Failed) => SessionState::Terminating,
        (_, SessionEvent::Cancelled) => SessionState::Terminating,
        (_, SessionEvent::Hangup) => SessionState::Terminating,
        (_, SessionEvent::Timeout) => SessionState::Terminating,
        (s, _) => s,
    }
}

/// The event that a response with the given status is: none for the other
/// provisional responses and for codes outside 100..699.
pub open spec fn event_of_status(status: u16) -> Option<SessionEvent> {
    if status == 180 || status == 183 {
        Some(SessionEvent::Progress)
    } else if 200 <= status < 300 {
        Some(SessionEvent::Answered)
    } else if 300 <= status < 700 {
        Some(SessionEvent::Failed)
    } else {
        None
    }
}

impl SessionState {
    /// The state after `event`.
    pub fn after(self, event: SessionEvent) -> (r: SessionState)
        ensures
            r == state_after(self, event),
    {
        match (self, event) {
            (SessionState::Initial, SessionEvent::Progress) => SessionState::Ringing,
            (SessionState::Initial, SessionEvent::Answered) => SessionState::Established,
            (SessionState::Ringing, SessionEvent::Answered) => SessionState::Established,
            (SessionState::Terminating, SessionEvent::Closed) => SessionState::Terminated,
            (SessionState::Terminating, SessionEvent::Answered) => SessionState::Terminated,
            (SessionState::Terminating, _) => SessionState::Terminating,
            (SessionState::Terminated, _) => SessionState::Terminated,
            (_, SessionEvent::Failed) => SessionState::Terminating,
            (_, SessionEvent::Cancelled) => SessionState::Terminating,
            (_, SessionEvent::Hangup) => SessionState::Terminating,
            (_, SessionEvent::Timeout) => SessionState::Terminating,
            (s, _) => s,
        }
    }
}

/// The event that a response with the given status is.
pub fn status_event(status: u16) -> (r: Option<SessionEvent>)
    ensures
        r == event_of_status(status),
{
    if status == 180 || status == 183 {
        Some(SessionEvent::Progress)
    } else if 200 <= status && status < 300 {
        Some(SessionEvent::Answered)
    } else if 300 <= status && status < 700 {
        Some(SessionEvent::Failed)
    } else {
        None
    }
}

/// No event brings a session back: a terminated session stays terminated,
/// and a session that is being terminated is never established again.
pub proof fn lemma_teardown_is_final(state: SessionState, event: SessionEvent)
    ensures
        state == SessionState::Terminated ==> state_after(state, event) == SessionState::Terminated,
        state == SessionState::Terminating ==> state_after(state, event)
            == SessionState::Terminating || state_after(state, event) == SessionState::Terminated,
{
}

/// What a session holds.
pub struct SessionView {
    pub id: Seq<char>,
    pub call_id: Seq<char>,
    pub state: SessionState,
    pub a_leg: Option<LegView>,
    pub b_leg: Option<LegView>,
}

/// Call session between two legs.
#[derive(Debug, Clone)]
pub struct Session {
    id: SessionId,
    call_id: String,
    state: SessionState,
    a_leg: Option<CallLeg>,
    b_leg: Option<CallLeg>,
}

pub open spec fn leg_view(o: Option<CallLeg>) -> Option<LegView> {
    match o {
        Some(l) => Some(l@),
        None => None,
    }
}

impl View for Session {
    type V = SessionView;

    closed spec fn view(&self) -> SessionView {
        SessionView {
            id: self.id@,
            call_id: self.call_id@,
            state: self.state,
            a_leg: leg_view(self.a_leg),
            b_leg: leg_view(self.b_leg),
        }
    }
}

impl Session {
    /// A session for `call_id` under a fresh random identifier.
    pub fn new(call_id: String) -> (r: Self)
        ensures
            is_uuid_text(r@.id),
            r@.call_id == call_id@,
            r@.state == SessionState::Initial,
            r@.a_leg is None,
            r@.b_leg is None,
    {
        Session::with_id(SessionId::new(), call_id)
    }

    /// A session for `call_id` under the identifier `id`.
    pub fn with_id(id: SessionId, call_id: String) -> (r: Self)
        ensures
            r@ == (SessionView {
                id: id@,
                call_id: call_id@,
                state: SessionState::Initial,
                a_leg: None,
                b_leg: None,
            }),
    {
        Session { id, call_id, state: SessionState::Initial, a_leg: None, b_leg: None }
    }

    pub fn id(&self) -> (r: &SessionId)
        ensures
            r@ == self@.id,
    {
        &self.id
    }

    pub fn call_id(&self) -> (r: &str)
        ensures
            r@ == self@.call_id,
    {
        self.call_id.as_str()
    }

    pub fn state(&self) -> (r: SessionState)
        ensures
            r == self@.state,
    {
        self.state
    }

    pub fn set_state(&mut self, state: SessionState)
        ensures
            final(self)@ == (SessionView { state, ..old(self)@ }),
    {
        self.state = state;
    }

    /// Moves the session to the state after `event`.
    pub fn apply(&mut self, event: SessionEvent)
        ensures
            final(self)@ == (SessionView {
                state: state_after(old(self)@.state, event),
                ..old(self)@
            }),
    {
        self.state = self.state.after(event);
    }

    pub fn a_leg(&self) -> (r: Option<&CallLeg>)
        ensures
            match r {
                Some(l) => self@.a_leg == Some(l@),
                None => self@.a_leg is None,
            },
    {
        self.a_leg.as_ref()
    }

    pub fn b_leg(&self) -> (r: Option<&CallLeg>)
        ensures
            match r {
                Some(l) => self@.b_leg == Some(l@),
                None => self@.b_leg is None,
            },
    {
        self.b_leg.as_ref()
    }

    pub fn set_a_leg(&mut self, leg: CallLeg)
        ensures
            final(self)@ == (SessionView { a_leg: Some(leg@), ..old(self)@ }),
    {
        self.a_leg = Some(leg);
    }

    pub fn set_b_leg(&mut self, leg: CallLeg)
        ensures
            final(self)@ == (SessionView { b_leg: Some(leg@), ..old(self)@ }),
    {
        self.b_leg = Some(leg);
    }
}

} // verus!
