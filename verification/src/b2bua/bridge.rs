//! The bridge between the two legs of a call: it holds the calls in
//! progress and, for each message that arrives, sends what the call asks
//! for and moves the call on.

use vstd::prelude::*;
use vstd::string::*;
use crate::b2bua::call::{
    action_views, all_alive, apart, bridged, call_id_on, call_views, callee_leg, caller_leg,
    capabilities, dispatched, found, heard, index_of_session, index_on, offer_of, on_ack, on_bye,
    on_callee_response, on_cancel, on_invite, on_request, on_response, on_timeout, opened,
    opposite_leg, passed_on, relayed, relayed_body, reply_to, toward_caller, unknown_address,
    usable, with_opposite, Action, Call, CallView, Fresh, FreshView, Side,
};
use crate::b2bua::call_leg::{CallLeg, LegView};
use crate::b2bua::dialog::{compose, cseq_after};
use crate::b2bua::invariants::{
    lemma_dispatch_keeps_calls_alive, lemma_dispatch_keeps_calls_apart, lemma_follows_alive,
    lemma_follows_apart,
};
use crate::b2bua::party::{
    callee_for, uri_of_caller, without_tag, Endpoint, EndpointView,
};
use crate::b2bua::policy::{plan_invite, InvitePlan};
use crate::b2bua::reply::{answer, echo_headers, respond};
use crate::b2bua::session::{
    is_uuid_text, random_uuid, status_event, Session, SessionEvent, SessionId, SessionState,
};
use crate::ip::{IpAddress, SocketAddress};
use crate::media::codec::Codec;
use crate::media::sdp::{SdpSession, SdpView};
use crate::media::{negotiate, CodecConfig};
use crate::routing::evaluator::{evaluate_routes, CallContext};
use crate::routing::matcher::{Moment, TimeProvider};
use crate::routing::{RouteRule, RoutingConfig};
use crate::sip::header::{header_value, header_views, Header};
use crate::sip::message::{append_bytes, bytes_of, Message, Request, Response};
use crate::sip::method::Method;
use crate::sip::parser::utf8_text;
use crate::sip::uri::{uri_text, Uri, UriView};
use crate::text::{append_str, chars_of, opt_str, or_empty, str_eq, string_of};

verus! {

// ---------------------------------------------------------------------------
// The bridge
// ---------------------------------------------------------------------------

/// The bridge: the calls in progress, and what decides where a call goes.
pub struct Bridge {
    endpoint: Endpoint,
    routes: RoutingConfig,
    codecs: CodecConfig,
    calls: Vec<Call>,
}

/// A place in the list of calls, as a number, and a side.
pub open spec fn side_view(o: Option<(usize, Side)>) -> Option<(int, Side)> {
    match o {
        Some((i, side)) => Some((i as int, side)),
        None => None,
    }
}

/// The call of a Call-ID is at `r` where no call before `r` has the
/// Call-ID and the call at `r`, if there is one, has it.
pub proof fn lemma_index_on_is(
    calls: Seq<CallView>,
    side: Side,
    call_id: Seq<char>,
    from: int,
    r: int,
)
    requires
        0 <= from <= r <= calls.len(),
        forall|j: int| from <= j < r ==> call_id_on(calls[j], side) != call_id,
        r < calls.len() ==> call_id_on(calls[r], side) == call_id,
    ensures
        index_on(calls, side, call_id, from) == r,
    decreases r - from,
{
    if from < r {
        lemma_index_on_is(calls, side, call_id, from + 1, r);
    }
}

/// The call of a session is at `r` where no call before `r` has the
/// session and the call at `r`, if there is one, has it.
pub proof fn lemma_index_of_session_is(calls: Seq<CallView>, id: Seq<char>, from: int, r: int)
    requires
        0 <= from <= r <= calls.len(),
        forall|j: int| from <= j < r ==> calls[j].session.id != id,
        r < calls.len() ==> calls[r].session.id == id,
    ensures
        index_of_session(calls, id, from) == r,
    decreases r - from,
{
    if from < r {
        lemma_index_of_session_is(calls, id, from + 1, r);
    }
}

fn request_header<'a>(request: &'a Request, name: &str) -> (r: Option<&'a str>)
    ensures
        opt_str(r) == header_value(request@.headers, name@),
{
    request.get_header_value(name)
}

fn response_header<'a>(response: &'a Response, name: &str) -> (r: Option<&'a str>)
    ensures
        opt_str(r) == header_value(response@.headers, name@),
{
    response.get_header_value(name)
}

fn body_of(b: &bytes::Bytes) -> (r: Vec<u8>)
    ensures
        r@ == bytes_of(*b),
{
    let mut out: Vec<u8> = Vec::new();
    append_bytes(&mut out, b);
    assert(out@ =~= bytes_of(*b));
    out
}

pub(crate) fn reply(request: &Request, status: u16, tag: &str) -> (r: Action)
    ensures
        r@ == reply_to(request@, status, tag@),
{
    let echo = echo_headers(&request.headers, tag);
    let none: Vec<Header> = Vec::new();
    assert(header_views(none@) =~= Seq::empty());
    Action::Reply(Message::Response(answer(status, &echo, &none)))
}

fn pass_on(
    call: &Call,
    from: Side,
    leg: &CallLeg,
    e: &Endpoint,
    method: Method,
    cseq: u32,
    branch: &str,
    content_type: Option<&str>,
    body: Vec<u8>,
) -> (r: Action)
    ensures
        r@ == passed_on(
            call@,
            from,
            leg@,
            e@,
            method@,
            cseq,
            branch@,
            opt_str(content_type),
            body@,
        ),
{
    let via = e.via(branch);
    match from {
        Side::Caller => {
            let request = compose(
                leg,
                method,
                call.callee_uri.duplicate(),
                via.as_str(),
                call.callee_call_id.as_str(),
                cseq,
                e.max_forwards,
                content_type,
                body,
            );
            let target = match &leg.contact {
                Some(t) => t.clone(),
                None => String::new(),
            };
            Action::ToCallee { message: Message::Request(request), target }
        },
        Side::Callee => {
            let mut back = leg.duplicate();
            back.from_uri = leg.to_uri.clone();
            back.to_uri = leg.from_uri.clone();
            assert(back@ == toward_caller(leg@));
            let request = compose(
                &back,
                method,
                call.caller_uri.duplicate(),
                via.as_str(),
                call.session.call_id(),
                cseq,
                e.max_forwards,
                content_type,
                body,
            );
            Action::ToCaller { message: Message::Request(request), address: leg.remote_addr }
        },
    }
}

/// What an offer that was read holds.
pub open spec fn offer_view(r: Result<Option<SdpSession>, ()>) -> Result<Option<SdpView>, ()> {
    match r {
        Ok(Some(d)) => Ok(Some(d@)),
        Ok(None) => Ok(None),
        Err(_) => Err(()),
    }
}

/// Reads the description that the body of an INVITE offers.
pub fn read_offer(body: &Vec<u8>) -> (r: Result<Option<SdpSession>, ()>)
    ensures
        offer_view(r) == offer_of(body@),
{
    if body.len() == 0 {
        return Ok(None);
    }
    match utf8_text(body.as_slice()) {
        None => Err(()),
        Some(text) => {
            proof {
                vstd::utf8::encode_utf8_decode_utf8(text@);
            }
            match SdpSession::parse(text) {
                Ok(d) => Ok(Some(d)),
                Err(_) => Err(()),
            }
        },
    }
}

/// What the decision on an INVITE holds.
pub open spec fn bridged_view(r: Result<(Uri, String, Option<SdpSession>), u16>) -> Result<
    (UriView, Seq<char>, Option<SdpView>),
    u16,
> {
    match r {
        Ok((uri, target, Some(d))) => Ok((uri@, target@, Some(d@))),
        Ok((uri, target, None)) => Ok((uri@, target@, None)),
        Err(status) => Err(status),
    }
}

fn text_or_empty(o: Option<&str>) -> (s: String)
    ensures
        s@ == or_empty(opt_str(o)),
{
    match o {
        Some(t) => t.to_owned(),
        None => String::new(),
    }
}

fn user_of(uri: &Uri) -> (r: Option<&str>)
    ensures
        opt_str(r) == uri@.user,
{
    match &uri.user {
        Some(u) => Some(u.as_str()),
        None => None,
    }
}

/// Decides where the B leg of an INVITE goes, and with which description,
/// or with which status the INVITE is refused. `body` is the body of the
/// request.
pub fn bridge_invite(
    e: &Endpoint,
    routes: &Vec<RouteRule>,
    codecs: &CodecConfig,
    request: &Request,
    body: &Vec<u8>,
    now: &Moment,
) -> (r: Result<(Uri, String, Option<SdpSession>), u16>)
    requires
        body@ == request@.body,
    ensures
        bridged_view(r) == bridged(e@, routes@, codecs.codecs@, request@, *now),
{
    let context = CallContext {
        caller_id: text_or_empty(request_header(request, "From")),
        destination: text_or_empty(user_of(&request.uri)),
    };
    let route = evaluate_routes(routes, &context, now);
    let offer = read_offer(body);
    let plan = plan_invite(
        route,
        match &offer {
            Ok(Some(d)) => Some(d),
            _ => None,
        },
        codecs,
        e.connection.as_str(),
        e.rtp_port,
    );
    match plan {
        InvitePlan::Refuse { refusal } => Err(refusal.status().0),
        InvitePlan::Forward { destination, sdp } => match callee_for(
            &destination,
            user_of(&request.uri),
            e.domain.as_str(),
        ) {
            None => Err(403),
            Some((uri, target)) => match offer {
                Err(_) => Err(488),
                Ok(_) => Ok((uri, target, sdp)),
            },
        },
    }
}

/// What a leg that may be absent holds.
pub open spec fn leg_view(o: Option<CallLeg>) -> Option<LegView> {
    match o {
        Some(l) => Some(l@),
        None => None,
    }
}

fn opposite(call: &Call, side: Side) -> (r: Option<CallLeg>)
    ensures
        leg_view(r) == opposite_leg(call@, side),
{
    let leg = match side {
        Side::Caller => call.session.b_leg(),
        Side::Callee => call.session.a_leg(),
    };
    match leg {
        Some(l) => Some(l.duplicate()),
        None => None,
    }
}

fn set_opposite(call: &mut Call, side: Side, leg: CallLeg, state: SessionState)
    ensures
        final(call)@ == with_opposite(old(call)@, side, leg@, state),
{
    match side {
        Side::Caller => call.session.set_b_leg(leg),
        Side::Callee => call.session.set_a_leg(leg),
    }
    call.session.set_state(state);
}

impl Bridge {
    /// The calls in progress.
    pub closed spec fn calls(&self) -> Seq<CallView> {
        call_views(self.calls@)
    }

    /// What the B2BUA is on the network.
    pub closed spec fn setting(&self) -> EndpointView {
        self.endpoint@
    }

    /// The routes by which the B leg of a call is chosen.
    pub closed spec fn rules(&self) -> Seq<RouteRule> {
        self.routes.routes@
    }

    /// The codecs that the B2BUA offers.
    pub closed spec fn codec_list(&self) -> Seq<Codec> {
        self.codecs.codecs@
    }

    /// A bridge without calls.
    pub fn new(endpoint: Endpoint, routes: RoutingConfig, codecs: CodecConfig) -> (r: Self)
        ensures
            r.wf(),
            r.calls() == Seq::<CallView>::empty(),
            r.setting() == endpoint@,
            r.rules() == routes.routes@,
            r.codec_list() == codecs.codecs@,
    {
        let r = Bridge { endpoint, routes, codecs, calls: Vec::new() };
        assert(call_views(r.calls@) =~= Seq::empty());
        r
    }

    /// What the B2BUA is on the network.
    pub fn endpoint(&self) -> (r: &Endpoint)
        ensures
            r@ == self.setting(),
    {
        &self.endpoint
    }

    /// The routes by which the B leg of a call is chosen.
    pub fn routes(&self) -> (r: &RoutingConfig)
        ensures
            r.routes@ == self.rules(),
    {
        &self.routes
    }

    /// The codecs that the B2BUA offers.
    pub fn codecs(&self) -> (r: &CodecConfig)
        ensures
            r.codecs@ == self.codec_list(),
    {
        &self.codecs
    }

    /// Replaces the routes; the calls in progress stay as they are.
    pub fn set_routes(&mut self, routes: RoutingConfig)
        ensures
            final(self).rules() == routes.routes@,
            final(self).calls() == old(self).calls(),
            final(self).setting() == old(self).setting(),
            final(self).codec_list() == old(self).codec_list(),
    {
        self.routes = routes;
    }

    /// Replaces the codecs; the calls in progress stay as they are.
    pub fn set_codecs(&mut self, codecs: CodecConfig)
        ensures
            final(self).codec_list() == codecs.codecs@,
            final(self).calls() == old(self).calls(),
            final(self).setting() == old(self).setting(),
            final(self).rules() == old(self).rules(),
    {
        self.codecs = codecs;
    }

    /// The number of calls in progress.
    pub fn call_count(&self) -> (n: usize)
        ensures
            n == self.calls().len(),
    {
        self.calls.len()
    }

    fn position(&self, side: Side, call_id: &str) -> (i: usize)
        ensures
            i == index_on(self.calls(), side, call_id@, 0),
            i <= self.calls.len(),
    {
        let mut i: usize = 0;
        while i < self.calls.len()
            invariant
                i <= self.calls.len(),
                forall|j: int|
                    0 <= j < i ==> call_id_on(#[trigger] self.calls()[j], side) != call_id@,
            decreases self.calls.len() - i,
        {
            assert(self.calls()[i as int] == self.calls@[i as int]@);
            let same = match side {
                Side::Caller => str_eq(self.calls[i].session.call_id(), call_id),
                Side::Callee => str_eq(
                    self.calls[i].callee_call_id.as_str(),
                    call_id,
                ),
            };
            if same {
                proof {
                    lemma_index_on_is(self.calls(), side, call_id@, 0, i as int);
                }
                return i;
            }
            i += 1;
        }
        proof {
            lemma_index_on_is(self.calls(), side, call_id@, 0, i as int);
        }
        i
    }

    fn session_position(&self, id: &str) -> (i: usize)
        ensures
            i == index_of_session(self.calls(), id@, 0),
            i <= self.calls.len(),
    {
        let mut i: usize = 0;
        while i < self.calls.len()
            invariant
                i <= self.calls.len(),
                forall|j: int| 0 <= j < i ==> (#[trigger] self.calls()[j]).session.id != id@,
            decreases self.calls.len() - i,
        {
            assert(self.calls()[i as int] == self.calls@[i as int]@);
            if str_eq(self.calls[i].session.id().as_str(), id) {
                proof {
                    lemma_index_of_session_is(self.calls(), id@, 0, i as int);
                }
                return i;
            }
            i += 1;
        }
        proof {
            lemma_index_of_session_is(self.calls(), id@, 0, i as int);
        }
        i
    }

    fn find(&self, call_id: &str) -> (r: Option<(usize, Side)>)
        ensures
            side_view(r) == found(self.calls(), call_id@),
            match r {
                Some((i, _)) => i < self.calls.len(),
                None => true,
            },
    {
        let a = self.position(Side::Caller, call_id);
        if a < self.calls.len() {
            return Some((a, Side::Caller));
        }
        let b = self.position(Side::Callee, call_id);
        if b < self.calls.len() {
            Some((b, Side::Callee))
        } else {
            None
        }
    }

    /// The call that a Call-ID belongs to, and the side on which it does.
    pub fn find_call(&self, call_id: &str) -> (r: Option<(&Call, Side)>)
        ensures
            match r {
                Some((call, side)) => match found(self.calls(), call_id@) {
                    Some((i, s)) => 0 <= i < self.calls().len() && call@ == self.calls()[i] && side
                        == s,
                    None => false,
                },
                None => found(self.calls(), call_id@) is None,
            },
    {
        match self.find(call_id) {
            Some((i, side)) => {
                assert(self.calls()[i as int] == self.calls@[i as int]@);
                Some((&self.calls[i], side))
            },
            None => None,
        }
    }

    fn is_usable(&self, call_id: &str, fresh: &Fresh) -> (b: bool)
        ensures
            b == usable(self.calls(), call_id@, fresh@),
    {
        if str_eq(fresh.call_id.as_str(), call_id) {
            return false;
        }
        match self.find(fresh.call_id.as_str()) {
            Some(_) => false,
            None => self.session_position(fresh.session.as_str()) == self.calls.len(),
        }
    }
}

fn unknown() -> (r: SocketAddress)
    ensures
        r == unknown_address(),
{
    SocketAddress { ip: IpAddress::V4(0), port: 0 }
}

fn leg_of_caller(request: &Request, source: SocketAddress, tag: &str) -> (r: CallLeg)
    ensures
        r@ == caller_leg(request@, source, tag@),
{
    CallLeg {
        remote_addr: source,
        from_uri: text_or_empty(request_header(request, "From")),
        to_uri: text_or_empty(request_header(request, "To")),
        contact: match request_header(request, "Contact") {
            Some(c) => Some(c.to_owned()),
            None => None,
        },
        sdp: None,
        local_tag: tag.to_owned(),
        cseq: 0,
    }
}

fn leg_of_callee(
    request: &Request,
    e: &Endpoint,
    uri: &Uri,
    target: &str,
    sdp: &Option<SdpSession>,
    tag: &str,
) -> (r: CallLeg)
    ensures
        r@ == callee_leg(
            request@,
            e@,
            uri@,
            target@,
            sdp_view(*sdp),
            tag@,
        ),
{
    let from = match request_header(request, "From") {
        Some(f) => without_tag(f),
        None => {
            let mut v = chars_of("<sip:");
            append_str(&mut v, e.domain.as_str());
            v.push('>');
            assert(v@ =~= "<sip:"@ + e@.domain + seq!['>']);
            string_of(&v)
        },
    };
    let mut to: Vec<char> = Vec::new();
    to.push('<');
    append_str(&mut to, uri.to_string().as_str());
    to.push('>');
    assert(to@ =~= seq!['<'] + uri_text(uri@) + seq!['>']);
    CallLeg {
        remote_addr: unknown(),
        from_uri: from,
        to_uri: string_of(&to),
        contact: Some(target.to_owned()),
        sdp: match sdp {
            Some(d) => Some(d.to_string()),
            None => None,
        },
        local_tag: tag.to_owned(),
        cseq: 0,
    }
}

/// What a description that may be absent holds.
pub open spec fn sdp_view(o: Option<SdpSession>) -> Option<SdpView> {
    match o {
        Some(d) => Some(d@),
        None => None,
    }
}

fn open_call(
    e: &Endpoint,
    request: &Request,
    call_id: &str,
    source: SocketAddress,
    fresh: &Fresh,
    uri: Uri,
    target: String,
    sdp: Option<SdpSession>,
) -> (r: (Call, Action))
    ensures
        (r.0@, r.1@) == opened(
            e@,
            request@,
            call_id@,
            source,
            fresh@,
            uri@,
            target@,
            sdp_view(sdp),
        ),
{
    let tag = fresh.caller_tag.as_str();
    let leg = leg_of_callee(request, e, &uri, target.as_str(), &sdp, fresh.callee_tag.as_str());
    let mut sent = leg.duplicate();
    sent.cseq = 1;
    let mut session = Session::with_id(
        SessionId::from_string(fresh.session.clone()),
        call_id.to_owned(),
    );
    session.set_a_leg(leg_of_caller(request, source, tag));
    session.set_b_leg(sent);
    let call = Call {
        session,
        callee_call_id: fresh.call_id.clone(),
        caller_uri: uri_of_caller(&request.headers, e.domain.as_str()),
        callee_uri: uri,
        branch: fresh.branch.clone(),
        echo: echo_headers(&request.headers, tag),
    };
    let (content_type, content) = match &sdp {
        Some(d) => (Some("application/sdp"), d.to_string().as_str().as_bytes_vec()),
        None => (None, Vec::new()),
    };
    let invite = pass_on(
        &call,
        Side::Caller,
        &leg,
        e,
        Method::Invite,
        1,
        fresh.branch.as_str(),
        content_type,
        content,
    );
    (call, invite)
}

impl Bridge {
    /// Handle INVITE request.
    fn handle_invite(
        &mut self,
        request: &Request,
        call_id: &str,
        source: SocketAddress,
        now: &Moment,
        fresh: &Fresh,
    ) -> (r: Vec<Action>)
        ensures
            (final(self).calls(), action_views(r@)) == on_invite(
                old(self).calls(),
                old(self).endpoint@,
                old(self).routes.routes@,
                old(self).codecs.codecs@,
                request@,
                call_id@,
                source,
                *now,
                fresh@,
            ),
            final(self).endpoint == old(self).endpoint,
            final(self).routes == old(self).routes,
            final(self).codecs == old(self).codecs,
    {
        let tag = fresh.caller_tag.as_str();
        let trying = reply(request, 100, tag);
        let mut out: Vec<Action> = Vec::new();
        out.push(trying);
        match self.find(call_id) {
            Some(_) => {
                assert(action_views(out@) =~= seq![trying@]);
                return out;
            },
            None => {},
        }
        let body = body_of(&request.body);
        match bridge_invite(&self.endpoint, &self.routes.routes, &self.codecs, request, &body, now) {
            Err(status) => {
                let refusal = reply(request, status, tag);
                out.push(refusal);
                assert(action_views(out@) =~= seq![trying@, refusal@]);
            },
            Ok((uri, target, sdp)) => {
                if !self.is_usable(call_id, fresh) {
                    let refusal = reply(request, 500, tag);
                    out.push(refusal);
                    assert(action_views(out@) =~= seq![trying@, refusal@]);
                } else {
                    let (call, invite) = open_call(
                        &self.endpoint,
                        request,
                        call_id,
                        source,
                        fresh,
                        uri,
                        target,
                        sdp,
                    );
                    out.push(invite);
                    assert(action_views(out@) =~= seq![trying@, invite@]);
                    let ghost before = self.calls();
                    self.calls.push(call);
                    assert(self.calls() =~= before.push(call@));
                }
            },
        }
        out
    }

    /// Handle ACK request.
    fn handle_ack(&mut self, request: &Request, call_id: &str, fresh: &Fresh) -> (r: Vec<Action>)
        ensures
            (final(self).calls(), action_views(r@)) == on_ack(
                old(self).calls(),
                old(self).endpoint@,
                request@,
                call_id@,
                fresh@,
            ),
            final(self).endpoint == old(self).endpoint,
            final(self).routes == old(self).routes,
            final(self).codecs == old(self).codecs,
    {
        let mut out: Vec<Action> = Vec::new();
        assert(action_views(out@) =~= Seq::empty());
        match self.find(call_id) {
            Some((i, side)) => {
                assert(self.calls()[i as int] == self.calls@[i as int]@);
                let call = &self.calls[i];
                match opposite(call, side) {
                    Some(leg) => {
                        match call.session.state() {
                            SessionState::Established => {
                                let ack = pass_on(
                                    call,
                                    side,
                                    &leg,
                                    &self.endpoint,
                                    Method::Ack,
                                    leg.cseq,
                                    fresh.branch.as_str(),
                                    request_header(request, "Content-Type"),
                                    body_of(&request.body),
                                );
                                out.push(ack);
                                assert(action_views(out@) =~= seq![ack@]);
                            },
                            _ => {},
                        }
                    },
                    None => {},
                }
            },
            None => {},
        }
        out
    }

    /// Handle BYE request.
    fn handle_bye(&mut self, request: &Request, call_id: &str, fresh: &Fresh) -> (r: Vec<Action>)
        ensures
            (final(self).calls(), action_views(r@)) == on_bye(
                old(self).calls(),
                old(self).endpoint@,
                request@,
                call_id@,
                fresh@,
            ),
            final(self).endpoint == old(self).endpoint,
            final(self).routes == old(self).routes,
            final(self).codecs == old(self).codecs,
    {
        let ok = reply(request, 200, fresh.caller_tag.as_str());
        let mut out: Vec<Action> = Vec::new();
        out.push(ok);
        assert(action_views(out@) =~= seq![ok@]);
        match self.find(call_id) {
            Some((i, side)) => {
                let ghost before = self.calls();
                assert(before[i as int] == self.calls@[i as int]@);
                let mut call = self.calls.remove(i);
                assert(self.calls() =~= before.remove(i as int));
                match opposite(&call, side) {
                    Some(leg) => {
                        match call.session.state() {
                            SessionState::Terminating => {},
                            _ => {
                                let mut next = leg.duplicate();
                                let n = next.next_cseq();
                                let bye = pass_on(
                                    &call,
                                    side,
                                    &leg,
                                    &self.endpoint,
                                    Method::Bye,
                                    n,
                                    fresh.branch.as_str(),
                                    None,
                                    Vec::new(),
                                );
                                out.push(bye);
                                assert(action_views(out@) =~= seq![ok@, bye@]);
                                set_opposite(&mut call, side, next, SessionState::Terminating);
                                self.calls.insert(i, call);
                                assert(self.calls() =~= before.update(i as int, call@));
                            },
                        }
                    },
                    None => {},
                }
            },
            None => {},
        }
        out
    }

    /// Handle CANCEL request.
    fn handle_cancel(&mut self, request: &Request, call_id: &str, fresh: &Fresh) -> (r: Vec<
        Action,
    >)
        ensures
            (final(self).calls(), action_views(r@)) == on_cancel(
                old(self).calls(),
                old(self).endpoint@,
                request@,
                call_id@,
                fresh@,
            ),
            final(self).endpoint == old(self).endpoint,
            final(self).routes == old(self).routes,
            final(self).codecs == old(self).codecs,
    {
        let ok = reply(request, 200, fresh.caller_tag.as_str());
        let mut out: Vec<Action> = Vec::new();
        out.push(ok);
        assert(action_views(out@) =~= seq![ok@]);
        match self.find(call_id) {
            Some((i, Side::Caller)) => {
                let ghost before = self.calls();
                assert(before[i as int] == self.calls@[i as int]@);
                let pending = match self.calls[i].session.state() {
                    SessionState::Initial => true,
                    SessionState::Ringing => true,
                    _ => false,
                };
                if pending {
                    let mut call = self.calls.remove(i);
                    assert(self.calls() =~= before.remove(i as int));
                    let none: Vec<Header> = Vec::new();
                    assert(header_views(none@) =~= Seq::empty());
                    let ended = Action::Reply(Message::Response(answer(487, &call.echo, &none)));
                    out.push(ended);
                    assert(action_views(out@) =~= seq![ok@, ended@]);
                    match opposite(&call, Side::Caller) {
                        Some(leg) => {
                            let cancel = pass_on(
                                &call,
                                Side::Caller,
                                &leg,
                                &self.endpoint,
                                Method::Cancel,
                                leg.cseq,
                                call.branch.as_str(),
                                None,
                                Vec::new(),
                            );
                            out.push(cancel);
                            assert(action_views(out@) =~= seq![ok@, ended@, cancel@]);
                            set_opposite(&mut call, Side::Caller, leg, SessionState::Terminating);
                            self.calls.insert(i, call);
                            assert(self.calls() =~= before.update(i as int, call@));
                        },
                        None => {},
                    }
                }
            },
            _ => {},
        }
        out
    }

    /// Handle SIP request.
    fn handle_request(
        &mut self,
        request: &Request,
        source: SocketAddress,
        now: &Moment,
        fresh: &Fresh,
    ) -> (r: Vec<Action>)
        ensures
            (final(self).calls(), action_views(r@)) == on_request(
                old(self).calls(),
                old(self).endpoint@,
                old(self).routes.routes@,
                old(self).codecs.codecs@,
                request@,
                source,
                *now,
                fresh@,
            ),
            final(self).endpoint == old(self).endpoint,
            final(self).routes == old(self).routes,
            final(self).codecs == old(self).codecs,
    {
        let name = request.method.as_str();
        let tag = fresh.caller_tag.as_str();
        if str_eq(name, "OPTIONS") {
            let echo = echo_headers(&request.headers, tag);
            let mut extra: Vec<Header> = Vec::new();
            extra.push(Header::new("Allow", "INVITE, ACK, BYE, CANCEL, OPTIONS, INFO"));
            extra.push(Header::new("Accept", "application/sdp"));
            extra.push(Header::new("Supported", "replaces, timer"));
            assert(header_views(extra@) =~= capabilities());
            let ok = Action::Reply(Message::Response(answer(200, &echo, &extra)));
            let mut out: Vec<Action> = Vec::new();
            out.push(ok);
            assert(action_views(out@) =~= seq![ok@]);
            return out;
        }
        let call_id = match request_header(request, "Call-ID") {
            Some(c) => c,
            None => {
                let mut out: Vec<Action> = Vec::new();
                if str_eq(name, "ACK") {
                    assert(action_views(out@) =~= Seq::empty());
                } else {
                    let bad = reply(request, 400, tag);
                    out.push(bad);
                    assert(action_views(out@) =~= seq![bad@]);
                }
                return out;
            },
        };
        if str_eq(name, "INVITE") {
            self.handle_invite(request, call_id, source, now, fresh)
        } else if str_eq(name, "ACK") {
            self.handle_ack(request, call_id, fresh)
        } else if str_eq(name, "BYE") {
            self.handle_bye(request, call_id, fresh)
        } else if str_eq(name, "CANCEL") {
            self.handle_cancel(request, call_id, fresh)
        } else {
            let no = reply(request, 501, tag);
            let mut out: Vec<Action> = Vec::new();
            out.push(no);
            assert(action_views(out@) =~= seq![no@]);
            out
        }
    }
}

fn relay_body(e: &Endpoint, codecs: &CodecConfig, body: Vec<u8>) -> (r: Vec<u8>)
    ensures
        r@ == relayed_body(e@, codecs.codecs@, body@),
{
    match read_offer(&body) {
        Ok(Some(d)) => match negotiate(&d, codecs, e.connection.as_str(), e.rtp_port) {
            Some(n) => n.to_string().as_str().as_bytes_vec(),
            None => body,
        },
        _ => body,
    }
}

fn relay(call: &Call, e: &Endpoint, codecs: &CodecConfig, response: &Response) -> (r: Response)
    ensures
        r@ == relayed(call@, e@, codecs.codecs@, response@),
{
    let none: Vec<Header> = Vec::new();
    assert(header_views(none@) =~= Seq::empty());
    respond(
        response.status_code,
        response.reason_phrase.as_str(),
        &call.echo,
        &none,
        response_header(response, "Content-Type"),
        relay_body(e, codecs, body_of(&response.body)),
    )
}

fn hear(leg: &CallLeg, response: &Response, source: SocketAddress) -> (r: CallLeg)
    ensures
        r@ == heard(leg@, response@, source),
{
    let mut r = leg.duplicate();
    r.remote_addr = source;
    match response_header(response, "To") {
        Some(to) => {
            r.to_uri = to.to_owned();
        },
        None => {},
    }
    r
}

impl Bridge {
    /// Handle a response of the callee to the INVITE of leg B.
    fn handle_callee_response(&mut self, response: &Response, source: SocketAddress, i: usize) -> (r:
        Vec<Action>)
        requires
            i < old(self).calls().len(),
        ensures
            (final(self).calls(), action_views(r@)) == on_callee_response(
                old(self).calls(),
                old(self).endpoint@,
                old(self).codecs.codecs@,
                response@,
                source,
                i as int,
            ),
            final(self).endpoint == old(self).endpoint,
            final(self).routes == old(self).routes,
            final(self).codecs == old(self).codecs,
    {
        let mut out: Vec<Action> = Vec::new();
        assert(action_views(out@) =~= Seq::empty());
        let ghost before = self.calls();
        assert(before[i as int] == self.calls@[i as int]@);
        let (a, b) = match (self.calls[i].session.a_leg(), self.calls[i].session.b_leg()) {
            (Some(a), Some(b)) => (a.duplicate(), b.duplicate()),
            _ => {
                return out;
            },
        };
        let status = response.status_code.0;
        if status == 100 {
            return out;
        }
        let mut call = self.calls.remove(i);
        assert(self.calls() =~= before.remove(i as int));
        let paired = Action::ToCaller {
            message: Message::Response(relay(&call, &self.endpoint, &self.codecs, response)),
            address: a.remote_addr,
        };
        out.push(paired);
        assert(action_views(out@) =~= seq![paired@]);
        let leg = hear(&b, response, source);
        match status_event(status) {
            Some(SessionEvent::Failed) => {
                let ack = pass_on(
                    &call,
                    Side::Caller,
                    &leg,
                    &self.endpoint,
                    Method::Ack,
                    b.cseq,
                    call.branch.as_str(),
                    None,
                    Vec::new(),
                );
                out.push(ack);
                assert(action_views(out@) =~= seq![paired@, ack@]);
            },
            Some(event) => {
                let state = call.session.state().after(event);
                set_opposite(&mut call, Side::Caller, leg, state);
                self.calls.insert(i, call);
                assert(self.calls() =~= before.update(i as int, call@));
            },
            None => {
                self.calls.insert(i, call);
                assert(self.calls() =~= before);
            },
        }
        out
    }

    /// Handle SIP response.
    fn handle_response(&mut self, response: &Response, source: SocketAddress) -> (r: Vec<Action>)
        ensures
            (final(self).calls(), action_views(r@)) == on_response(
                old(self).calls(),
                old(self).endpoint@,
                old(self).codecs.codecs@,
                response@,
                source,
            ),
            final(self).endpoint == old(self).endpoint,
            final(self).routes == old(self).routes,
            final(self).codecs == old(self).codecs,
    {
        let mut out: Vec<Action> = Vec::new();
        assert(action_views(out@) =~= Seq::empty());
        let call_id = match response_header(response, "Call-ID") {
            Some(c) => c,
            None => {
                return out;
            },
        };
        match self.find(call_id) {
            None => out,
            Some((i, side)) => {
                let ghost before = self.calls();
                assert(before[i as int] == self.calls@[i as int]@);
                match self.calls[i].session.state() {
                    SessionState::Terminating => {
                        if response.status_code.0 >= 200 {
                            let _ = self.calls.remove(i);
                            assert(self.calls() =~= before.remove(i as int));
                        }
                        out
                    },
                    _ => match side {
                        Side::Callee => self.handle_callee_response(response, source, i),
                        Side::Caller => out,
                    },
                }
            },
        }
    }

    /// Handles a message that came from `source` at the time `now`; a call
    /// that is created draws its texts from `fresh`.
    pub fn dispatch_with(
        &mut self,
        message: &Message,
        source: SocketAddress,
        now: &Moment,
        fresh: &Fresh,
    ) -> (r: Vec<Action>)
        ensures
            (final(self).calls(), action_views(r@)) == dispatched(
                old(self).calls(),
                old(self).setting(),
                old(self).rules(),
                old(self).codec_list(),
                message@,
                source,
                *now,
                fresh@,
            ),
            old(self).wf() ==> final(self).wf(),
            final(self).setting() == old(self).setting(),
            final(self).rules() == old(self).rules(),
            final(self).codec_list() == old(self).codec_list(),
    {
        proof {
            if self.wf() {
                lemma_dispatch_keeps_calls_alive(
                    self.calls(),
                    self.setting(),
                    self.rules(),
                    self.codec_list(),
                    message@,
                    source,
                    *now,
                    fresh@,
                );
                lemma_dispatch_keeps_calls_apart(
                    self.calls(),
                    self.setting(),
                    self.rules(),
                    self.codec_list(),
                    message@,
                    source,
                    *now,
                    fresh@,
                );
            }
        }
        match message {
            Message::Request(request) => self.handle_request(request, source, now, fresh),
            Message::Response(response) => self.handle_response(response, source),
        }
    }
}

impl Fresh {
    /// Draws fresh random texts: each is the text of a random UUID of its
    /// own.
    pub fn draw() -> (r: Self)
        ensures
            is_uuid_text(r@.session),
            is_uuid_text(r@.call_id),
            is_uuid_text(r@.caller_tag),
            is_uuid_text(r@.callee_tag),
            is_uuid_text(r@.branch),
    {
        Fresh {
            session: random_uuid(),
            call_id: random_uuid(),
            caller_tag: random_uuid(),
            callee_tag: random_uuid(),
            branch: random_uuid(),
        }
    }
}

impl Bridge {
    /// Whether the calls in progress are apart, and every one of them is
    /// alive.
    pub open spec fn wf(&self) -> bool {
        apart(self.calls()) && all_alive(self.calls())
    }

    /// Handles a message that came from `source`, at the time of `clock`;
    /// a call that is created draws fresh random texts.
    pub fn dispatch<P: TimeProvider>(
        &mut self,
        clock: &P,
        message: &Message,
        source: SocketAddress,
    ) -> (r: Vec<Action>)
        ensures
            exists|now: Moment, fresh: FreshView|
                (final(self).calls(), action_views(r@)) == dispatched(
                    old(self).calls(),
                    old(self).setting(),
                    old(self).rules(),
                    old(self).codec_list(),
                    message@,
                    source,
                    now,
                    fresh,
                ),
            old(self).wf() ==> final(self).wf(),
            final(self).setting() == old(self).setting(),
            final(self).rules() == old(self).rules(),
            final(self).codec_list() == old(self).codec_list(),
    {
        let now = clock.now();
        let fresh = Fresh::draw();
        self.dispatch_with(message, source, &now, &fresh)
    }
}

// ---------------------------------------------------------------------------
// Timers
// ---------------------------------------------------------------------------

fn next_after(cseq: u32) -> (n: u32)
    ensures
        n == cseq_after(cseq),
{
    if cseq < u32::MAX {
        cseq + 1
    } else {
        cseq
    }
}

impl Bridge {
    /// The calls in progress.
    pub fn calls_in_progress(&self) -> (r: &Vec<Call>)
        ensures
            call_views(r@) == self.calls(),
    {
        &self.calls
    }

    /// Ends the call of `call_id`, on either leg, because its timer ran
    /// out.
    pub fn time_out(&mut self, call_id: &str, fresh: &Fresh) -> (r: Vec<Action>)
        ensures
            (final(self).calls(), action_views(r@)) == on_timeout(
                old(self).calls(),
                old(self).setting(),
                call_id@,
                fresh@,
            ),
            old(self).wf() ==> final(self).wf(),
            final(self).setting() == old(self).setting(),
            final(self).rules() == old(self).rules(),
            final(self).codec_list() == old(self).codec_list(),
    {
        let mut out: Vec<Action> = Vec::new();
        assert(action_views(out@) =~= Seq::empty());
        let i = match self.find(call_id) {
            Some((i, _)) => i,
            None => {
                return out;
            },
        };
        let ghost before = self.calls();
        assert(before[i as int] == self.calls@[i as int]@);
        let call = self.calls.remove(i);
        assert(self.calls() =~= before.remove(i as int));
        proof {
            if apart(before) {
                lemma_follows_apart(before, before.remove(i as int));
            }
            if all_alive(before) {
                lemma_follows_alive(before, before.remove(i as int));
            }
        }
        let (a, b) = match (call.session.a_leg(), call.session.b_leg()) {
            (Some(a), Some(b)) => (a, b),
            _ => {
                return out;
            },
        };
        match call.session.state() {
            SessionState::Initial | SessionState::Ringing => {
                let none: Vec<Header> = Vec::new();
                assert(header_views(none@) =~= Seq::empty());
                let late = Action::ToCaller {
                    message: Message::Response(answer(408, &call.echo, &none)),
                    address: a.remote_addr,
                };
                let cancel = pass_on(
                    &call,
                    Side::Caller,
                    b,
                    &self.endpoint,
                    Method::Cancel,
                    b.cseq,
                    call.branch.as_str(),
                    None,
                    Vec::new(),
                );
                out.push(late);
                out.push(cancel);
                assert(action_views(out@) =~= seq![late@, cancel@]);
            },
            SessionState::Established => {
                let first = pass_on(
                    &call,
                    Side::Callee,
                    a,
                    &self.endpoint,
                    Method::Bye,
                    next_after(a.cseq),
                    fresh.branch.as_str(),
                    None,
                    Vec::new(),
                );
                let second = pass_on(
                    &call,
                    Side::Caller,
                    b,
                    &self.endpoint,
                    Method::Bye,
                    next_after(b.cseq),
                    fresh.branch.as_str(),
                    None,
                    Vec::new(),
                );
                out.push(first);
                out.push(second);
                assert(action_views(out@) =~= seq![first@, second@]);
            },
            _ => {},
        }
        out
    }
}

} // verus!
