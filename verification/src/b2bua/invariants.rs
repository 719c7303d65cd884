//! What holds of the calls through every message: the calls stay apart,
//! and every request that is sent is complete.

use vstd::prelude::*;
use vstd::string::*;
use crate::b2bua::call::{
    alive, all_alive, apart, bridged, call_id_on, callee_leg, dispatched, found, heard,
    index_of_session, index_on, on_ack, on_bye, on_cancel, on_invite, on_request, on_response,
    on_timeout, opened, opposite_leg, passed_on, sdp_body, sdp_type, sent, toward_caller,
    ActionView, CallView, FreshView, Side,
};
use crate::b2bua::call_leg::LegView;
use crate::b2bua::dialog::{cseq_after, lemma_originated_is_complete};
use crate::b2bua::party::{via_text, EndpointView};
use crate::b2bua::policy::{first_missing, required_headers};
use crate::ip::SocketAddress;
use crate::media::codec::Codec;
use crate::routing::matcher::Moment;
use crate::routing::RouteRule;
use crate::sip::header::header_value;
use crate::sip::message::{MessageView, RequestView, ResponseView};

verus! {

// ---------------------------------------------------------------------------
// The calls stay apart
// ---------------------------------------------------------------------------

/// Whether two calls have the same session and the same Call-IDs.
pub open spec fn same_ids(a: CallView, b: CallView) -> bool {
    a.session.id == b.session.id && a.session.call_id == b.session.call_id && a.callee_call_id
        == b.callee_call_id
}

/// Whether two calls have the same session and the same Call-IDs, and
/// the second is alive if the first is.
pub open spec fn same_keys(a: CallView, b: CallView) -> bool {
    same_ids(a, b) && (alive(a) ==> alive(b))
}

/// Whether a call shares neither its session nor a Call-ID with any of the
/// calls, has two Call-IDs, and is alive.
pub open spec fn new_keys(calls: Seq<CallView>, c: CallView) -> bool {
    &&& alive(c)
    &&& c.session.call_id != c.callee_call_id
    &&& forall|j: int|
        0 <= j < calls.len() ==> (#[trigger] calls[j]).session.id != c.session.id
            && calls[j].session.call_id != c.session.call_id && calls[j].session.call_id
            != c.callee_call_id && calls[j].callee_call_id != c.session.call_id
            && calls[j].callee_call_id != c.callee_call_id
}

/// Whether `after` is what one message can make of `calls`: the same
/// calls, or one call removed, or one call changed but for its session
/// and Call-IDs, or one call added that shares them with none.
pub open spec fn follows(calls: Seq<CallView>, after: Seq<CallView>) -> bool {
    ||| after == calls
    ||| exists|i: int| 0 <= i < calls.len() && after == calls.remove(i)
    ||| exists|i: int, c: CallView|
        0 <= i < calls.len() && same_keys(calls[i], c) && after == calls.update(i, c)
    ||| exists|c: CallView| new_keys(calls, c) && after == calls.push(c)
}

/// Where the search for a Call-ID ends: at the first call that has it, or
/// behind the last call.
pub proof fn lemma_index_on(calls: Seq<CallView>, side: Side, call_id: Seq<char>, from: int)
    requires
        0 <= from <= calls.len(),
    ensures
        from <= index_on(calls, side, call_id, from) <= calls.len(),
        forall|j: int|
            from <= j < index_on(calls, side, call_id, from) ==> call_id_on(calls[j], side)
                != call_id,
        index_on(calls, side, call_id, from) < calls.len() ==> call_id_on(
            calls[index_on(calls, side, call_id, from)],
            side,
        ) == call_id,
    decreases calls.len() - from,
{
    if from < calls.len() && call_id_on(calls[from], side) != call_id {
        lemma_index_on(calls, side, call_id, from + 1);
    }
}

/// Where the search for a session ends: no call before that place has
/// the session.
pub proof fn lemma_index_of_session(calls: Seq<CallView>, id: Seq<char>, from: int)
    requires
        0 <= from <= calls.len(),
    ensures
        from <= index_of_session(calls, id, from) <= calls.len(),
        forall|j: int| from <= j < index_of_session(calls, id, from) ==> calls[j].session.id != id,
    decreases calls.len() - from,
{
    if from < calls.len() && calls[from].session.id != id {
        lemma_index_of_session(calls, id, from + 1);
    }
}

/// A Call-ID that is found belongs to the call it is found at, on the
/// side it is found on; one that is not found belongs to no call.
pub proof fn lemma_found(calls: Seq<CallView>, call_id: Seq<char>)
    ensures
        match found(calls, call_id) {
            Some((i, side)) => 0 <= i < calls.len() && call_id_on(calls[i], side) == call_id,
            None => forall|j: int|
                0 <= j < calls.len() ==> (#[trigger] calls[j]).session.call_id != call_id
                    && calls[j].callee_call_id != call_id,
        },
{
    lemma_index_on(calls, Side::Caller, call_id, 0);
    lemma_index_on(calls, Side::Callee, call_id, 0);
    if found(calls, call_id) is None {
        assert forall|j: int| 0 <= j < calls.len() implies (#[trigger] calls[j]).session.call_id
            != call_id && calls[j].callee_call_id != call_id by {
            assert(call_id_on(calls[j], Side::Caller) != call_id);
            assert(call_id_on(calls[j], Side::Callee) != call_id);
        }
    }
}

/// Calls that are alive stay alive through what one message can make of
/// them.
pub proof fn lemma_follows_alive(calls: Seq<CallView>, after: Seq<CallView>)
    requires
        all_alive(calls),
        follows(calls, after),
    ensures
        all_alive(after),
{
    if after == calls {
    } else if exists|i: int| 0 <= i < calls.len() && after == calls.remove(i) {
        let i = choose|i: int| 0 <= i < calls.len() && after == calls.remove(i);
        assert forall|a: int| 0 <= a < after.len() implies alive(#[trigger] after[a]) by {
            let k = if a < i {
                a
            } else {
                a + 1
            };
            assert(after[a] == calls[k]);
        }
    } else if exists|i: int, c: CallView|
        0 <= i < calls.len() && same_keys(calls[i], c) && after == calls.update(i, c) {
        let (i, c) = choose|i: int, c: CallView|
            0 <= i < calls.len() && same_keys(calls[i], c) && after == calls.update(i, c);
        assert forall|a: int| 0 <= a < after.len() implies alive(#[trigger] after[a]) by {
            assert(alive(calls[a]));
        }
    } else {
        let c = choose|c: CallView| new_keys(calls, c) && after == calls.push(c);
        assert forall|a: int| 0 <= a < after.len() implies alive(#[trigger] after[a]) by {
            if a < calls.len() {
                assert(after[a] == calls[a]);
            }
        }
    }
}

/// Calls that are apart stay apart through what one message can make of
/// them.
pub proof fn lemma_follows_apart(calls: Seq<CallView>, after: Seq<CallView>)
    requires
        apart(calls),
        follows(calls, after),
    ensures
        apart(after),
{
    if after == calls {
    } else if exists|i: int| 0 <= i < calls.len() && after == calls.remove(i) {
        let i = choose|i: int| 0 <= i < calls.len() && after == calls.remove(i);
        assert forall|a: int, b: int| 0 <= a < b < after.len() implies after[a].session.call_id
            != after[b].session.call_id && after[a].callee_call_id != after[b].callee_call_id
            && after[a].session.id != after[b].session.id by {
            let ka = if a < i {
                a
            } else {
                a + 1
            };
            let kb = if b < i {
                b
            } else {
                b + 1
            };
            assert(after[a] == calls[ka] && after[b] == calls[kb]);
        }
        assert forall|a: int, b: int|
            0 <= a < after.len() && 0 <= b < after.len() implies after[a].session.call_id
            != after[b].callee_call_id by {
            let ka = if a < i {
                a
            } else {
                a + 1
            };
            let kb = if b < i {
                b
            } else {
                b + 1
            };
            assert(after[a] == calls[ka] && after[b] == calls[kb]);
        }
    } else if exists|i: int, c: CallView|
        0 <= i < calls.len() && same_keys(calls[i], c) && after == calls.update(i, c) {
        let (i, c) = choose|i: int, c: CallView|
            0 <= i < calls.len() && same_keys(calls[i], c) && after == calls.update(i, c);
        assert forall|a: int| 0 <= a < after.len() implies same_ids(
            #[trigger] after[a],
            calls[a],
        ) by {}
        assert forall|a: int, b: int| 0 <= a < b < after.len() implies after[a].session.call_id
            != after[b].session.call_id && after[a].callee_call_id != after[b].callee_call_id
            && after[a].session.id != after[b].session.id by {
            assert(same_ids(after[a], calls[a]) && same_ids(after[b], calls[b]));
        }
        assert forall|a: int, b: int|
            0 <= a < after.len() && 0 <= b < after.len() implies after[a].session.call_id
            != after[b].callee_call_id by {
            assert(same_ids(after[a], calls[a]) && same_ids(after[b], calls[b]));
        }
    } else {
        let c = choose|c: CallView| new_keys(calls, c) && after == calls.push(c);
        assert forall|a: int, b: int| 0 <= a < b < after.len() implies after[a].session.call_id
            != after[b].session.call_id && after[a].callee_call_id != after[b].callee_call_id
            && after[a].session.id != after[b].session.id by {
            assert(after[a] == calls[a]);
            if b < calls.len() {
                assert(after[b] == calls[b]);
            }
        }
        assert forall|a: int, b: int|
            0 <= a < after.len() && 0 <= b < after.len() implies after[a].session.call_id
            != after[b].callee_call_id by {
            if a < calls.len() {
                assert(after[a] == calls[a]);
            }
            if b < calls.len() {
                assert(after[b] == calls[b]);
            }
        }
    }
}

proof fn lemma_invite_follows(
    calls: Seq<CallView>,
    e: EndpointView,
    routes: Seq<RouteRule>,
    codecs: Seq<Codec>,
    request: RequestView,
    call_id: Seq<char>,
    source: SocketAddress,
    now: Moment,
    fresh: FreshView,
)
    ensures
        follows(calls, on_invite(calls, e, routes, codecs, request, call_id, source, now, fresh).0),
{
    let after = on_invite(calls, e, routes, codecs, request, call_id, source, now, fresh).0;
    if after != calls {
        lemma_found(calls, call_id);
        lemma_found(calls, fresh.call_id);
        lemma_index_of_session(calls, fresh.session, 0);
        let c = after.last();
        assert(after =~= calls.push(c));
        assert(new_keys(calls, c));
    }
}

proof fn lemma_bye_follows(
    calls: Seq<CallView>,
    e: EndpointView,
    request: RequestView,
    call_id: Seq<char>,
    fresh: FreshView,
)
    ensures
        follows(calls, on_bye(calls, e, request, call_id, fresh).0),
{
    let after = on_bye(calls, e, request, call_id, fresh).0;
    lemma_found(calls, call_id);
    match found(calls, call_id) {
        Some((i, side)) => {
            if after != calls.remove(i) {
                assert(same_keys(calls[i], after[i]));
                assert(after =~= calls.update(i, after[i]));
            }
        },
        None => {},
    }
}

proof fn lemma_cancel_follows(
    calls: Seq<CallView>,
    e: EndpointView,
    request: RequestView,
    call_id: Seq<char>,
    fresh: FreshView,
)
    ensures
        follows(calls, on_cancel(calls, e, request, call_id, fresh).0),
{
    let after = on_cancel(calls, e, request, call_id, fresh).0;
    lemma_found(calls, call_id);
    match found(calls, call_id) {
        Some((i, side)) => {
            if after != calls && after != calls.remove(i) {
                assert(same_keys(calls[i], after[i]));
                assert(after =~= calls.update(i, after[i]));
            }
        },
        None => {},
    }
}

proof fn lemma_request_follows(
    calls: Seq<CallView>,
    e: EndpointView,
    routes: Seq<RouteRule>,
    codecs: Seq<Codec>,
    request: RequestView,
    source: SocketAddress,
    now: Moment,
    fresh: FreshView,
)
    ensures
        follows(calls, on_request(calls, e, routes, codecs, request, source, now, fresh).0),
{
    if request.method != "OPTIONS"@ {
        match header_value(request.headers, "Call-ID"@) {
            None => {},
            Some(call_id) => {
                if request.method == "INVITE"@ {
                    lemma_invite_follows(
                        calls,
                        e,
                        routes,
                        codecs,
                        request,
                        call_id,
                        source,
                        now,
                        fresh,
                    );
                } else if request.method == "ACK"@ {
                    assert(on_ack(calls, e, request, call_id, fresh).0 == calls);
                } else if request.method == "BYE"@ {
                    lemma_bye_follows(calls, e, request, call_id, fresh);
                } else if request.method == "CANCEL"@ {
                    lemma_cancel_follows(calls, e, request, call_id, fresh);
                }
            },
        }
    }
}

proof fn lemma_response_follows(
    calls: Seq<CallView>,
    e: EndpointView,
    codecs: Seq<Codec>,
    response: ResponseView,
    source: SocketAddress,
)
    ensures
        follows(calls, on_response(calls, e, codecs, response, source).0),
{
    let after = on_response(calls, e, codecs, response, source).0;
    match header_value(response.headers, "Call-ID"@) {
        None => {},
        Some(call_id) => {
            lemma_found(calls, call_id);
            match found(calls, call_id) {
                Some((i, side)) => {
                    if after != calls && after != calls.remove(i) {
                        assert(same_keys(calls[i], after[i]));
                        assert(after =~= calls.update(i, after[i]));
                    }
                },
                None => {},
            }
        },
    }
}

/// No message leaves a call behind that is terminated or lacks a leg:
/// after every message every call is alive, as before it.
pub proof fn lemma_dispatch_keeps_calls_alive(
    calls: Seq<CallView>,
    e: EndpointView,
    routes: Seq<RouteRule>,
    codecs: Seq<Codec>,
    message: MessageView,
    source: SocketAddress,
    now: Moment,
    fresh: FreshView,
)
    requires
        all_alive(calls),
    ensures
        all_alive(dispatched(calls, e, routes, codecs, message, source, now, fresh).0),
{
    match message {
        MessageView::Request(request) => {
            lemma_request_follows(calls, e, routes, codecs, request, source, now, fresh);
        },
        MessageView::Response(response) => {
            lemma_response_follows(calls, e, codecs, response, source);
        },
    }
    lemma_follows_alive(
        calls,
        dispatched(calls, e, routes, codecs, message, source, now, fresh).0,
    );
}

/// No message brings two calls together: after every message, no two
/// calls have the same Call-ID on a leg or the same session, as before
/// it.
pub proof fn lemma_dispatch_keeps_calls_apart(
    calls: Seq<CallView>,
    e: EndpointView,
    routes: Seq<RouteRule>,
    codecs: Seq<Codec>,
    message: MessageView,
    source: SocketAddress,
    now: Moment,
    fresh: FreshView,
)
    requires
        apart(calls),
    ensures
        apart(dispatched(calls, e, routes, codecs, message, source, now, fresh).0),
{
    match message {
        MessageView::Request(request) => {
            lemma_request_follows(calls, e, routes, codecs, request, source, now, fresh);
        },
        MessageView::Response(response) => {
            lemma_response_follows(calls, e, codecs, response, source);
        },
    }
    lemma_follows_apart(
        calls,
        dispatched(calls, e, routes, codecs, message, source, now, fresh).0,
    );
}

// ---------------------------------------------------------------------------
// What is sent is complete
// ---------------------------------------------------------------------------

/// Whether a message, if it is a request, has every header that a request
/// must have: `Via`, `From`, `To`, `Call-ID`, `CSeq`, `Max-Forwards` and
/// `Content-Length`.
pub open spec fn complete(m: MessageView) -> bool {
    match m {
        MessageView::Request(r) => first_missing(r.headers, 0) == required_headers().len(),
        MessageView::Response(_) => true,
    }
}

/// Whether every request among the messages that are sent is complete.
pub open spec fn all_complete(actions: Seq<ActionView>) -> bool {
    forall|k: int| 0 <= k < actions.len() ==> complete(sent(#[trigger] actions[k]))
}

/// A request that is sent on a leg is complete.
pub proof fn lemma_passed_on_is_complete(
    call: CallView,
    from: Side,
    leg: LegView,
    e: EndpointView,
    method: Seq<char>,
    cseq: u32,
    branch: Seq<char>,
    content_type: Option<Seq<char>>,
    body: Seq<u8>,
)
    ensures
        complete(sent(passed_on(call, from, leg, e, method, cseq, branch, content_type, body))),
{
    match from {
        Side::Caller => lemma_originated_is_complete(
            leg,
            method,
            via_text(e, branch),
            call.callee_call_id,
            cseq,
            e.max_forwards,
            content_type,
            body.len(),
        ),
        Side::Callee => lemma_originated_is_complete(
            toward_caller(leg),
            method,
            via_text(e, branch),
            call.session.call_id,
            cseq,
            e.max_forwards,
            content_type,
            body.len(),
        ),
    }
}

proof fn lemma_invite_complete(
    calls: Seq<CallView>,
    e: EndpointView,
    routes: Seq<RouteRule>,
    codecs: Seq<Codec>,
    request: RequestView,
    call_id: Seq<char>,
    source: SocketAddress,
    now: Moment,
    fresh: FreshView,
)
    ensures
        all_complete(on_invite(calls, e, routes, codecs, request, call_id, source, now, fresh).1),
{
    match bridged(e, routes, codecs, request, now) {
        Ok((uri, target, sdp)) => {
            let (call, invite) = opened(e, request, call_id, source, fresh, uri, target, sdp);
            lemma_passed_on_is_complete(
                call,
                Side::Caller,
                callee_leg(request, e, uri, target, sdp, fresh.callee_tag),
                e,
                "INVITE"@,
                1,
                fresh.branch,
                sdp_type(sdp),
                sdp_body(sdp),
            );
            assert(complete(sent(invite)));
        },
        Err(_) => {},
    }
}

proof fn lemma_ack_complete(
    calls: Seq<CallView>,
    e: EndpointView,
    request: RequestView,
    call_id: Seq<char>,
    fresh: FreshView,
)
    ensures
        all_complete(on_ack(calls, e, request, call_id, fresh).1),
{
    lemma_found(calls, call_id);
    match found(calls, call_id) {
        Some((i, side)) => match opposite_leg(calls[i], side) {
            Some(leg) => {
                lemma_passed_on_is_complete(
                    calls[i],
                    side,
                    leg,
                    e,
                    "ACK"@,
                    leg.cseq,
                    fresh.branch,
                    header_value(request.headers, "Content-Type"@),
                    request.body,
                );
            },
            None => {},
        },
        None => {},
    }
}

proof fn lemma_bye_complete(
    calls: Seq<CallView>,
    e: EndpointView,
    request: RequestView,
    call_id: Seq<char>,
    fresh: FreshView,
)
    ensures
        all_complete(on_bye(calls, e, request, call_id, fresh).1),
{
    lemma_found(calls, call_id);
    match found(calls, call_id) {
        Some((i, side)) => match opposite_leg(calls[i], side) {
            Some(leg) => {
                lemma_passed_on_is_complete(
                    calls[i],
                    side,
                    leg,
                    e,
                    "BYE"@,
                    cseq_after(leg.cseq),
                    fresh.branch,
                    None,
                    Seq::empty(),
                );
            },
            None => {},
        },
        None => {},
    }
}

proof fn lemma_cancel_complete(
    calls: Seq<CallView>,
    e: EndpointView,
    request: RequestView,
    call_id: Seq<char>,
    fresh: FreshView,
)
    ensures
        all_complete(on_cancel(calls, e, request, call_id, fresh).1),
{
    lemma_found(calls, call_id);
    match found(calls, call_id) {
        Some((i, side)) => match calls[i].session.b_leg {
            Some(leg) => {
                lemma_passed_on_is_complete(
                    calls[i],
                    Side::Caller,
                    leg,
                    e,
                    "CANCEL"@,
                    leg.cseq,
                    calls[i].branch,
                    None,
                    Seq::empty(),
                );
            },
            None => {},
        },
        None => {},
    }
}

proof fn lemma_request_actions_complete(
    calls: Seq<CallView>,
    e: EndpointView,
    routes: Seq<RouteRule>,
    codecs: Seq<Codec>,
    request: RequestView,
    source: SocketAddress,
    now: Moment,
    fresh: FreshView,
)
    ensures
        all_complete(on_request(calls, e, routes, codecs, request, source, now, fresh).1),
{
    if request.method != "OPTIONS"@ {
        match header_value(request.headers, "Call-ID"@) {
            None => {},
            Some(call_id) => {
                if request.method == "INVITE"@ {
                    lemma_invite_complete(
                        calls,
                        e,
                        routes,
                        codecs,
                        request,
                        call_id,
                        source,
                        now,
                        fresh,
                    );
                } else if request.method == "ACK"@ {
                    lemma_ack_complete(calls, e, request, call_id, fresh);
                } else if request.method == "BYE"@ {
                    lemma_bye_complete(calls, e, request, call_id, fresh);
                } else if request.method == "CANCEL"@ {
                    lemma_cancel_complete(calls, e, request, call_id, fresh);
                }
            },
        }
    }
}

proof fn lemma_response_actions_complete(
    calls: Seq<CallView>,
    e: EndpointView,
    codecs: Seq<Codec>,
    response: ResponseView,
    source: SocketAddress,
)
    ensures
        all_complete(on_response(calls, e, codecs, response, source).1),
{
    match header_value(response.headers, "Call-ID"@) {
        None => {},
        Some(call_id) => {
            lemma_found(calls, call_id);
            match found(calls, call_id) {
                Some((i, side)) => match calls[i].session.b_leg {
                    Some(b) => {
                        lemma_passed_on_is_complete(
                            calls[i],
                            Side::Caller,
                            heard(b, response, source),
                            e,
                            "ACK"@,
                            b.cseq,
                            calls[i].branch,
                            None,
                            Seq::empty(),
                        );
                    },
                    None => {},
                },
                None => {},
            }
        },
    }
}

/// Every request that the B2BUA sends for a message has every header
/// that a request must have.
pub proof fn lemma_sent_requests_are_complete(
    calls: Seq<CallView>,
    e: EndpointView,
    routes: Seq<RouteRule>,
    codecs: Seq<Codec>,
    message: MessageView,
    source: SocketAddress,
    now: Moment,
    fresh: FreshView,
)
    ensures
        all_complete(dispatched(calls, e, routes, codecs, message, source, now, fresh).1),
{
    match message {
        MessageView::Request(request) => {
            lemma_request_actions_complete(calls, e, routes, codecs, request, source, now, fresh);
        },
        MessageView::Response(response) => {
            lemma_response_actions_complete(calls, e, codecs, response, source);
        },
    }
}

/// Every request that the B2BUA sends when a timer runs out has every
/// header that a request must have.
pub proof fn lemma_timeout_requests_are_complete(
    calls: Seq<CallView>,
    e: EndpointView,
    call_id: Seq<char>,
    fresh: FreshView,
)
    ensures
        all_complete(on_timeout(calls, e, call_id, fresh).1),
{
    lemma_found(calls, call_id);
    match found(calls, call_id) {
        Some((i, _)) => match (calls[i].session.a_leg, calls[i].session.b_leg) {
            (Some(a), Some(b)) => {
                lemma_passed_on_is_complete(
                    calls[i],
                    Side::Caller,
                    b,
                    e,
                    "CANCEL"@,
                    b.cseq,
                    calls[i].branch,
                    None,
                    Seq::empty(),
                );
                lemma_passed_on_is_complete(
                    calls[i],
                    Side::Callee,
                    a,
                    e,
                    "BYE"@,
                    cseq_after(a.cseq),
                    fresh.branch,
                    None,
                    Seq::empty(),
                );
                lemma_passed_on_is_complete(
                    calls[i],
                    Side::Caller,
                    b,
                    e,
                    "BYE"@,
                    cseq_after(b.cseq),
                    fresh.branch,
                    None,
                    Seq::empty(),
                );
            },
            _ => {},
        },
        None => {},
    }
}

} // verus!
