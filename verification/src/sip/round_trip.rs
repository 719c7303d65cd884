//! Reading a message that was written gives the message back.

use vstd::prelude::*;
use vstd::string::*;
use vstd::utf8::{
    decode_utf8, encode_utf8, encode_utf8_decode_utf8, encode_utf8_first_scalar,
    encode_utf8_valid_utf8, pop_first_scalar, valid_utf8,
};
use crate::numeral::{decimal, lemma_decimal_digits, lemma_decimal_round_trip};
use crate::sip::header::HeaderView;
use crate::sip::message::{
    crlf, header_text, headers_text, message_bytes, request_head, response_head, MessageView,
    RequestView, ResponseView,
};
use crate::sip::method::is_method_token;
use crate::sip::parser::{
    body_of, content_end, declared_length, fold_from, header_at, headers_from, line_end,
    head_of, lemma_encode_concat, lemma_utf8_prefix_within, parse_bytes, request_line,
    status_line, utf8_prefix, ParseError, StartLineView,
};
use crate::sip::uri::{
    param_at, param_text, params_from, params_text, port_at, scheme_at, uri_at, uri_text, user_at,
    UriView,
};
use crate::text::{is_blank, is_digit, is_space, lemma_scan_is, occurs_at, scan, trim, CharClass};

verus! {

/// Whether every character of `s` is in the class `k`.
pub open spec fn in_class(s: Seq<char>, k: CharClass) -> bool {
    forall|i: int| 0 <= i < s.len() ==> k.has(#[trigger] s[i])
}

/// Whether a URI can be read back from its wire form: the scheme is `sip`
/// or `sips`; a user is a non-empty run of user characters; the host is a
/// non-empty run of host characters; every parameter has a non-empty key
/// of parameter characters, and a value of parameter characters if any.
pub open spec fn wire_uri(u: UriView) -> bool {
    &&& u.scheme == "sip"@ || u.scheme == "sips"@
    &&& match u.user {
        Some(x) => x.len() > 0 && in_class(x, CharClass::User),
        None => true,
    }
    &&& u.host.len() > 0
    &&& in_class(u.host, CharClass::Host)
    &&& forall|i: int| 0 <= i < u.params.len() ==> wire_param(#[trigger] u.params[i])
}

pub open spec fn wire_param(p: (Seq<char>, Option<Seq<char>>)) -> bool {
    &&& p.0.len() > 0
    &&& in_class(p.0, CharClass::Param)
    &&& match p.1 {
        Some(v) => in_class(v, CharClass::Param),
        None => true,
    }
}

/// Whether a header can be read back from its wire form: the name is a
/// non-empty run of name characters; the value holds no line feed, and
/// neither starts nor ends with white space.
pub open spec fn wire_header(h: HeaderView) -> bool {
    &&& h.name.len() > 0
    &&& in_class(h.name, CharClass::Name)
    &&& in_class(h.value, CharClass::Except('\n'))
    &&& h.value.len() > 0 ==> !is_space(h.value[0]) && !is_space(h.value.last())
}

pub open spec fn wire_headers(hs: Seq<HeaderView>) -> bool {
    forall|i: int| 0 <= i < hs.len() ==> wire_header(#[trigger] hs[i])
}

/// Whether a body can be read back behind the headers: it is as long as
/// the headers announce, if they announce a length. Its bytes may be any.
pub open spec fn wire_body(headers: Seq<HeaderView>, body: Seq<u8>) -> bool {
    match declared_length(headers) {
        Some(n) => n == body.len(),
        None => true,
    }
}

/// Whether a message can be read back from its wire form.
pub open spec fn wire_message(m: MessageView) -> bool {
    match m {
        MessageView::Request(r) => {
            &&& is_method_token(r.method)
            &&& wire_uri(r.uri)
            &&& r.version == "SIP/2.0"@
            &&& wire_headers(r.headers)
            &&& wire_body(r.headers, r.body)
        },
        MessageView::Response(r) => {
            &&& r.version == "SIP/2.0"@
            &&& in_class(r.reason, CharClass::Except('\n'))
            &&& r.reason.len() > 0 ==> !is_blank(r.reason[0]) && r.reason.last() != '\r'
            &&& wire_headers(r.headers)
            &&& wire_body(r.headers, r.body)
        },
    }
}

// ---------------------------------------------------------------------------
// Segments of a text
// ---------------------------------------------------------------------------

/// A scan over a segment of the class that stands at `p` ends behind the
/// segment, where the class does not go on there.
proof fn lemma_scan_segment(s: Seq<char>, seg: Seq<char>, k: CharClass, p: int)
    requires
        occurs_at(s, seg, p),
        in_class(seg, k),
        p + seg.len() == s.len() || !k.has(s[p + seg.len()]),
    ensures
        scan(s, k, p) == p + seg.len(),
{
    assert forall|j: int| p <= j < p + seg.len() implies k.has(s[j]) by {
        assert(s.subrange(p, p + seg.len())[j - p] == s[j]);
        assert(k.has(seg[j - p]));
    }
    lemma_scan_is(s, k, p, p + seg.len());
}

/// Where `a + b` stands at `p`, `a` stands at `p` and `b` behind it.
proof fn lemma_split(s: Seq<char>, a: Seq<char>, b: Seq<char>, p: int)
    requires
        occurs_at(s, a + b, p),
    ensures
        occurs_at(s, a, p),
        occurs_at(s, b, p + a.len()),
{
    let whole = s.subrange(p, p + (a + b).len());
    assert(s.subrange(p, p + a.len()) =~= a) by {
        assert forall|j: int| 0 <= j < a.len() implies s.subrange(p, p + a.len())[j] == a[j] by {
            assert(whole[j] == (a + b)[j]);
        }
    }
    assert(s.subrange(p + a.len(), p + a.len() + b.len()) =~= b) by {
        assert forall|j: int| 0 <= j < b.len() implies s.subrange(
            p + a.len(),
            p + a.len() + b.len(),
        )[j] == b[j] by {
            assert(whole[a.len() + j] == (a + b)[a.len() + j]);
        }
    }
}

/// The character of `s` at an index inside a segment that stands at `p`.
proof fn lemma_at(s: Seq<char>, seg: Seq<char>, p: int, j: int)
    requires
        occurs_at(s, seg, p),
        0 <= j < seg.len(),
    ensures
        s[p + j] == seg[j],
{
    assert(s.subrange(p, p + seg.len())[j] == s[p + j]);
}

// ---------------------------------------------------------------------------
// URIs
// ---------------------------------------------------------------------------

/// The wire form of parameters starts with that of the first.
proof fn lemma_params_text_front(p: Seq<(Seq<char>, Option<Seq<char>>)>)
    requires
        p.len() > 0,
    ensures
        params_text(p) == param_text(p[0]) + params_text(p.skip(1)),
    decreases p.len(),
{
    if p.len() == 1 {
        assert(p.drop_last() =~= Seq::empty());
        assert(p.skip(1) =~= Seq::empty());
        assert(params_text(p) =~= param_text(p[0]) + params_text(p.skip(1)));
    } else {
        lemma_params_text_front(p.drop_last());
        assert(p.drop_last()[0] == p[0]);
        assert(p.drop_last().skip(1) =~= p.skip(1).drop_last());
        assert(p.skip(1).last() == p.last());
        assert(params_text(p) =~= param_text(p[0]) + params_text(p.skip(1)));
    }
}

/// Reading the wire form of parameters gives the parameters back.
proof fn lemma_params_round_trip(
    s: Seq<char>,
    p: Seq<(Seq<char>, Option<Seq<char>>)>,
    pos: int,
    acc: Seq<(Seq<char>, Option<Seq<char>>)>,
)
    requires
        occurs_at(s, params_text(p), pos),
        forall|i: int| 0 <= i < p.len() ==> wire_param(#[trigger] p[i]),
        pos + params_text(p).len() < s.len(),
        s[pos + params_text(p).len()] == ' ',
    ensures
        params_from(s, pos, acc) == Some((acc + p, pos + params_text(p).len())),
    decreases p.len(),
{
    if p.len() == 0 {
        assert(acc + p =~= acc);
    } else {
        lemma_params_text_front(p);
        let first = p[0];
        let rest = p.skip(1);
        assert(wire_param(first));
        lemma_split(s, param_text(first), params_text(rest), pos);
        let after = pos + param_text(first).len();
        // what follows the first parameter: a semicolon, or the space at the end
        assert(s[after] == ';' || s[after] == ' ') by {
            if rest.len() > 0 {
                lemma_params_text_front(rest);
                lemma_split(s, param_text(rest[0]), params_text(rest.skip(1)), after);
                lemma_at(s, param_text(rest[0]), after, 0);
            } else {
                assert(params_text(rest) =~= Seq::<char>::empty());
            }
        }
        lemma_at(s, param_text(first), pos, 0);
        assert(s[pos] == ';');
        match first.1 {
            Some(v) => {
                assert(param_text(first) =~= (seq![';'] + first.0) + (seq!['='] + v));
                lemma_split(s, seq![';'] + first.0, seq!['='] + v, pos);
                lemma_split(s, seq![';'], first.0, pos);
                lemma_split(s, seq!['='], v, pos + 1 + first.0.len());
                let k = pos + 1 + first.0.len();
                lemma_at(s, seq!['='], k, 0);
                lemma_scan_segment(s, first.0, CharClass::Param, pos + 1);
                lemma_scan_segment(s, v, CharClass::Param, k + 1);
                assert(param_at(s, pos + 1) == Some((first, after)));
            },
            None => {
                assert(param_text(first) =~= seq![';'] + first.0);
                lemma_split(s, seq![';'], first.0, pos);
                lemma_scan_segment(s, first.0, CharClass::Param, pos + 1);
                assert(param_at(s, pos + 1) == Some((first, after)));
            },
        }
        assert forall|i: int| 0 <= i < rest.len() implies wire_param(#[trigger] rest[i]) by {
            assert(rest[i] == p[i + 1]);
        }
        lemma_params_round_trip(s, rest, after, acc.push(first));
        assert(acc.push(first) + rest =~= acc + p);
    }
}

/// What stands first behind the host of a URI that is followed by a space:
/// a colon before a port, a semicolon before a parameter, or the space.
proof fn lemma_params_first(s: Seq<char>, p: Seq<(Seq<char>, Option<Seq<char>>)>, pos: int)
    requires
        occurs_at(s, params_text(p), pos),
        pos + params_text(p).len() < s.len(),
        s[pos + params_text(p).len()] == ' ',
    ensures
        s[pos] == (if p.len() > 0 {
            ';'
        } else {
            ' '
        }),
{
    if p.len() > 0 {
        lemma_params_text_front(p);
        lemma_split(s, param_text(p[0]), params_text(p.skip(1)), pos);
        lemma_at(s, param_text(p[0]), pos, 0);
    } else {
        assert(params_text(p) =~= Seq::<char>::empty());
    }
}

/// Every host character is a user character.
proof fn lemma_host_in_user(host: Seq<char>)
    requires
        in_class(host, CharClass::Host),
    ensures
        in_class(host, CharClass::User),
{
    assert forall|i: int| 0 <= i < host.len() implies CharClass::User.has(#[trigger] host[i]) by {
        assert(CharClass::Host.has(host[i]));
    }
}

/// Reading the wire form of a URI that is followed by a space gives the
/// URI back.
pub proof fn lemma_uri_round_trip(s: Seq<char>, u: UriView, p: int)
    requires
        occurs_at(s, uri_text(u), p),
        wire_uri(u),
        p + uri_text(u).len() < s.len(),
        s[p + uri_text(u).len()] == ' ',
    ensures
        uri_at(s, p) == Some((u, p + uri_text(u).len())),
{
    reveal_strlit("sip");
    reveal_strlit("sips");
    reveal_strlit("sip:");
    reveal_strlit("sips:");
    let user_part = match u.user {
        Some(x) => x + seq!['@'],
        None => Seq::<char>::empty(),
    };
    let port_part = match u.port {
        Some(n) => seq![':'] + decimal(n as nat),
        None => Seq::<char>::empty(),
    };
    let pt = params_text(u.params);
    let head = u.scheme + seq![':'];
    assert(uri_text(u) == head + user_part + u.host + port_part + pt);
    lemma_split(s, head + user_part + u.host + port_part, pt, p);
    lemma_split(s, head + user_part + u.host, port_part, p);
    lemma_split(s, head + user_part, u.host, p);
    lemma_split(s, head, user_part, p);
    let at1 = p + head.len();
    let at2 = at1 + user_part.len();
    let at3 = at2 + u.host.len();
    let at4 = at3 + port_part.len();
    let end = at4 + pt.len();
    assert(end == p + uri_text(u).len());

    // the scheme
    assert(scheme_at(s, p) == Some((u.scheme, at1))) by {
        if u.scheme == "sips"@ {
            assert(head =~= "sips:"@);
        } else {
            assert(head =~= "sip:"@);
            lemma_at(s, head, p, 3);
            if occurs_at(s, "sips:"@, p) {
                lemma_at(s, "sips:"@, p, 3);
            }
        }
    }

    lemma_params_first(s, u.params, at4);
    // what stands behind the host
    assert(s[at3] == ':' || s[at3] == ';' || s[at3] == ' ') by {
        match u.port {
            Some(n) => {
                lemma_at(s, port_part, at3, 0);
            },
            None => {},
        }
    }

    // the user
    assert(user_at(s, at1) == (u.user, at2)) by {
        match u.user {
            Some(x) => {
                lemma_split(s, x, seq!['@'], at1);
                lemma_at(s, seq!['@'], at1 + x.len(), 0);
                lemma_scan_segment(s, x, CharClass::User, at1);
                assert(s.subrange(at1, at1 + x.len()) == x);
            },
            None => {
                lemma_host_in_user(u.host);
                lemma_scan_segment(s, u.host, CharClass::User, at1);
            },
        }
    }

    // the host
    lemma_scan_segment(s, u.host, CharClass::Host, at2);
    assert(s.subrange(at2, at3) == u.host);

    // the port
    assert(port_at(s, at3) == Some((u.port, at4))) by {
        match u.port {
            Some(n) => {
                lemma_split(s, seq![':'], decimal(n as nat), at3);
                lemma_at(s, seq![':'], at3, 0);
                lemma_decimal_digits(n as nat);
                assert(in_class(decimal(n as nat), CharClass::Digit)) by {
                    assert forall|i: int| 0 <= i < decimal(n as nat).len() implies CharClass::Digit.has(
                        #[trigger] decimal(n as nat)[i],
                    ) by {
                        assert(is_digit(decimal(n as nat)[i]));
                    }
                }
                lemma_scan_segment(s, decimal(n as nat), CharClass::Digit, at3 + 1);
                assert(s.subrange(at3 + 1, at4) == decimal(n as nat));
                lemma_decimal_round_trip(n as nat, 65535);
            },
            None => {},
        }
    }

    // the parameters
    lemma_params_round_trip(s, u.params, at4, Seq::empty());
    assert(Seq::<(Seq<char>, Option<Seq<char>>)>::empty() + u.params =~= u.params);
}

// ---------------------------------------------------------------------------
// Headers
// ---------------------------------------------------------------------------

/// A value behind one space, taken without the white space around it, is
/// the value, where the value neither starts nor ends with white space.
proof fn lemma_trim_behind_space(v: Seq<char>)
    requires
        v.len() > 0 ==> !is_space(v[0]) && !is_space(v.last()),
    ensures
        trim(seq![' '] + v) == v,
{
    let t = seq![' '] + v;
    assert(is_space(t[0]));
    if v.len() > 0 {
        assert(t[1] == v[0]);
        assert(t[t.len() - 1] == v.last());
    }
    lemma_scan_is(t, CharClass::Space, 0, 1);
    crate::text::lemma_scan_back_is(t, CharClass::Space, 1, t.len() as int, t.len() as int);
    assert(t.subrange(1, t.len() as int) =~= v);
}

/// The wire form of headers starts with that of the first.
proof fn lemma_headers_text_front(hs: Seq<HeaderView>)
    requires
        hs.len() > 0,
    ensures
        headers_text(hs) == header_text(hs[0]) + headers_text(hs.skip(1)),
    decreases hs.len(),
{
    if hs.len() == 1 {
        assert(hs.drop_last() =~= Seq::empty());
        assert(hs.skip(1) =~= Seq::empty());
        assert(headers_text(hs) =~= header_text(hs[0]) + headers_text(hs.skip(1)));
    } else {
        lemma_headers_text_front(hs.drop_last());
        assert(hs.drop_last()[0] == hs[0]);
        assert(hs.drop_last().skip(1) =~= hs.skip(1).drop_last());
        assert(hs.skip(1).last() == hs.last());
        assert(headers_text(hs) =~= header_text(hs[0]) + headers_text(hs.skip(1)));
    }
}

/// A line of characters other than the line feed, ended by a carriage
/// return and a line feed, is found as a line with that content.
proof fn lemma_line(s: Seq<char>, content: Seq<char>, pos: int)
    requires
        occurs_at(s, content + crlf(), pos),
        in_class(content, CharClass::Except('\n')),
    ensures
        line_end(s, pos) == pos + content.len() + 1,
        content_end(s, pos, pos + content.len() + 1) == pos + content.len(),
        s.subrange(pos, pos + content.len()) == content,
{
    lemma_split(s, content, crlf(), pos);
    let c = pos + content.len();
    lemma_at(s, crlf(), c, 0);
    lemma_at(s, crlf(), c, 1);
    let seg = content + seq!['\r'];
    assert(occurs_at(s, seg, pos)) by {
        assert(s.subrange(pos, pos + seg.len()) =~= seg) by {
            assert forall|j: int| 0 <= j < seg.len() implies s.subrange(pos, pos + seg.len())[j]
                == seg[j] by {
                if j < content.len() {
                    lemma_at(s, content, pos, j);
                }
            }
        }
    }
    assert(in_class(seg, CharClass::Except('\n'))) by {
        assert forall|i: int| 0 <= i < seg.len() implies CharClass::Except('\n').has(
            #[trigger] seg[i],
        ) by {
            if i < content.len() {
                assert(CharClass::Except('\n').has(content[i]));
            }
        }
    }
    lemma_scan_segment(s, seg, CharClass::Except('\n'), pos);
}

/// Reading the wire form of a header gives the header back, where the next
/// line does not continue it.
proof fn lemma_header_round_trip(s: Seq<char>, h: HeaderView, pos: int)
    requires
        occurs_at(s, header_text(h), pos),
        wire_header(h),
        pos + header_text(h).len() == s.len() || !is_blank(s[pos + header_text(h).len()]),
    ensures
        ({
            let e = pos + header_text(h).len() - 1;
            &&& line_end(s, pos) == e
            &&& content_end(s, pos, e) == e - 1
            &&& pos < e - 1
            &&& header_at(s, pos, e - 1) == Some(h)
            &&& fold_from(s, e + 1, h.value) == (h.value, e + 1)
        }),
{
    let content = h.name + seq![':', ' '] + h.value;
    assert(header_text(h) == content + crlf());
    assert(in_class(content, CharClass::Except('\n'))) by {
        assert forall|i: int| 0 <= i < content.len() implies CharClass::Except('\n').has(
            #[trigger] content[i],
        ) by {
            if i < h.name.len() {
                assert(CharClass::Name.has(h.name[i]));
            } else if i >= h.name.len() + 2 {
                assert(CharClass::Except('\n').has(h.value[i - h.name.len() - 2]));
            }
        }
    }
    lemma_line(s, content, pos);
    let c = pos + content.len();
    lemma_split(s, content, crlf(), pos);
    lemma_split(s, h.name + seq![':', ' '], h.value, pos);
    lemma_split(s, h.name, seq![':', ' '], pos);
    let n = pos + h.name.len();
    lemma_at(s, seq![':', ' '], n, 0);
    lemma_at(s, seq![':', ' '], n, 1);
    lemma_scan_segment(s, h.name, CharClass::Name, pos);
    assert(s.subrange(pos, n) == h.name);
    assert(s.subrange(n + 1, c) =~= seq![' '] + h.value) by {
        assert forall|j: int| 0 <= j < 1 + h.value.len() implies s.subrange(n + 1, c)[j] == (seq![
            ' ',
        ] + h.value)[j] by {
            if j >= 1 {
                lemma_at(s, h.value, n + 2, j - 1);
            }
        }
    }
    lemma_trim_behind_space(h.value);
}

/// Reading the wire form of headers and the empty line behind them gives
/// the headers back, and the index at which the body starts.
proof fn lemma_headers_round_trip(s: Seq<char>, hs: Seq<HeaderView>, pos: int, acc: Seq<HeaderView>)
    requires
        occurs_at(s, headers_text(hs) + crlf(), pos),
        wire_headers(hs),
    ensures
        headers_from(s, pos, acc) == Ok::<(Seq<HeaderView>, int), ParseError>(
            (acc + hs, pos + headers_text(hs).len() + 2),
        ),
    decreases hs.len(),
{
    if hs.len() == 0 {
        assert(headers_text(hs) + crlf() =~= Seq::<char>::empty() + crlf());
        lemma_line(s, Seq::<char>::empty(), pos);
        assert(acc + hs =~= acc);
    } else {
        lemma_headers_text_front(hs);
        let first = hs[0];
        let rest = hs.skip(1);
        assert(wire_header(first));
        assert(headers_text(hs) + crlf() =~= header_text(first) + (headers_text(rest) + crlf()));
        lemma_split(s, header_text(first), headers_text(rest) + crlf(), pos);
        let after = pos + header_text(first).len();
        // the next line starts with a name or is the empty line
        assert(!is_blank(s[after])) by {
            if rest.len() > 0 {
                lemma_headers_text_front(rest);
                assert(wire_header(rest[0]));
                assert(headers_text(rest) + crlf() =~= rest[0].name + (seq![':', ' ']
                    + rest[0].value + crlf() + headers_text(rest.skip(1)) + crlf()));
                lemma_split(
                    s,
                    rest[0].name,
                    seq![':', ' '] + rest[0].value + crlf() + headers_text(rest.skip(1)) + crlf(),
                    after,
                );
                lemma_at(s, rest[0].name, after, 0);
                assert(CharClass::Name.has(rest[0].name[0]));
            } else {
                assert(headers_text(rest) + crlf() =~= crlf());
                lemma_at(s, crlf(), after, 0);
            }
        }
        lemma_header_round_trip(s, first, pos);
        assert forall|i: int| 0 <= i < rest.len() implies wire_header(#[trigger] rest[i]) by {
            assert(rest[i] == hs[i + 1]);
        }
        lemma_headers_round_trip(s, rest, after, acc.push(first));
        assert(acc.push(first) + rest =~= acc + hs);
        assert(HeaderView { name: first.name, value: first.value } == first);
    }
}

// ---------------------------------------------------------------------------
// Start lines
// ---------------------------------------------------------------------------

/// Texts of a class, one behind the other, are of the class.
proof fn lemma_join_class(a: Seq<char>, b: Seq<char>, k: CharClass)
    requires
        in_class(a, k),
        in_class(b, k),
    ensures
        in_class(a + b, k),
{
    assert forall|i: int| 0 <= i < (a + b).len() implies k.has(#[trigger] (a + b)[i]) by {
        if i < a.len() {
            assert(k.has(a[i]));
        } else {
            assert(k.has(b[i - a.len()]));
        }
    }
}

/// A text of a class without the line feed holds no line feed.
proof fn lemma_plain(a: Seq<char>, k: CharClass)
    requires
        in_class(a, k),
        !k.has('\n'),
    ensures
        in_class(a, CharClass::Except('\n')),
{
    assert forall|i: int| 0 <= i < a.len() implies CharClass::Except('\n').has(#[trigger] a[i]) by {
        assert(k.has(a[i]));
    }
}

/// The wire form of parameters holds no line feed.
proof fn lemma_params_plain(p: Seq<(Seq<char>, Option<Seq<char>>)>)
    requires
        forall|i: int| 0 <= i < p.len() ==> wire_param(#[trigger] p[i]),
    ensures
        in_class(params_text(p), CharClass::Except('\n')),
    decreases p.len(),
{
    let k = CharClass::Except('\n');
    if p.len() > 0 {
        assert forall|i: int| 0 <= i < p.drop_last().len() implies wire_param(
            #[trigger] p.drop_last()[i],
        ) by {
            assert(p.drop_last()[i] == p[i]);
        }
        lemma_params_plain(p.drop_last());
        let last = p.last();
        assert(wire_param(last));
        lemma_plain(last.0, CharClass::Param);
        assert(in_class(seq![';'], k));
        lemma_join_class(seq![';'], last.0, k);
        match last.1 {
            Some(v) => {
                lemma_plain(v, CharClass::Param);
                assert(in_class(seq!['='], k));
                lemma_join_class(seq![';'] + last.0, seq!['='], k);
                lemma_join_class(seq![';'] + last.0 + seq!['='], v, k);
            },
            None => {},
        }
        lemma_join_class(params_text(p.drop_last()), param_text(last), k);
    }
}

/// The wire form of a URI holds no line feed.
proof fn lemma_uri_plain(u: UriView)
    requires
        wire_uri(u),
    ensures
        in_class(uri_text(u), CharClass::Except('\n')),
{
    reveal_strlit("sip");
    reveal_strlit("sips");
    let k = CharClass::Except('\n');
    let user_part = match u.user {
        Some(x) => x + seq!['@'],
        None => Seq::<char>::empty(),
    };
    let port_part = match u.port {
        Some(n) => seq![':'] + decimal(n as nat),
        None => Seq::<char>::empty(),
    };
    assert(in_class(u.scheme, k));
    assert(in_class(seq![':'], k));
    assert(in_class(seq!['@'], k));
    lemma_join_class(u.scheme, seq![':'], k);
    match u.user {
        Some(x) => {
            lemma_plain(x, CharClass::User);
            lemma_join_class(x, seq!['@'], k);
        },
        None => {},
    }
    lemma_join_class(u.scheme + seq![':'], user_part, k);
    lemma_plain(u.host, CharClass::Host);
    lemma_join_class(u.scheme + seq![':'] + user_part, u.host, k);
    match u.port {
        Some(n) => {
            lemma_decimal_digits(n as nat);
            assert(in_class(decimal(n as nat), k)) by {
                assert forall|i: int| 0 <= i < decimal(n as nat).len() implies k.has(
                    #[trigger] decimal(n as nat)[i],
                ) by {
                    assert(is_digit(decimal(n as nat)[i]));
                }
            }
            lemma_join_class(seq![':'], decimal(n as nat), k);
        },
        None => {},
    }
    lemma_join_class(u.scheme + seq![':'] + user_part + u.host, port_part, k);
    lemma_params_plain(u.params);
    lemma_join_class(
        u.scheme + seq![':'] + user_part + u.host + port_part,
        params_text(u.params),
        k,
    );
}

/// A written request line is read as its method and URI.
proof fn lemma_request_line(s: Seq<char>, method: Seq<char>, uri: UriView)
    requires
        is_method_token(method),
        wire_uri(uri),
        occurs_at(s, method + seq![' '] + uri_text(uri) + seq![' '] + "SIP/2.0"@ + crlf(), 0),
    ensures
        ({
            let c = (method + seq![' '] + uri_text(uri) + seq![' '] + "SIP/2.0"@).len() as int;
            &&& line_end(s, 0) == c + 1
            &&& content_end(s, 0, c + 1) == c
            &&& request_line(s, c) == Some((method, uri))
        }),
{
    reveal_strlit("SIP/2.0");
    reveal_strlit("sip");
    reveal_strlit("sips");
    let k = CharClass::Except('\n');
    let ut = uri_text(uri);
    let version = "SIP/2.0"@;
    let content = method + seq![' '] + ut + seq![' '] + version;
    let c = content.len() as int;
    assert(in_class(content, k)) by {
        lemma_plain(method, CharClass::Name);
        lemma_uri_plain(uri);
        assert(in_class(seq![' '], k));
        assert(in_class(version, k));
        lemma_join_class(method, seq![' '], k);
        lemma_join_class(method + seq![' '], ut, k);
        lemma_join_class(method + seq![' '] + ut, seq![' '], k);
        lemma_join_class(method + seq![' '] + ut + seq![' '], version, k);
    }
    lemma_line(s, content, 0);
    lemma_split(s, content, crlf(), 0);
    lemma_split(s, method + seq![' '] + ut + seq![' '], version, 0);
    lemma_split(s, method + seq![' '] + ut, seq![' '], 0);
    lemma_split(s, method + seq![' '], ut, 0);
    lemma_split(s, method, seq![' '], 0);
    let m = method.len() as int;
    let u0 = m + 1;
    let u1 = u0 + ut.len();
    assert(s[m] == ' ') by {
        lemma_at(s, seq![' '], m, 0);
    }
    assert(s[u1] == ' ') by {
        lemma_at(s, seq![' '], u1, 0);
    }
    assert(s[u1 + 1] == 'S') by {
        lemma_at(s, version, u1 + 1, 0);
    }
    assert(scan(s, CharClass::Name, 0) == m) by {
        lemma_scan_segment(s, method, CharClass::Name, 0);
    }
    assert(s.subrange(0, m) == method);
    assert(!is_blank(s[u0])) by {
        let scheme = uri.scheme;
        assert(ut =~= scheme + (ut.skip(scheme.len() as int))) by {
            assert(ut.subrange(0, scheme.len() as int) =~= scheme);
        }
        lemma_split(s, scheme, ut.skip(scheme.len() as int), u0);
        lemma_at(s, scheme, u0, 0);
    }
    assert(scan(s, CharClass::Blank, m) == u0) by {
        lemma_scan_segment(s, seq![' '], CharClass::Blank, m);
    }
    assert(uri_at(s, u0) == Some((uri, u1))) by {
        lemma_uri_round_trip(s, uri, u0);
    }
    assert(scan(s, CharClass::Blank, u1) == u1 + 1) by {
        lemma_scan_segment(s, seq![' '], CharClass::Blank, u1);
    }
    assert(u1 + 1 + 7 == c);
}

/// A written status line is read as its status and reason, and is no
/// request line.
proof fn lemma_status_line(s: Seq<char>, status: u16, reason: Seq<char>)
    requires
        in_class(reason, CharClass::Except('\n')),
        reason.len() > 0 ==> !is_blank(reason[0]) && reason.last() != '\r',
        occurs_at(
            s,
            "SIP/2.0"@ + seq![' '] + decimal(status as nat) + seq![' '] + reason + crlf(),
            0,
        ),
    ensures
        ({
            let c = ("SIP/2.0"@ + seq![' '] + decimal(status as nat) + seq![' '] + reason).len() as int;
            &&& line_end(s, 0) == c + 1
            &&& content_end(s, 0, c + 1) == c
            &&& request_line(s, c) is None
            &&& status_line(s, c) == Some((status, reason))
        }),
{
    reveal_strlit("SIP/2.0");
    let k = CharClass::Except('\n');
    let version = "SIP/2.0"@;
    let code = decimal(status as nat);
    let content = version + seq![' '] + code + seq![' '] + reason;
    let c = content.len() as int;
    lemma_decimal_digits(status as nat);
    assert(in_class(code, CharClass::Digit)) by {
        assert forall|i: int| 0 <= i < code.len() implies CharClass::Digit.has(#[trigger] code[i]) by {
            assert(is_digit(code[i]));
        }
    }
    assert(in_class(content, k)) by {
        lemma_plain(code, CharClass::Digit);
        assert(in_class(seq![' '], k));
        assert(in_class(version, k));
        lemma_join_class(version, seq![' '], k);
        lemma_join_class(version + seq![' '], code, k);
        lemma_join_class(version + seq![' '] + code, seq![' '], k);
        lemma_join_class(version + seq![' '] + code + seq![' '], reason, k);
    }
    lemma_line(s, content, 0);
    lemma_split(s, content, crlf(), 0);
    lemma_split(s, version + seq![' '] + code + seq![' '], reason, 0);
    lemma_split(s, version + seq![' '] + code, seq![' '], 0);
    lemma_split(s, version + seq![' '], code, 0);
    lemma_split(s, version, seq![' '], 0);
    let d0: int = 8;
    let d1 = d0 + code.len();
    assert(s[c] == '\r') by {
        lemma_at(s, crlf(), c, 0);
    }
    assert(s[7] == ' ') by {
        lemma_at(s, seq![' '], 7, 0);
    }
    assert(s[d1] == ' ') by {
        lemma_at(s, seq![' '], d1, 0);
    }
    assert(is_digit(s[d0])) by {
        lemma_at(s, code, d0, 0);
        assert(is_digit(code[0]));
    }
    assert(s[3] == '/') by {
        lemma_at(s, version, 0, 3);
    }
    assert(request_line(s, c) is None) by {
        assert forall|j: int| 0 <= j < 3 implies CharClass::Name.has(s[j]) by {
            lemma_at(s, version, 0, j);
        }
        lemma_scan_is(s, CharClass::Name, 0, 3);
        lemma_scan_is(s, CharClass::Blank, 3, 3);
    }
    assert(scan(s, CharClass::Blank, 7) == d0) by {
        lemma_scan_segment(s, seq![' '], CharClass::Blank, 7);
    }
    assert(scan(s, CharClass::Digit, d0) == d1) by {
        lemma_scan_segment(s, code, CharClass::Digit, d0);
    }
    assert(!is_blank(s[d1 + 1])) by {
        if reason.len() > 0 {
            lemma_at(s, reason, d1 + 1, 0);
        }
    }
    assert(scan(s, CharClass::Blank, d1) == d1 + 1) by {
        lemma_scan_segment(s, seq![' '], CharClass::Blank, d1);
    }
    assert(s.subrange(d0, d1) == code);
    lemma_decimal_round_trip(status as nat, 65535);
    assert(s.subrange(d1 + 1, c) == reason);
}

// ---------------------------------------------------------------------------
// Messages
// ---------------------------------------------------------------------------

/// Where bytes behind the UTF-8 form of a text are UTF-8 together with
/// it, they are UTF-8 by themselves, and the whole decodes to the text and
/// what they decode to.
proof fn lemma_decode_behind(a: Seq<char>, c: Seq<u8>)
    requires
        valid_utf8(encode_utf8(a) + c),
    ensures
        valid_utf8(c),
        decode_utf8(encode_utf8(a) + c) == a + decode_utf8(c),
    decreases a.len(),
{
    let bytes = encode_utf8(a) + c;
    if a.len() == 0 {
        assert(bytes =~= c);
        assert(a + decode_utf8(c) =~= decode_utf8(c));
    } else {
        let front = encode_utf8(a);
        let rest = a.drop_first();
        encode_utf8_first_scalar(a);
        encode_utf8_valid_utf8(a);
        assert(front.len() >= vstd::utf8::length_of_first_scalar(front));
        assert(forall|i: int| 0 <= i < front.len() ==> bytes[i] == front[i]);
        assert(vstd::utf8::length_of_first_scalar(bytes) == vstd::utf8::length_of_first_scalar(
            front,
        ));
        assert(vstd::utf8::decode_first_scalar(bytes) == vstd::utf8::decode_first_scalar(front));
        assert(pop_first_scalar(front) =~= encode_utf8(rest));
        assert(pop_first_scalar(bytes) =~= encode_utf8(rest) + c);
        lemma_decode_behind(rest, c);
        vstd::utf8::char_u32_cast(a[0], vstd::utf8::decode_first_scalar(bytes));
        assert(decode_utf8(bytes) =~= seq![a[0]] + (rest + decode_utf8(c)));
        assert(seq![a[0]] + (rest + decode_utf8(c)) =~= a + decode_utf8(c));
    }
}

/// The head that is read from the bytes of a text and a body behind it is
/// read from the text and some text behind it, and the bytes behind the
/// text are the body.
proof fn lemma_wire_bytes(head: Seq<char>, body: Seq<u8>) -> (tail: Seq<char>)
    ensures
        ({
            let b = encode_utf8(head) + body;
            &&& decode_utf8(b.take(utf8_prefix(b))) == head + tail
            &&& b.skip(encode_utf8((head + tail).take(head.len() as int)).len() as int) == body
        }),
{
    let front = encode_utf8(head);
    let b = front + body;
    let n = utf8_prefix(b);
    lemma_utf8_prefix_within(b, b.len() as int);
    encode_utf8_valid_utf8(head);
    assert(b.take(front.len() as int) =~= front);
    assert(n >= front.len());
    let c = body.take(n - front.len());
    assert(b.take(n) =~= front + c);
    lemma_decode_behind(head, c);
    let tail = decode_utf8(c);
    assert((head + tail).take(head.len() as int) =~= head);
    assert(b.skip(front.len() as int) =~= body);
    tail
}

/// The body that is read behind headers that can be read back is the body.
proof fn lemma_body(headers: Seq<HeaderView>, body: Seq<u8>)
    requires
        wire_body(headers, body),
    ensures
        body_of(headers, body) == Ok::<Seq<u8>, ParseError>(body),
{
    assert(body.take(body.len() as int) =~= body);
}

/// Where the head of a message stands first in a text, its first line and
/// its header section stand there.
proof fn lemma_head_parts(s: Seq<char>, line: Seq<char>, hs: Seq<HeaderView>, tail: Seq<char>)
    requires
        s == line + crlf() + headers_text(hs) + crlf() + tail,
    ensures
        occurs_at(s, line + crlf(), 0),
        occurs_at(s, headers_text(hs) + crlf(), (line.len() + 2) as int),
        (line + crlf() + headers_text(hs) + crlf()).len() == line.len() + 2 + headers_text(
            hs,
        ).len() + 2,
{
    let block = headers_text(hs) + crlf();
    assert(s =~= (line + crlf()) + (block + tail));
    assert(occurs_at(s, (line + crlf()) + (block + tail), 0)) by {
        assert(s.subrange(0, s.len() as int) =~= s);
    }
    lemma_split(s, line + crlf(), block + tail, 0);
    lemma_split(s, block, tail, (line.len() + 2) as int);
}

/// The text of a written request, with any text behind it, is read as the
/// request line and the headers of the request.
#[verifier::rlimit(50)]
proof fn lemma_request_parsed(r: RequestView, tail: Seq<char>)
    requires
        is_method_token(r.method),
        wire_uri(r.uri),
        r.version == "SIP/2.0"@,
        wire_headers(r.headers),
    ensures
        ({
            let s = request_head(r) + tail;
            let e = line_end(s, 0);
            &&& 0 <= e < s.len()
            &&& request_line(s, content_end(s, 0, e)) == Some((r.method, r.uri))
            &&& headers_from(s, e + 1, Seq::empty()) == Ok::<(Seq<HeaderView>, int), ParseError>(
                (r.headers, request_head(r).len() as int),
            )
        }),
{
    let s = request_head(r) + tail;
    let line = r.method + seq![' '] + uri_text(r.uri) + seq![' '] + r.version;
    assert(request_head(r) =~= line + crlf() + headers_text(r.headers) + crlf());
    lemma_head_parts(s, line, r.headers, tail);
    lemma_request_line(s, r.method, r.uri);
    lemma_headers_round_trip(s, r.headers, (line.len() + 2) as int, Seq::empty());
    assert(Seq::<HeaderView>::empty() + r.headers =~= r.headers);
}

/// The text of a written response, with any text behind it, is read as the
/// status line and the headers of the response.
#[verifier::rlimit(50)]
proof fn lemma_response_parsed(r: ResponseView, tail: Seq<char>)
    requires
        r.version == "SIP/2.0"@,
        in_class(r.reason, CharClass::Except('\n')),
        r.reason.len() > 0 ==> !is_blank(r.reason[0]) && r.reason.last() != '\r',
        wire_headers(r.headers),
    ensures
        ({
            let s = response_head(r) + tail;
            let e = line_end(s, 0);
            &&& 0 <= e < s.len()
            &&& request_line(s, content_end(s, 0, e)) is None
            &&& status_line(s, content_end(s, 0, e)) == Some((r.status, r.reason))
            &&& headers_from(s, e + 1, Seq::empty()) == Ok::<(Seq<HeaderView>, int), ParseError>(
                (r.headers, response_head(r).len() as int),
            )
        }),
{
    let s = response_head(r) + tail;
    let line = r.version + seq![' '] + decimal(r.status as nat) + seq![' '] + r.reason;
    assert(response_head(r) =~= line + crlf() + headers_text(r.headers) + crlf());
    lemma_head_parts(s, line, r.headers, tail);
    lemma_status_line(s, r.status, r.reason);
    lemma_headers_round_trip(s, r.headers, (line.len() + 2) as int, Seq::empty());
    assert(Seq::<HeaderView>::empty() + r.headers =~= r.headers);
}

/// Reading a written request gives the request back.
proof fn lemma_request_round_trip(r: RequestView)
    requires
        wire_message(MessageView::Request(r)),
    ensures
        parse_bytes(message_bytes(MessageView::Request(r))) == Ok::<MessageView, ParseError>(
            MessageView::Request(r),
        ),
{
    let head = request_head(r);
    let tail = lemma_wire_bytes(head, r.body);
    lemma_request_parsed(r, tail);
    lemma_body(r.headers, r.body);
    assert(head_of(head + tail) == Ok::<(StartLineView, Seq<HeaderView>, int), ParseError>(
        (StartLineView::Request(r.method, r.uri), r.headers, head.len() as int),
    ));
}

/// Reading a written response gives the response back.
proof fn lemma_response_round_trip(r: ResponseView)
    requires
        wire_message(MessageView::Response(r)),
    ensures
        parse_bytes(message_bytes(MessageView::Response(r))) == Ok::<MessageView, ParseError>(
            MessageView::Response(r),
        ),
{
    let head = response_head(r);
    let tail = lemma_wire_bytes(head, r.body);
    lemma_response_parsed(r, tail);
    lemma_body(r.headers, r.body);
    assert(head_of(head + tail) == Ok::<(StartLineView, Seq<HeaderView>, int), ParseError>(
        (StartLineView::Status(r.status, r.reason), r.headers, head.len() as int),
    ));
}

/// Reading inverts writing: the bytes of a message that can be read back
/// are read as that message, with its headers in their order and its body
/// byte for byte, whatever the bytes of the body are.
pub proof fn lemma_parse_inverts_serialize(m: MessageView)
    requires
        wire_message(m),
    ensures
        parse_bytes(message_bytes(m)) == Ok::<MessageView, ParseError>(m),
{
    match m {
        MessageView::Request(r) => lemma_request_round_trip(r),
        MessageView::Response(r) => lemma_response_round_trip(r),
    }
}

} // verus!
