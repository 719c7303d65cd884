//! SIP URIs: `scheme:[user@]host[:port][;param[=value]]...`.

use vstd::prelude::*;
use vstd::string::*;
use crate::numeral::{decimal, parse_number, parse_unsigned, push_decimal};
use crate::text::{
    append_str, chars_of, matches_at, occurs_at, opt_text, scan, scan_class, slice_of, string_of,
    string_of_range, CharClass,
};

verus! {

/// What a URI holds, as texts and numbers.
pub struct UriView {
    pub scheme: Seq<char>,
    pub user: Option<Seq<char>>,
    pub host: Seq<char>,
    pub port: Option<u16>,
    pub params: Seq<(Seq<char>, Option<Seq<char>>)>,
}

/// SIP URI representation.
#[derive(Debug, Clone, PartialEq)]
pub struct Uri {
    pub scheme: String,
    pub user: Option<String>,
    pub host: String,
    pub port: Option<u16>,
    pub params: Vec<(String, Option<String>)>,
}

pub open spec fn param_views(p: Seq<(String, Option<String>)>) -> Seq<(Seq<char>, Option<Seq<char>>)> {
    Seq::new(p.len(), |i: int| (p[i].0@, opt_text(p[i].1)))
}

impl View for Uri {
    type V = UriView;

    open spec fn view(&self) -> UriView {
        UriView {
            scheme: self.scheme@,
            user: opt_text(self.user),
            host: self.host@,
            port: self.port,
            params: param_views(self.params@),
        }
    }
}

/// The wire form of one parameter: `;key` or `;key=value`.
pub open spec fn param_text(p: (Seq<char>, Option<Seq<char>>)) -> Seq<char> {
    match p.1 {
        Some(v) => seq![';'] + p.0 + seq!['='] + v,
        None => seq![';'] + p.0,
    }
}

/// The wire form of a parameter list.
pub open spec fn params_text(p: Seq<(Seq<char>, Option<Seq<char>>)>) -> Seq<char>
    decreases p.len(),
{
    if p.len() == 0 {
        Seq::empty()
    } else {
        params_text(p.drop_last()) + param_text(p.last())
    }
}

/// The canonical wire form of a URI.
pub open spec fn uri_text(u: UriView) -> Seq<char> {
    u.scheme + seq![':'] + (match u.user {
        Some(user) => user + seq!['@'],
        None => Seq::empty(),
    }) + u.host + (match u.port {
        Some(port) => seq![':'] + decimal(port as nat),
        None => Seq::empty(),
    }) + params_text(u.params)
}

impl Uri {
    pub fn new(scheme: String, host: String) -> (r: Self)
        ensures
            r.scheme == scheme,
            r.host == host,
            r.user is None,
            r.port is None,
            r.params@.len() == 0,
    {
        Uri { scheme, user: None, host, port: None, params: Vec::new() }
    }

    /// A copy of this URI.
    pub fn duplicate(&self) -> (r: Self)
        ensures
            r@ == self@,
    {
        let mut params: Vec<(String, Option<String>)> = Vec::new();
        let mut i: usize = 0;
        while i < self.params.len()
            invariant
                i <= self.params.len(),
                param_views(params@) == param_views(self.params@).take(i as int),
            decreases self.params.len() - i,
        {
            let value = match &self.params[i].1 {
                Some(v) => Some(v.clone()),
                None => None,
            };
            let ghost before = param_views(params@);
            params.push((self.params[i].0.clone(), value));
            assert(param_views(params@) =~= before.push(param_views(self.params@)[i as int]));
            assert(param_views(self.params@).take(i + 1) =~= param_views(self.params@).take(
                i as int,
            ).push(param_views(self.params@)[i as int]));
            i += 1;
        }
        assert(param_views(self.params@).take(self.params.len() as int) =~= param_views(
            self.params@,
        ));
        Uri {
            scheme: self.scheme.clone(),
            user: match &self.user {
                Some(u) => Some(u.clone()),
                None => None,
            },
            host: self.host.clone(),
            port: self.port,
            params,
        }
    }

    pub fn with_user(self, user: String) -> (r: Self)
        ensures
            r.user == Some(user),
            r.scheme == self.scheme,
            r.host == self.host,
            r.port == self.port,
            r.params == self.params,
    {
        let mut r = self;
        r.user = Some(user);
        r
    }

    pub fn with_port(self, port: u16) -> (r: Self)
        ensures
            r.port == Some(port),
            r.scheme == self.scheme,
            r.host == self.host,
            r.user == self.user,
            r.params == self.params,
    {
        let mut r = self;
        r.port = Some(port);
        r
    }

    /// Appends the canonical wire form of this URI to `out`.
    pub fn write_to(&self, out: &mut Vec<char>)
        ensures
            final(out)@ == old(out)@ + uri_text(self@),
    {
        let ghost start = out@;
        append_str(out, self.scheme.as_str());
        out.push(':');
        match &self.user {
            Some(user) => {
                append_str(out, user.as_str());
                out.push('@');
            },
            None => {},
        }
        append_str(out, self.host.as_str());
        match self.port {
            Some(port) => {
                out.push(':');
                push_decimal(out, port as u64);
            },
            None => {},
        }
        let ghost head = out@;
        let ghost pv = param_views(self.params@);
        assert(head =~= start + (self.scheme@ + seq![':'] + (match opt_text(self.user) {
            Some(user) => user + seq!['@'],
            None => Seq::empty(),
        }) + self.host@ + (match self.port {
            Some(port) => seq![':'] + decimal(port as nat),
            None => Seq::empty(),
        })));
        let mut i: usize = 0;
        assert(pv.take(0) =~= Seq::empty());
        while i < self.params.len()
            invariant
                i <= self.params.len(),
                pv == param_views(self.params@),
                out@ == head + params_text(pv.take(i as int)),
            decreases self.params.len() - i,
        {
            let ghost before = out@;
            out.push(';');
            append_str(out, self.params[i].0.as_str());
            match &self.params[i].1 {
                Some(v) => {
                    out.push('=');
                    append_str(out, v.as_str());
                },
                None => {},
            }
            proof {
                assert(pv.take(i + 1).drop_last() =~= pv.take(i as int));
                assert(pv.take(i + 1).last() == pv[i as int]);
                assert(out@ =~= before + param_text(pv[i as int]));
            }
            i += 1;
        }
        assert(pv.take(self.params.len() as int) =~= pv);
        assert(out@ =~= start + uri_text(self@));
    }

    /// The canonical wire form of this URI.
    pub fn to_string(&self) -> (s: String)
        ensures
            s@ == uri_text(self@),
    {
        let mut out: Vec<char> = Vec::new();
        self.write_to(&mut out);
        assert(Seq::<char>::empty() + uri_text(self@) =~= uri_text(self@));
        string_of(&out)
    }
}

// ---------------------------------------------------------------------------
// Reading
// ---------------------------------------------------------------------------

/// The scheme that stands at `pos`, with the index after its colon.
pub open spec fn scheme_at(s: Seq<char>, pos: int) -> Option<(Seq<char>, int)> {
    if occurs_at(s, "sips:"@, pos) {
        Some(("sips"@, pos + 5))
    } else if occurs_at(s, "sip:"@, pos) {
        Some(("sip"@, pos + 4))
    } else {
        None
    }
}

/// The user part that stands at `pos`, if a run of user characters there is
/// followed by `@`, with the index where the host starts.
pub open spec fn user_at(s: Seq<char>, pos: int) -> (Option<Seq<char>>, int) {
    let e = scan(s, CharClass::User, pos);
    if pos < e < s.len() && s[e] == '@' {
        (Some(s.subrange(pos, e)), e + 1)
    } else {
        (None, pos)
    }
}

/// The port at `pos`: absent when no colon stands there; a colon must be
/// followed by a decimal number of at most 65535.
pub open spec fn port_at(s: Seq<char>, pos: int) -> Option<(Option<u16>, int)> {
    if 0 <= pos < s.len() && s[pos] == ':' {
        let e = scan(s, CharClass::Digit, pos + 1);
        match parse_unsigned(s.subrange(pos + 1, e), 65535) {
            Some(n) => Some((Some(n as u16), e)),
            None => None,
        }
    } else {
        Some((None, pos))
    }
}

/// The parameter whose key starts at `pos` (just after a semicolon).
pub open spec fn param_at(s: Seq<char>, pos: int) -> Option<((Seq<char>, Option<Seq<char>>), int)> {
    let k = scan(s, CharClass::Param, pos);
    if k <= pos {
        None
    } else if k < s.len() && s[k] == '=' {
        let v = scan(s, CharClass::Param, k + 1);
        Some(((s.subrange(pos, k), Some(s.subrange(k + 1, v))), v))
    } else {
        Some(((s.subrange(pos, k), None), k))
    }
}

/// The parameters from `pos` on, after those in `acc`: as long as a
/// semicolon stands at the position, a parameter must follow it.
pub open spec fn params_from(
    s: Seq<char>,
    pos: int,
    acc: Seq<(Seq<char>, Option<Seq<char>>)>,
) -> Option<(Seq<(Seq<char>, Option<Seq<char>>)>, int)>
    decreases s.len() - pos,
{
    if 0 <= pos < s.len() && s[pos] == ';' {
        match param_at(s, pos + 1) {
            Some((item, next)) => if pos < next <= s.len() {
                params_from(s, next, acc.push(item))
            } else {
                None
            },
            None => None,
        }
    } else {
        Some((acc, pos))
    }
}

/// The URI that stands at `pos`, with the index after it.
pub open spec fn uri_at(s: Seq<char>, pos: int) -> Option<(UriView, int)> {
    match scheme_at(s, pos) {
        None => None,
        Some((scheme, at1)) => {
            let (user, at2) = user_at(s, at1);
            let at3 = scan(s, CharClass::Host, at2);
            if at3 <= at2 {
                None
            } else {
                match port_at(s, at3) {
                    None => None,
                    Some((port, at4)) => match params_from(s, at4, Seq::empty()) {
                        None => None,
                        Some((params, at5)) => Some(
                            (UriView { scheme, user, host: s.subrange(at2, at3), port, params }, at5),
                        ),
                    },
                }
            }
        },
    }
}

/// The URI that `s` is, if it is one from its first character to its last.
pub open spec fn parse_uri(s: Seq<char>) -> Option<UriView> {
    match uri_at(s, 0) {
        Some((u, e)) => if e == s.len() {
            Some(u)
        } else {
            None
        },
        None => None,
    }
}

fn read_params(v: &Vec<char>, pos: usize) -> (r: Option<(Vec<(String, Option<String>)>, usize)>)
    requires
        pos <= v.len(),
    ensures
        match r {
            Some((p, e)) => params_from(v@, pos as int, Seq::empty()) == Some(
                (param_views(p@), e as int),
            ) && pos <= e <= v.len(),
            None => params_from(v@, pos as int, Seq::empty()) is None,
        },
{
    let mut acc: Vec<(String, Option<String>)> = Vec::new();
    let mut at: usize = pos;
    assert(param_views(acc@) =~= Seq::empty());
    while at < v.len() && v[at] == ';'
        invariant
            pos <= at <= v.len(),
            params_from(v@, pos as int, Seq::empty()) == params_from(
                v@,
                at as int,
                param_views(acc@),
            ),
        decreases v.len() - at,
    {
        let ghost before = param_views(acc@);
        let k = scan_class(v, &CharClass::Param, at + 1);
        if k == at + 1 {
            return None;
        }
        let key = string_of_range(v, at + 1, k);
        if k < v.len() && v[k] == '=' {
            let e = scan_class(v, &CharClass::Param, k + 1);
            let value = string_of_range(v, k + 1, e);
            acc.push((key, Some(value)));
            assert(param_views(acc@) =~= before.push(
                (v@.subrange(at + 1, k as int), Some(v@.subrange(k + 1, e as int))),
            ));
            at = e;
        } else {
            acc.push((key, None));
            assert(param_views(acc@) =~= before.push((v@.subrange(at + 1, k as int), None)));
            at = k;
        }
    }
    Some((acc, at))
}

/// Reads the URI that stands at `pos`.
pub fn read_uri(v: &Vec<char>, pos: usize) -> (r: Option<(Uri, usize)>)
    requires
        pos <= v.len(),
    ensures
        match r {
            Some((u, e)) => uri_at(v@, pos as int) == Some((u@, e as int)) && pos <= e <= v.len(),
            None => uri_at(v@, pos as int) is None,
        },
{
    proof {
        reveal_strlit("sips:");
        reveal_strlit("sip:");
    }
    let sips = chars_of("sips:");
    let sip = chars_of("sip:");
    let scheme: String;
    let at1: usize;
    if matches_at(v, &sips, pos) {
        scheme = "sips".to_owned();
        at1 = pos + 5;
    } else if matches_at(v, &sip, pos) {
        scheme = "sip".to_owned();
        at1 = pos + 4;
    } else {
        return None;
    }
    let ue = scan_class(v, &CharClass::User, at1);
    let user: Option<String>;
    let at2: usize;
    if at1 < ue && ue < v.len() && v[ue] == '@' {
        user = Some(string_of_range(v, at1, ue));
        at2 = ue + 1;
    } else {
        user = None;
        at2 = at1;
    }
    let at3 = scan_class(v, &CharClass::Host, at2);
    if at3 == at2 {
        return None;
    }
    let host = string_of_range(v, at2, at3);
    let port: Option<u16>;
    let at4: usize;
    if at3 < v.len() && v[at3] == ':' {
        let de = scan_class(v, &CharClass::Digit, at3 + 1);
        let digits = slice_of(v, at3 + 1, de);
        match parse_number(&digits, 65535) {
            Some(n) => {
                port = Some(n as u16);
                at4 = de;
            },
            None => {
                return None;
            },
        }
    } else {
        port = None;
        at4 = at3;
    }
    match read_params(v, at4) {
        Some((params, at5)) => Some((Uri { scheme, user, host, port, params }, at5)),
        None => None,
    }
}

impl Uri {
    /// Reads a URI from its wire form; the whole of `s` must be the URI.
    pub fn parse(s: &str) -> (r: Option<Uri>)
        ensures
            match r {
                Some(u) => parse_uri(s@) == Some(u@),
                None => parse_uri(s@) is None,
            },
    {
        let v = chars_of(s);
        match read_uri(&v, 0) {
            Some((u, e)) => if e == v.len() {
                Some(u)
            } else {
                None
            },
            None => None,
        }
    }
}

} // verus!
