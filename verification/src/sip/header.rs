//! SIP headers.

use vstd::prelude::*;
use vstd::string::*;
use crate::ip::SocketAddress;
use crate::text::{eq_ignore_case, opt_text, str_eq_ignore_case};

verus! {

/// SIP header name. The spelling is kept; names compare without regard to
/// the case of ASCII letters.
#[derive(Debug, Clone, PartialEq, Eq, Hash)]
pub struct HeaderName(pub String);

impl View for HeaderName {
    type V = Seq<char>;

    open spec fn view(&self) -> Seq<char> {
        self.0@
    }
}

impl HeaderName {
    pub const VIA: &'static str = "Via";

    pub const FROM: &'static str = "From";

    pub const TO: &'static str = "To";

    pub const CALL_ID: &'static str = "Call-ID";

    pub const CSEQ: &'static str = "CSeq";

    pub const CONTACT: &'static str = "Contact";

    pub const CONTENT_TYPE: &'static str = "Content-Type";

    pub const CONTENT_LENGTH: &'static str = "Content-Length";

    pub const MAX_FORWARDS: &'static str = "Max-Forwards";

    pub const USER_AGENT: &'static str = "User-Agent";

    pub const ALLOW: &'static str = "Allow";

    pub const SUPPORTED: &'static str = "Supported";

    pub const REQUIRE: &'static str = "Require";

    pub const ROUTE: &'static str = "Route";

    pub const RECORD_ROUTE: &'static str = "Record-Route";

    pub fn new(name: &str) -> (r: Self)
        ensures
            r@ == name@,
    {
        HeaderName(name.to_owned())
    }

    pub fn as_str(&self) -> (s: &str)
        ensures
            s@ == self@,
    {
        self.0.as_str()
    }

    pub fn to_string(&self) -> (s: String)
        ensures
            s@ == self@,
    {
        self.0.clone()
    }

    /// Whether this name is `name` up to the case of ASCII letters.
    pub fn is(&self, name: &str) -> (b: bool)
        ensures
            b == eq_ignore_case(self@, name@),
    {
        str_eq_ignore_case(self.0.as_str(), name)
    }
}

/// SIP header value, kept verbatim.
#[derive(Debug, Clone, PartialEq)]
pub struct HeaderValue(pub String);

impl View for HeaderValue {
    type V = Seq<char>;

    open spec fn view(&self) -> Seq<char> {
        self.0@
    }
}

impl HeaderValue {
    pub fn new(value: &str) -> (r: Self)
        ensures
            r@ == value@,
    {
        HeaderValue(value.to_owned())
    }

    pub fn as_str(&self) -> (s: &str)
        ensures
            s@ == self@,
    {
        self.0.as_str()
    }

    pub fn to_string(&self) -> (s: String)
        ensures
            s@ == self@,
    {
        self.0.clone()
    }
}

/// What a header holds: its name and its value as texts.
pub struct HeaderView {
    pub name: Seq<char>,
    pub value: Seq<char>,
}

/// A SIP header.
#[derive(Debug, Clone)]
pub struct Header {
    pub name: HeaderName,
    pub value: HeaderValue,
}

impl View for Header {
    type V = HeaderView;

    open spec fn view(&self) -> HeaderView {
        HeaderView { name: self.name@, value: self.value@ }
    }
}

impl Header {
    pub fn new(name: &str, value: &str) -> (r: Self)
        ensures
            r@ == (HeaderView { name: name@, value: value@ }),
    {
        Header { name: HeaderName::new(name), value: HeaderValue::new(value) }
    }
}

/// The views of a list of headers, in order.
pub open spec fn header_views(h: Seq<Header>) -> Seq<HeaderView> {
    Seq::new(h.len(), |i: int| h[i]@)
}

/// The index of the first header of `h` named `name` (up to ASCII case), or
/// the length of `h` when there is none.
pub open spec fn header_index(h: Seq<HeaderView>, name: Seq<char>) -> int
    decreases h.len(),
{
    if h.len() == 0 {
        0
    } else if eq_ignore_case(h[0].name, name) {
        0
    } else {
        1 + header_index(h.skip(1), name)
    }
}

/// The value of the first header of `h` named `name` (up to ASCII case).
pub open spec fn header_value(h: Seq<HeaderView>, name: Seq<char>) -> Option<Seq<char>> {
    let i = header_index(h, name);
    if 0 <= i < h.len() {
        Some(h[i].value)
    } else {
        None
    }
}

pub proof fn lemma_header_index(h: Seq<HeaderView>, name: Seq<char>, r: int)
    requires
        0 <= r <= h.len(),
        forall|j: int| 0 <= j < r ==> !eq_ignore_case(#[trigger] h[j].name, name),
        r < h.len() ==> eq_ignore_case(h[r].name, name),
    ensures
        header_index(h, name) == r,
    decreases h.len(),
{
    if h.len() == 0 {
    } else if r == 0 {
    } else {
        assert(!eq_ignore_case(h[0].name, name));
        assert forall|j: int| 0 <= j < r - 1 implies !eq_ignore_case(
            #[trigger] h.skip(1)[j].name,
            name,
        ) by {
            assert(h.skip(1)[j] == h[j + 1]);
        }
        lemma_header_index(h.skip(1), name, r - 1);
    }
}

/// The first header of `headers` named `name` (up to ASCII case).
pub fn find_header<'a>(headers: &'a Vec<Header>, name: &str) -> (r: Option<&'a Header>)
    ensures
        match r {
            Some(h) => {
                let i = header_index(header_views(headers@), name@);
                0 <= i < headers.len() && *h == headers@[i]
            },
            None => header_index(header_views(headers@), name@) == headers.len(),
        },
        r.is_some() <==> header_value(header_views(headers@), name@).is_some(),
        r.is_some() ==> r.unwrap().value@ == header_value(
            header_views(headers@),
            name@,
        ).unwrap(),
{
    let mut i: usize = 0;
    while i < headers.len()
        invariant
            i <= headers.len(),
            forall|j: int|
                0 <= j < i ==> !eq_ignore_case(#[trigger] header_views(headers@)[j].name, name@),
        decreases headers.len() - i,
    {
        if headers[i].name.is(name) {
            proof {
                lemma_header_index(header_views(headers@), name@, i as int);
            }
            return Some(&headers[i]);
        }
        i += 1;
    }
    proof {
        lemma_header_index(header_views(headers@), name@, i as int);
    }
    None
}

/// SIP Via header representation: the transport protocol, the address
/// that sent the message, the branch of the transaction, and the other
/// parameters in order.
#[derive(Debug, Clone)]
pub struct Via {
    pub protocol: String,
    pub sent_by: SocketAddress,
    pub branch: String,
    pub params: Vec<(String, Option<String>)>,
}

/// What a Via header holds.
pub struct ViaView {
    pub protocol: Seq<char>,
    pub sent_by: SocketAddress,
    pub branch: Seq<char>,
    pub params: Seq<(Seq<char>, Option<Seq<char>>)>,
}

impl View for Via {
    type V = ViaView;

    open spec fn view(&self) -> ViaView {
        ViaView {
            protocol: self.protocol@,
            sent_by: self.sent_by,
            branch: self.branch@,
            params: Seq::new(
                self.params@.len(),
                |i: int| (self.params@[i].0@, opt_text(self.params@[i].1)),
            ),
        }
    }
}

} // verus!
