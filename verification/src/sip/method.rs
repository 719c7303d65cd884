//! SIP methods.

use vstd::prelude::*;
use vstd::string::*;
use crate::text::{str_eq, CharClass};

verus! {

/// A SIP method: one of the thirteen that this stack knows by name, or any
/// other token.
#[derive(Debug, Clone, PartialEq, Eq, Hash)]
pub enum Method {
    /// INVITE - initiate a session
    Invite,
    /// ACK - acknowledge INVITE
    Ack,
    /// BYE - terminate a session
    Bye,
    /// CANCEL - cancel pending request
    Cancel,
    /// REGISTER - register contact
    Register,
    /// OPTIONS - query capabilities
    Options,
    /// INFO - send mid-session information
    Info,
    /// PRACK - provisional acknowledgement
    Prack,
    /// SUBSCRIBE - subscribe to events
    Subscribe,
    /// NOTIFY - notify of events
    Notify,
    /// UPDATE - update session
    Update,
    /// REFER - refer to another resource
    Refer,
    /// MESSAGE - instant message
    Message,
    /// A method outside the known set, by its token.
    Other(String),
}

/// Whether `s` is the name of one of the thirteen known methods.
pub open spec fn is_known_method(s: Seq<char>) -> bool {
    s == "INVITE"@ || s == "ACK"@ || s == "BYE"@ || s == "CANCEL"@ || s == "REGISTER"@ || s
        == "OPTIONS"@ || s == "INFO"@ || s == "PRACK"@ || s == "SUBSCRIBE"@ || s == "NOTIFY"@ || s
        == "UPDATE"@ || s == "REFER"@ || s == "MESSAGE"@
}

/// Whether `s` can stand as a method on the wire: a non-empty run of name
/// characters.
pub open spec fn is_method_token(s: Seq<char>) -> bool {
    s.len() > 0 && forall|i: int| 0 <= i < s.len() ==> CharClass::Name.has(#[trigger] s[i])
}

impl View for Method {
    type V = Seq<char>;

    /// A method is viewed as its name on the wire.
    open spec fn view(&self) -> Seq<char> {
        match self {
            Method::Invite => "INVITE"@,
            Method::Ack => "ACK"@,
            Method::Bye => "BYE"@,
            Method::Cancel => "CANCEL"@,
            Method::Register => "REGISTER"@,
            Method::Options => "OPTIONS"@,
            Method::Info => "INFO"@,
            Method::Prack => "PRACK"@,
            Method::Subscribe => "SUBSCRIBE"@,
            Method::Notify => "NOTIFY"@,
            Method::Update => "UPDATE"@,
            Method::Refer => "REFER"@,
            Method::Message => "MESSAGE"@,
            Method::Other(s) => s@,
        }
    }
}

impl Method {
    /// The method's name on the wire.
    pub fn as_str(&self) -> (s: &str)
        ensures
            s@ == self@,
    {
        match self {
            Method::Invite => "INVITE",
            Method::Ack => "ACK",
            Method::Bye => "BYE",
            Method::Cancel => "CANCEL",
            Method::Register => "REGISTER",
            Method::Options => "OPTIONS",
            Method::Info => "INFO",
            Method::Prack => "PRACK",
            Method::Subscribe => "SUBSCRIBE",
            Method::Notify => "NOTIFY",
            Method::Update => "UPDATE",
            Method::Refer => "REFER",
            Method::Message => "MESSAGE",
            Method::Other(s) => s.as_str(),
        }
    }

    /// The method's name as an owned string.
    pub fn to_string(&self) -> (s: String)
        ensures
            s@ == self@,
    {
        self.as_str().to_owned()
    }

    /// The method that a name denotes: the known variant for a known name,
    /// `Other` for anything else. The name is kept as it is.
    pub fn from_name(s: &str) -> (m: Method)
        ensures
            m@ == s@,
            is_known_method(s@) <==> !(m is Other),
    {
        if str_eq(s, "INVITE") {
            Method::Invite
        } else if str_eq(s, "ACK") {
            Method::Ack
        } else if str_eq(s, "BYE") {
            Method::Bye
        } else if str_eq(s, "CANCEL") {
            Method::Cancel
        } else if str_eq(s, "REGISTER") {
            Method::Register
        } else if str_eq(s, "OPTIONS") {
            Method::Options
        } else if str_eq(s, "INFO") {
            Method::Info
        } else if str_eq(s, "PRACK") {
            Method::Prack
        } else if str_eq(s, "SUBSCRIBE") {
            Method::Subscribe
        } else if str_eq(s, "NOTIFY") {
            Method::Notify
        } else if str_eq(s, "UPDATE") {
            Method::Update
        } else if str_eq(s, "REFER") {
            Method::Refer
        } else if str_eq(s, "MESSAGE") {
            Method::Message
        } else {
            Method::Other(s.to_owned())
        }
    }

    /// Reads a method name; only the thirteen known names are accepted.
    pub fn from_str(s: &str) -> (r: Result<Method, String>)
        ensures
            r is Ok <==> is_known_method(s@),
            r is Ok ==> r->Ok_0@ == s@ && !(r->Ok_0 is Other),
    {
        let m = Method::from_name(s);
        match m {
            Method::Other(_) => Err(unknown_method_text(s)),
            known => Ok(known),
        }
    }

    /// Whether this is one of the thirteen known methods.
    pub fn is_known(&self) -> (b: bool)
        ensures
            b == !(self is Other),
    {
        match self {
            Method::Other(_) => false,
            _ => true,
        }
    }
}

fn unknown_method_text(s: &str) -> (r: String)
    ensures
        r@ == "Unknown SIP method: "@ + s@,
{
    let r = "Unknown SIP method: ".to_owned();
    r.concat(s)
}

} // verus!
