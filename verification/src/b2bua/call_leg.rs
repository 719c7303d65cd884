//! Call leg representation.

use vstd::prelude::*;
use vstd::string::*;
use crate::ip::SocketAddress;
use crate::text::opt_text;

verus! {

/// Represents one leg of a B2BUA call.
#[derive(Debug, Clone)]
pub struct CallLeg {
    /// Remote party address
    pub remote_addr: SocketAddress,
    /// From URI
    pub from_uri: String,
    /// To URI
    pub to_uri: String,
    /// Contact URI
    pub contact: Option<String>,
    /// SDP offer/answer
    pub sdp: Option<String>,
    /// Tag of this side in the leg's dialog
    pub local_tag: String,
    /// Sequence number of the last request sent on the leg
    pub cseq: u32,
}

/// What a call leg holds.
pub struct LegView {
    pub remote_addr: SocketAddress,
    pub from_uri: Seq<char>,
    pub to_uri: Seq<char>,
    pub contact: Option<Seq<char>>,
    pub sdp: Option<Seq<char>>,
    pub local_tag: Seq<char>,
    pub cseq: u32,
}

impl View for CallLeg {
    type V = LegView;

    open spec fn view(&self) -> LegView {
        LegView {
            remote_addr: self.remote_addr,
            from_uri: self.from_uri@,
            to_uri: self.to_uri@,
            contact: opt_text(self.contact),
            sdp: opt_text(self.sdp),
            local_tag: self.local_tag@,
            cseq: self.cseq,
        }
    }
}

/// A leg between two parties, with nothing else known of it.
pub open spec fn fresh_leg(remote_addr: SocketAddress, from_uri: Seq<char>, to_uri: Seq<char>) -> LegView {
    LegView {
        remote_addr,
        from_uri,
        to_uri,
        contact: None,
        sdp: None,
        local_tag: Seq::empty(),
        cseq: 0,
    }
}

impl CallLeg {
    pub fn new(remote_addr: SocketAddress, from_uri: String, to_uri: String) -> (r: Self)
        ensures
            r@ == fresh_leg(remote_addr, from_uri@, to_uri@),
    {
        CallLeg {
            remote_addr,
            from_uri,
            to_uri,
            contact: None,
            sdp: None,
            local_tag: String::new(),
            cseq: 0,
        }
    }

    /// A copy of this leg.
    pub fn duplicate(&self) -> (r: Self)
        ensures
            r@ == self@,
    {
        CallLeg {
            remote_addr: self.remote_addr,
            from_uri: self.from_uri.clone(),
            to_uri: self.to_uri.clone(),
            contact: match &self.contact {
                Some(c) => Some(c.clone()),
                None => None,
            },
            sdp: match &self.sdp {
                Some(s) => Some(s.clone()),
                None => None,
            },
            local_tag: self.local_tag.clone(),
            cseq: self.cseq,
        }
    }

    pub fn with_contact(self, contact: String) -> (r: Self)
        ensures
            r@ == (LegView { contact: Some(contact@), ..self@ }),
    {
        let mut r = self;
        r.contact = Some(contact);
        r
    }

    pub fn with_sdp(self, sdp: String) -> (r: Self)
        ensures
            r@ == (LegView { sdp: Some(sdp@), ..self@ }),
    {
        let mut r = self;
        r.sdp = Some(sdp);
        r
    }

    pub fn with_local_tag(self, tag: String) -> (r: Self)
        ensures
            r@ == (LegView { local_tag: tag@, ..self@ }),
    {
        let mut r = self;
        r.local_tag = tag;
        r
    }

    /// The sequence number for the next request on this leg; the counter
    /// stays where it is once it can count no further.
    pub fn next_cseq(&mut self) -> (n: u32)
        ensures
            n == (if old(self).cseq < u32::MAX {
                old(self).cseq + 1
            } else {
                old(self).cseq as int
            }),
            final(self)@ == (LegView { cseq: n, ..old(self)@ }),
    {
        if self.cseq < u32::MAX {
            self.cseq = self.cseq + 1;
        }
        self.cseq
    }
}

} // verus!
