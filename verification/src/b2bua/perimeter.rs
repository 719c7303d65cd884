//! The perimeter before the bridge: a message passes it where the ACL allows
//! its source and, where credentials are asked for, the credentials it
//! comes with are good.

use vstd::prelude::*;
use vstd::string::*;
use crate::acl::{AclManager, AclView};
use crate::auth::{
    authorization, challenge_text, nonce_text, random_u64, table_insert, validate_fields,
    AuthError, AuthManager, NonceView,
};
use crate::b2bua::call::{action_views, reply_to, Action, ActionView};
use crate::b2bua::dialog::header;
use crate::b2bua::policy::{screen, screened};
use crate::b2bua::reply::{answer, answer_on, echo_headers, echoed};
use crate::b2bua::session::random_uuid;
use crate::clock::unix_now;
use crate::ip::SocketAddress;
use crate::sip::header::{header_value, header_views, Header};
use crate::sip::message::{Message, MessageView, Request, RequestView};
use crate::text::{opt_str, opt_text, str_eq};

verus! {

/// The answer that asks for credentials: `401 Unauthorized` with the
/// challenge of the nonce.
pub open spec fn challenge_reply(
    request: RequestView,
    realm: Seq<char>,
    nonce: Seq<char>,
    tag: Seq<char>,
) -> ActionView {
    ActionView::Reply(
        MessageView::Response(
            answer_on(
                401,
                echoed(request.headers, tag),
                seq![
                    header(
                        "WWW-Authenticate"@,
                        challenge_text(realm, nonce, "MD5"@, Some("auth"@)),
                    ),
                ],
            ),
        ),
    )
}

/// The check of the credentials that a request comes with: the nonce
/// table after it, and whether they are good. They are not where the
/// request has no `Authorization` header or one that cannot be read,
/// where the user it names has no password, and where the validation of
/// the response fails.
pub open spec fn checked(
    table: Seq<NonceView>,
    realm: Seq<char>,
    request: RequestView,
    password: Option<Seq<char>>,
    now: u64,
) -> (Seq<NonceView>, bool) {
    match header_value(request.headers, "Authorization"@) {
        None => (table, false),
        Some(h) => match authorization(h) {
            Err(_) => (table, false),
            Ok(f) => match password {
                None => (table, false),
                Some(p) => {
                    let (after, verdict) = validate_fields(
                        table,
                        realm,
                        f,
                        p,
                        request.method,
                        now,
                    );
                    (after, verdict == Ok::<bool, AuthError>(true))
                },
            },
        },
    }
}

/// What the perimeter does with a message from `source`: the nonce table after
/// it, and whether the message passes. A message that does not pass comes
/// with what is sent in its place.
///
/// A source that the ACL does not allow is turned away: a request is
/// answered with `403 Forbidden`, and a response is dropped. Where
/// credentials are asked for, an INVITE passes with good credentials
/// only; else a fresh challenge is issued and the INVITE is answered with
/// `401 Unauthorized`. Every other message passes.
pub open spec fn admission(
    acls: Seq<AclView>,
    acl: Option<Seq<char>>,
    protect: bool,
    table: Seq<NonceView>,
    realm: Seq<char>,
    message: MessageView,
    source: SocketAddress,
    password: Option<Seq<char>>,
    now: u64,
    random: u64,
    tag: Seq<char>,
) -> (Seq<NonceView>, Result<(), Seq<ActionView>>) {
    if acl is Some && screened(acls, acl->0, source.ip) is Some {
        (
            table,
            Err(
                match message {
                    MessageView::Request(r) => seq![reply_to(r, 403, tag)],
                    MessageView::Response(_) => Seq::empty(),
                },
            ),
        )
    } else {
        match message {
            MessageView::Request(r) => if protect && r.method == "INVITE"@ {
                let (after, good) = checked(table, realm, r, password, now);
                if good {
                    (after, Ok(()))
                } else {
                    (
                        table_insert(after, nonce_text(now, random), now),
                        Err(seq![challenge_reply(r, realm, nonce_text(now, random), tag)]),
                    )
                }
            } else {
                (table, Ok(()))
            },
            MessageView::Response(_) => (table, Ok(())),
        }
    }
}

/// The perimeter: the ACLs and the credentials by which messages are let in.
pub struct Perimeter {
    acls: AclManager,
    acl: Option<String>,
    auth: AuthManager,
    protect: bool,
}

/// What the verdict on a message holds.
pub open spec fn verdict_view(r: Result<(), Vec<Action>>) -> Result<(), Seq<ActionView>> {
    match r {
        Ok(_) => Ok(()),
        Err(a) => Err(action_views(a@)),
    }
}

fn request_header<'a>(request: &'a Request, name: &str) -> (r: Option<&'a str>)
    ensures
        opt_str(r) == header_value(request@.headers, name@),
{
    request.get_header_value(name)
}

/// The user that the credentials of a message name, if it comes with
/// credentials that can be read.
pub fn claimed_user(message: &Message) -> (r: Option<String>)
    ensures
        opt_text(r) == (match message@ {
            MessageView::Request(q) => match header_value(q.headers, "Authorization"@) {
                Some(h) => match authorization(h) {
                    Ok(f) => Some(f.0),
                    Err(_) => None,
                },
                None => None,
            },
            MessageView::Response(_) => None,
        }),
{
    match message {
        Message::Request(request) => match request_header(request, "Authorization") {
            Some(h) => match AuthManager::parse_authorization(h) {
                Ok(d) => Some(d.username),
                Err(_) => None,
            },
            None => None,
        },
        Message::Response(_) => None,
    }
}

impl Perimeter {
    /// The ACLs.
    pub closed spec fn lists(&self) -> Seq<AclView> {
        self.acls@
    }

    /// The name of the ACL by which sources are screened, if they are.
    pub closed spec fn list(&self) -> Option<Seq<char>> {
        opt_text(self.acl)
    }

    /// Whether credentials are asked for.
    pub closed spec fn protects(&self) -> bool {
        self.protect
    }

    /// The nonces that were issued.
    pub closed spec fn table(&self) -> Seq<NonceView> {
        self.auth.table()
    }

    /// The realm of the challenges.
    pub closed spec fn realm(&self) -> Seq<char> {
        self.auth.realm_text()
    }

    /// The nonce table is well formed.
    pub closed spec fn wf(&self) -> bool {
        self.auth.wf()
    }

    /// A perimeter that screens sources by the ACL `acl` of `acls`, if one is
    /// named, and asks for credentials in `realm` if `protect` is set.
    pub fn new(acls: AclManager, acl: Option<String>, realm: &str, protect: bool) -> (r: Self)
        ensures
            r.wf(),
            r.lists() == acls@,
            r.list() == opt_text(acl),
            r.protects() == protect,
            r.realm() == realm@,
            r.table() == Seq::<NonceView>::empty(),
    {
        Perimeter { acls, acl, auth: AuthManager::new(realm), protect }
    }

    /// Begins or ends to ask for credentials; the nonces stay as they are.
    pub fn set_protection(&mut self, protect: bool)
        requires
            old(self).wf(),
        ensures
            final(self).wf(),
            final(self).protects() == protect,
            final(self).table() == old(self).table(),
            final(self).realm() == old(self).realm(),
            final(self).lists() == old(self).lists(),
            final(self).list() == old(self).list(),
    {
        self.protect = protect;
    }

    /// The number of nonces that are held.
    pub fn nonce_count(&self) -> (n: usize)
        ensures
            n == self.table().len(),
    {
        self.auth.nonce_count()
    }

    /// Drops the nonces that are too old at `now`.
    pub fn sweep_at(&mut self, now: u64)
        requires
            old(self).wf(),
        ensures
            final(self).wf(),
            final(self).table() == crate::auth::sweep(old(self).table(), now),
            final(self).realm() == old(self).realm(),
            final(self).lists() == old(self).lists(),
            final(self).list() == old(self).list(),
            final(self).protects() == old(self).protects(),
    {
        self.auth.cleanup_nonces_at(now);
    }

    fn check(&mut self, request: &Request, password: Option<&str>, now: u64) -> (good: bool)
        requires
            old(self).wf(),
        ensures
            final(self).wf(),
            (final(self).table(), good) == checked(
                old(self).table(),
                old(self).realm(),
                request@,
                opt_str(password),
                now,
            ),
            final(self).realm() == old(self).realm(),
            final(self).acls == old(self).acls,
            final(self).acl == old(self).acl,
            final(self).protect == old(self).protect,
    {
        let h = match request_header(request, "Authorization") {
            Some(h) => h,
            None => {
                return false;
            },
        };
        let d = match AuthManager::parse_authorization(h) {
            Ok(d) => d,
            Err(_) => {
                return false;
            },
        };
        let p = match password {
            Some(p) => p,
            None => {
                return false;
            },
        };
        match self.auth.validate_response_at(&d, p, request.method.as_str(), now) {
            Ok(true) => true,
            _ => false,
        }
    }

    /// Lets a message from `source` pass, or turns it away, at the time
    /// `now`. `password` is the password of the user that the message
    /// names, if that user has one; a challenge that is issued draws
    /// `random`, and an answer that is sent carries `tag`.
    pub fn pass_at(
        &mut self,
        message: &Message,
        source: SocketAddress,
        password: Option<&str>,
        now: u64,
        random: u64,
        tag: &str,
    ) -> (r: Result<(), Vec<Action>>)
        requires
            old(self).wf(),
        ensures
            final(self).wf(),
            (final(self).table(), verdict_view(r)) == admission(
                old(self).lists(),
                old(self).list(),
                old(self).protects(),
                old(self).table(),
                old(self).realm(),
                message@,
                source,
                opt_str(password),
                now,
                random,
                tag@,
            ),
            final(self).realm() == old(self).realm(),
            final(self).lists() == old(self).lists(),
            final(self).list() == old(self).list(),
            final(self).protects() == old(self).protects(),
    {
        let refused = match &self.acl {
            Some(name) => screen(&self.acls, name.as_str(), source.ip).is_some(),
            None => false,
        };
        if refused {
            let mut out: Vec<Action> = Vec::new();
            match message {
                Message::Request(request) => {
                    let no = crate::b2bua::bridge::reply(request, 403, tag);
                    out.push(no);
                    assert(action_views(out@) =~= seq![no@]);
                },
                Message::Response(_) => {
                    assert(action_views(out@) =~= Seq::empty());
                },
            }
            return Err(out);
        }
        let request = match message {
            Message::Request(request) => request,
            Message::Response(_) => {
                return Ok(());
            },
        };
        if !self.protect || !str_eq(request.method.as_str(), "INVITE") {
            return Ok(());
        }
        if self.check(request, password, now) {
            return Ok(());
        }
        let challenge = self.auth.issue_challenge(now, random);
        let echo = echo_headers(&request.headers, tag);
        let mut extra: Vec<Header> = Vec::new();
        extra.push(
            Header::new("WWW-Authenticate", AuthManager::format_challenge(&challenge).as_str()),
        );
        assert(header_views(extra@) =~= seq![
            header(
                "WWW-Authenticate"@,
                challenge_text(self.realm(), nonce_text(now, random), "MD5"@, Some("auth"@)),
            ),
        ]);
        let ask = Action::Reply(Message::Response(answer(401, &echo, &extra)));
        let mut out: Vec<Action> = Vec::new();
        out.push(ask);
        assert(action_views(out@) =~= seq![ask@]);
        Err(out)
    }

    /// Lets a message from `source` pass, or turns it away, at the time of
    /// the system clock.
    pub fn pass(&mut self, message: &Message, source: SocketAddress, password: Option<&str>) -> (r:
        Result<(), Vec<Action>>)
        requires
            old(self).wf(),
        ensures
            final(self).wf(),
            exists|now: u64, random: u64, tag: Seq<char>|
                (final(self).table(), verdict_view(r)) == admission(
                    old(self).lists(),
                    old(self).list(),
                    old(self).protects(),
                    old(self).table(),
                    old(self).realm(),
                    message@,
                    source,
                    opt_str(password),
                    now,
                    random,
                    tag,
                ),
            final(self).realm() == old(self).realm(),
            final(self).lists() == old(self).lists(),
            final(self).list() == old(self).list(),
            final(self).protects() == old(self).protects(),
    {
        let now = unix_now();
        let random = random_u64();
        let tag = random_uuid();
        self.pass_at(message, source, password, now, random, tag.as_str())
    }
}

} // verus!
