//! SIP digest authentication (RFC 2617): challenges, responses, and the
//! table of issued nonces.
//!
//! A nonce is valid for 300 seconds after it was issued, and for one
//! validation.

use vstd::prelude::*;
use vstd::string::*;
use vstd::utf8::encode_utf8;
use crate::clock::unix_now;
use crate::numeral::{hex, hex_bytes, hex_of_bytes, push_hex};
use crate::text::{
    append_chars, append_str, chars_of, matches_at, occurs_at, opt_str, opt_text, scan, scan_class,
    slice_of, split, split_chars, str_eq, string_of, trim, trim_chars, views, CharClass,
};

verus! {

/// The seconds for which a nonce is valid.
pub const NONCE_LIFETIME: u64 = 300;

/// Why a digest response was not checked, or an `Authorization` header not
/// read.
#[derive(Debug, Clone, Copy, PartialEq, Eq, Structural)]
pub enum AuthError {
    /// The nonce was never issued, or was swept.
    InvalidNonce,
    /// The nonce was issued more than 300 seconds ago.
    NonceExpired,
    /// The nonce was presented before.
    NonceUsed,
    /// `qop=auth` without `nc`.
    MissingNc,
    /// `qop=auth` without `cnonce`.
    MissingCnonce,
    /// The header does not start with `Digest `.
    NotDigest,
    MissingUsername,
    MissingRealm,
    MissingNonce,
    MissingUri,
    MissingResponse,
}

impl AuthError {
    /// A description of the error.
    pub fn message(&self) -> (s: String)
        ensures
            s@ == (match self {
                AuthError::InvalidNonce => "Invalid nonce"@,
                AuthError::NonceExpired => "Nonce expired"@,
                AuthError::NonceUsed => "Nonce already used"@,
                AuthError::MissingNc => "nc required for qop=auth"@,
                AuthError::MissingCnonce => "cnonce required for qop=auth"@,
                AuthError::NotDigest => "Not a Digest authorization header"@,
                AuthError::MissingUsername => "Missing username"@,
                AuthError::MissingRealm => "Missing realm"@,
                AuthError::MissingNonce => "Missing nonce"@,
                AuthError::MissingUri => "Missing uri"@,
                AuthError::MissingResponse => "Missing response"@,
            }),
    {
        match self {
            AuthError::InvalidNonce => "Invalid nonce".to_owned(),
            AuthError::NonceExpired => "Nonce expired".to_owned(),
            AuthError::NonceUsed => "Nonce already used".to_owned(),
            AuthError::MissingNc => "nc required for qop=auth".to_owned(),
            AuthError::MissingCnonce => "cnonce required for qop=auth".to_owned(),
            AuthError::NotDigest => "Not a Digest authorization header".to_owned(),
            AuthError::MissingUsername => "Missing username".to_owned(),
            AuthError::MissingRealm => "Missing realm".to_owned(),
            AuthError::MissingNonce => "Missing nonce".to_owned(),
            AuthError::MissingUri => "Missing uri".to_owned(),
            AuthError::MissingResponse => "Missing response".to_owned(),
        }
    }
}

// ---------------------------------------------------------------------------
// Hashing
// ---------------------------------------------------------------------------

/// The MD5 digest of a byte string.
pub uninterp spec fn md5_hash(data: Seq<u8>) -> Seq<u8>;

/// `md5::compute` gives the MD5 digest of its input, 16 bytes.
#[verifier::external_body]
fn md5_of(data: &Vec<u8>) -> (r: Vec<u8>)
    ensures
        r@ == md5_hash(data@),
        r@.len() == 16,
{
    md5::compute(data).0.to_vec()
}

/// `rand::random` gives a random number. Nothing is promised of it.
#[verifier::external_body]
pub(crate) fn random_u64() -> u64 {
    rand::random::<u64>()
}

/// The MD5 digest of the UTF-8 form of `text`, in lower-case hexadecimal.
pub open spec fn md5_hex(text: Seq<char>) -> Seq<char> {
    hex_bytes(md5_hash(encode_utf8(text)))
}

fn md5_hex_of(text: &Vec<char>) -> (r: Vec<char>)
    ensures
        r@ == md5_hex(text@),
{
    let s = string_of(text);
    let bytes = s.as_str().as_bytes_vec();
    let digest = md5_of(&bytes);
    let h = hex_of_bytes(&digest);
    chars_of(h.as_str())
}

/// The response that a client owes:
/// `MD5(HA1:nonce:nc:cnonce:auth:HA2)` under `qop=auth`, for which `nc` and
/// `cnonce` are required, and `MD5(HA1:nonce:HA2)` otherwise, with
/// `HA1 = MD5(username:realm:password)` and `HA2 = MD5(method:uri)`.
pub open spec fn digest_response(
    username: Seq<char>,
    realm: Seq<char>,
    password: Seq<char>,
    method: Seq<char>,
    uri: Seq<char>,
    nonce: Seq<char>,
    nc: Option<Seq<char>>,
    cnonce: Option<Seq<char>>,
    qop: Option<Seq<char>>,
) -> Result<Seq<char>, AuthError> {
    let ha1 = md5_hex(username + seq![':'] + realm + seq![':'] + password);
    let ha2 = md5_hex(method + seq![':'] + uri);
    if qop == Some("auth"@) {
        match nc {
            None => Err(AuthError::MissingNc),
            Some(nc) => match cnonce {
                None => Err(AuthError::MissingCnonce),
                Some(cnonce) => Ok(
                    md5_hex(
                        ha1 + seq![':'] + nonce + seq![':'] + nc + seq![':'] + cnonce + ":auth:"@
                            + ha2,
                    ),
                ),
            },
        }
    } else {
        Ok(md5_hex(ha1 + seq![':'] + nonce + seq![':'] + ha2))
    }
}

/// Whether two texts are equal, in a time that depends on their lengths
/// alone where the lengths agree.
pub fn constant_time_eq(a: &str, b: &str) -> (r: bool)
    ensures
        r == (a@ == b@),
{
    let va = chars_of(a);
    let vb = chars_of(b);
    if va.len() != vb.len() {
        return false;
    }
    let mut diff: u32 = 0;
    let mut i: usize = 0;
    assert(va@.take(0) =~= vb@.take(0));
    while i < va.len()
        invariant
            i <= va.len(),
            va.len() == vb.len(),
            (diff == 0) == (va@.take(i as int) == vb@.take(i as int)),
        decreases va.len() - i,
    {
        let x = va[i] as u32;
        let y = vb[i] as u32;
        let ghost before = diff;
        diff = diff | (x ^ y);
        proof {
            assert((before | (x ^ y)) == 0 <==> (before == 0 && x == y)) by (bit_vector);
            assert((x == y) == (va@[i as int] == vb@[i as int])) by {
                vstd::utf8::char_u32_cast(va@[i as int], x);
                vstd::utf8::char_u32_cast(vb@[i as int], y);
            }
            assert(va@.take(i + 1) =~= va@.take(i as int).push(va@[i as int]));
            assert(vb@.take(i + 1) =~= vb@.take(i as int).push(vb@[i as int]));
            if va@.take(i + 1) == vb@.take(i + 1) {
                assert(va@.take(i + 1).drop_last() =~= va@.take(i as int));
                assert(vb@.take(i + 1).drop_last() =~= vb@.take(i as int));
                assert(va@.take(i + 1).last() == vb@.take(i + 1).last());
            }
        }
        i += 1;
    }
    assert(va@.take(va.len() as int) == va@);
    assert(vb@.take(vb.len() as int) == vb@);
    diff == 0
}

// ---------------------------------------------------------------------------
// Challenge and response
// ---------------------------------------------------------------------------

/// Digest authentication challenge.
#[derive(Debug, Clone)]
pub struct DigestChallenge {
    pub realm: String,
    pub nonce: String,
    pub algorithm: String,
    pub qop: Option<String>,
}

/// Digest authentication response from client.
#[derive(Debug, Clone)]
pub struct DigestResponse {
    pub username: String,
    pub realm: String,
    pub nonce: String,
    pub uri: String,
    pub response: String,
    pub algorithm: Option<String>,
    pub qop: Option<String>,
    pub nc: Option<String>,
    pub cnonce: Option<String>,
}

/// The text of a challenge as a `WWW-Authenticate` header value.
pub open spec fn challenge_text(
    realm: Seq<char>,
    nonce: Seq<char>,
    algorithm: Seq<char>,
    qop: Option<Seq<char>>,
) -> Seq<char> {
    let head = "Digest realm=\""@ + realm + "\", nonce=\""@ + nonce + "\", algorithm="@ + algorithm;
    match qop {
        Some(q) => head + ", qop=\""@ + q + seq!['"'],
        None => head,
    }
}

/// The nonce issued at `now` with the random number `random`: both in
/// hexadecimal, one after the other.
pub open spec fn nonce_text(now: u64, random: u64) -> Seq<char> {
    hex(now as nat) + hex(random as nat)
}

// ---------------------------------------------------------------------------
// Authorization header
// ---------------------------------------------------------------------------

/// The value of a parameter without the double quotes around it, if it
/// stands between two.
pub open spec fn unquote(s: Seq<char>) -> Seq<char> {
    if s.len() > 1 && s[0] == '"' && s.last() == '"' {
        s.subrange(1, s.len() - 1)
    } else {
        s
    }
}

/// The parameter that one comma-separated part holds: the text before the
/// first `=` as key, the text after it as value, both without the white
/// space around them, the value without quotes. A part without `=` holds
/// none.
pub open spec fn auth_param(part: Seq<char>) -> Option<(Seq<char>, Seq<char>)> {
    let p = trim(part);
    let eq = scan(p, CharClass::Except('='), 0);
    if 0 <= eq < p.len() {
        Some((trim(p.take(eq)), unquote(trim(p.skip(eq + 1)))))
    } else {
        None
    }
}

/// The parameters that the parts hold, in order.
pub open spec fn auth_params_of(parts: Seq<Seq<char>>) -> Seq<(Seq<char>, Seq<char>)>
    decreases parts.len(),
{
    if parts.len() == 0 {
        Seq::empty()
    } else {
        match auth_param(parts.last()) {
            Some(kv) => auth_params_of(parts.drop_last()).push(kv),
            None => auth_params_of(parts.drop_last()),
        }
    }
}

/// The parameters of a comma-separated list `key=value, key="value", ...`.
pub open spec fn auth_params(s: Seq<char>) -> Seq<(Seq<char>, Seq<char>)> {
    auth_params_of(split(s, ','))
}

/// The value under `key`: that of the last parameter with the key.
pub open spec fn param_value(params: Seq<(Seq<char>, Seq<char>)>, key: Seq<char>) -> Option<
    Seq<char>,
>
    decreases params.len(),
{
    if params.len() == 0 {
        None
    } else if params.last().0 == key {
        Some(params.last().1)
    } else {
        param_value(params.drop_last(), key)
    }
}

pub open spec fn pair_views(p: Seq<(String, String)>) -> Seq<(Seq<char>, Seq<char>)> {
    Seq::new(p.len(), |i: int| (p[i].0@, p[i].1@))
}

fn read_auth_param(part: &Vec<char>) -> (r: Option<(String, String)>)
    ensures
        match r {
            Some(kv) => auth_param(part@) == Some((kv.0@, kv.1@)),
            None => auth_param(part@) is None,
        },
{
    let p = trim_chars(part);
    let eq = scan_class(&p, &CharClass::Except('='), 0);
    if eq >= p.len() {
        return None;
    }
    let raw_key = slice_of(&p, 0, eq);
    assert(raw_key@ == p@.take(eq as int));
    let key = trim_chars(&raw_key);
    let raw_value = slice_of(&p, eq + 1, p.len());
    assert(raw_value@ == p@.skip(eq + 1));
    let value_part = trim_chars(&raw_value);
    let n = value_part.len();
    let value = if n > 1 && value_part[0] == '"' && value_part[n - 1] == '"' {
        slice_of(&value_part, 1, n - 1)
    } else {
        value_part
    };
    Some((string_of(&key), string_of(&value)))
}

/// Parse authentication parameters from a header value.
pub fn parse_auth_params(params_str: &str) -> (r: Vec<(String, String)>)
    ensures
        pair_views(r@) == auth_params(params_str@),
{
    let v = chars_of(params_str);
    let parts = split_chars(&v, ',');
    let ghost pv = views(parts@);
    let mut out: Vec<(String, String)> = Vec::new();
    let mut i: usize = 0;
    assert(pv.take(0) =~= Seq::empty());
    assert(pair_views(out@) =~= Seq::empty());
    while i < parts.len()
        invariant
            i <= parts.len(),
            pv == views(parts@),
            pair_views(out@) == auth_params_of(pv.take(i as int)),
        decreases parts.len() - i,
    {
        proof {
            assert(pv.take(i + 1).drop_last() =~= pv.take(i as int));
            assert(pv.take(i + 1).last() == parts@[i as int]@);
        }
        match read_auth_param(&parts[i]) {
            Some(kv) => {
                let ghost before = pair_views(out@);
                out.push(kv);
                assert(pair_views(out@) =~= before.push((kv.0@, kv.1@)));
            },
            None => {},
        }
        i += 1;
    }
    assert(pv.take(parts.len() as int) =~= pv);
    out
}

fn lookup(params: &Vec<(String, String)>, key: &str) -> (r: Option<String>)
    ensures
        opt_text(r) == param_value(pair_views(params@), key@),
{
    let ghost pv = pair_views(params@);
    let mut i: usize = params.len();
    assert(pv.take(i as int) =~= pv);
    while i > 0
        invariant
            i <= params.len(),
            pv == pair_views(params@),
            param_value(pv, key@) == param_value(pv.take(i as int), key@),
        decreases i,
    {
        proof {
            assert(pv.take(i as int).drop_last() =~= pv.take(i - 1));
            assert(pv.take(i as int).last() == (params@[i - 1].0@, params@[i - 1].1@));
        }
        if str_eq(params[i - 1].0.as_str(), key) {
            return Some(params[i - 1].1.clone());
        }
        i -= 1;
    }
    None
}

/// What an `Authorization` header value holds.
pub open spec fn authorization(header: Seq<char>) -> Result<
    (
        Seq<char>,
        Seq<char>,
        Seq<char>,
        Seq<char>,
        Seq<char>,
        Option<Seq<char>>,
        Option<Seq<char>>,
        Option<Seq<char>>,
        Option<Seq<char>>,
    ),
    AuthError,
> {
    if !occurs_at(header, "Digest "@, 0) {
        Err(AuthError::NotDigest)
    } else {
        let p = auth_params(header.skip(7));
        if param_value(p, "username"@) is None {
            Err(AuthError::MissingUsername)
        } else if param_value(p, "realm"@) is None {
            Err(AuthError::MissingRealm)
        } else if param_value(p, "nonce"@) is None {
            Err(AuthError::MissingNonce)
        } else if param_value(p, "uri"@) is None {
            Err(AuthError::MissingUri)
        } else if param_value(p, "response"@) is None {
            Err(AuthError::MissingResponse)
        } else {
            Ok(
                (
                    param_value(p, "username"@)->0,
                    param_value(p, "realm"@)->0,
                    param_value(p, "nonce"@)->0,
                    param_value(p, "uri"@)->0,
                    param_value(p, "response"@)->0,
                    param_value(p, "algorithm"@),
                    param_value(p, "qop"@),
                    param_value(p, "nc"@),
                    param_value(p, "cnonce"@),
                ),
            )
        }
    }
}

impl DigestResponse {
    /// The fields as texts, in the order of `authorization`.
    pub open spec fn fields(self) -> (
        Seq<char>,
        Seq<char>,
        Seq<char>,
        Seq<char>,
        Seq<char>,
        Option<Seq<char>>,
        Option<Seq<char>>,
        Option<Seq<char>>,
        Option<Seq<char>>,
    ) {
        (
            self.username@,
            self.realm@,
            self.nonce@,
            self.uri@,
            self.response@,
            opt_text(self.algorithm),
            opt_text(self.qop),
            opt_text(self.nc),
            opt_text(self.cnonce),
        )
    }
}

// ---------------------------------------------------------------------------
// Nonce table
// ---------------------------------------------------------------------------

/// An issued nonce.
#[derive(Debug, Clone)]
pub struct NonceInfo {
    pub nonce: String,
    /// When the nonce was issued, in seconds since the Unix epoch
    pub timestamp: u64,
    /// Whether a response with the nonce was validated
    pub used: bool,
}

/// What a table entry holds.
pub struct NonceView {
    pub nonce: Seq<char>,
    pub timestamp: u64,
    pub used: bool,
}

impl View for NonceInfo {
    type V = NonceView;

    open spec fn view(&self) -> NonceView {
        NonceView { nonce: self.nonce@, timestamp: self.timestamp, used: self.used }
    }
}

pub open spec fn nonce_views(t: Seq<NonceInfo>) -> Seq<NonceView> {
    Seq::new(t.len(), |i: int| t[i]@)
}

/// Whether no nonce stands twice in the table.
pub open spec fn distinct_nonces(t: Seq<NonceView>) -> bool {
    forall|i: int, j: int| 0 <= i < j < t.len() ==> t[i].nonce != t[j].nonce
}

/// The index at or after `from` of the entry of `nonce`, or the length of
/// the table.
pub open spec fn find_nonce(t: Seq<NonceView>, nonce: Seq<char>, from: int) -> int
    decreases t.len() - from,
{
    if 0 <= from < t.len() && t[from].nonce != nonce {
        find_nonce(t, nonce, from + 1)
    } else {
        from
    }
}

/// The seconds from `issued` to `now`; zero where the clock went back.
pub open spec fn age(now: u64, issued: u64) -> int {
    if now >= issued {
        now - issued
    } else {
        0
    }
}

/// The table once `nonce` is issued at `now`: a fresh, unused entry, in
/// place of an entry that the nonce had.
pub open spec fn table_insert(t: Seq<NonceView>, nonce: Seq<char>, now: u64) -> Seq<NonceView> {
    let i = find_nonce(t, nonce, 0);
    let entry = NonceView { nonce, timestamp: now, used: false };
    if 0 <= i < t.len() {
        t.update(i, entry)
    } else {
        t.push(entry)
    }
}

/// The entries that are at most 300 seconds old at `now`, in their order.
pub open spec fn sweep(t: Seq<NonceView>, now: u64) -> Seq<NonceView>
    decreases t.len(),
{
    if t.len() == 0 {
        Seq::empty()
    } else if age(now, t.last().timestamp) <= 300 {
        sweep(t.drop_last(), now).push(t.last())
    } else {
        sweep(t.drop_last(), now)
    }
}

/// The fields of an `Authorization` header value: the user name, the
/// realm, the nonce, the URI, the response, and where they are given the
/// algorithm, the qop, the nonce count and the client nonce.
pub type Fields = (
    Seq<char>,
    Seq<char>,
    Seq<char>,
    Seq<char>,
    Seq<char>,
    Option<Seq<char>>,
    Option<Seq<char>>,
    Option<Seq<char>>,
    Option<Seq<char>>,
);

/// The validation of a response with the given fields at `now`: the table
/// after it, and the verdict.
///
/// The nonce must be in the table, at most 300 seconds old, and unused.
/// It is then marked as used, whatever follows. The verdict is whether the
/// response presented is the response owed.
pub open spec fn validate_fields(
    t: Seq<NonceView>,
    realm: Seq<char>,
    f: Fields,
    password: Seq<char>,
    method: Seq<char>,
    now: u64,
) -> (Seq<NonceView>, Result<bool, AuthError>) {
    let i = find_nonce(t, f.2, 0);
    if !(0 <= i < t.len()) {
        (t, Err(AuthError::InvalidNonce))
    } else if age(now, t[i].timestamp) > 300 {
        (t, Err(AuthError::NonceExpired))
    } else if t[i].used {
        (t, Err(AuthError::NonceUsed))
    } else {
        let marked = t.update(
            i,
            NonceView { nonce: t[i].nonce, timestamp: t[i].timestamp, used: true },
        );
        match digest_response(f.0, realm, password, method, f.3, f.2, f.7, f.8, f.6) {
            Err(e) => (marked, Err(e)),
            Ok(expected) => (marked, Ok(expected == f.4)),
        }
    }
}

/// The validation of `response` at `now`: the table after it, and the
/// verdict.
pub open spec fn validate(
    t: Seq<NonceView>,
    realm: Seq<char>,
    response: DigestResponse,
    password: Seq<char>,
    method: Seq<char>,
    now: u64,
) -> (Seq<NonceView>, Result<bool, AuthError>) {
    validate_fields(t, realm, response.fields(), password, method, now)
}

pub proof fn lemma_find_nonce_is(t: Seq<NonceView>, nonce: Seq<char>, from: int, r: int)
    requires
        0 <= from <= r <= t.len(),
        forall|j: int| from <= j < r ==> t[j].nonce != nonce,
        r < t.len() ==> t[r].nonce == nonce,
    ensures
        find_nonce(t, nonce, from) == r,
    decreases r - from,
{
    if from < r {
        lemma_find_nonce_is(t, nonce, from + 1, r);
    }
}

pub proof fn lemma_find_nonce(t: Seq<NonceView>, nonce: Seq<char>, from: int)
    requires
        0 <= from <= t.len(),
    ensures
        from <= find_nonce(t, nonce, from) <= t.len(),
        forall|j: int| from <= j < find_nonce(t, nonce, from) ==> t[j].nonce != nonce,
        find_nonce(t, nonce, from) < t.len() ==> t[find_nonce(t, nonce, from)].nonce == nonce,
    decreases t.len() - from,
{
    if from < t.len() && t[from].nonce != nonce {
        lemma_find_nonce(t, nonce, from + 1);
    }
}

/// A nonce serves once: a validation that reaches a verdict marks the nonce
/// as used, and every later validation with that nonce fails, whatever it
/// presents and whenever it comes.
pub proof fn lemma_nonce_single_use(
    t: Seq<NonceView>,
    realm: Seq<char>,
    first: DigestResponse,
    password1: Seq<char>,
    method1: Seq<char>,
    now1: u64,
    second: DigestResponse,
    password2: Seq<char>,
    method2: Seq<char>,
    now2: u64,
)
    requires
        validate(t, realm, first, password1, method1, now1).1 is Ok,
        second.nonce@ == first.nonce@,
    ensures
        ({
            let after = validate(t, realm, first, password1, method1, now1).0;
            let i = find_nonce(t, first.nonce@, 0);
            &&& 0 <= i < after.len()
            &&& after[i].nonce == first.nonce@
            &&& after[i].used
            &&& validate(after, realm, second, password2, method2, now2).1 is Err
        }),
{
    let i = find_nonce(t, first.nonce@, 0);
    lemma_find_nonce(t, first.nonce@, 0);
    let after = validate(t, realm, first, password1, method1, now1).0;
    assert(after == t.update(
        i,
        NonceView { nonce: t[i].nonce, timestamp: t[i].timestamp, used: true },
    ));
    lemma_find_nonce_is(after, first.nonce@, 0, i);
}

/// Authentication manager for handling SIP digest authentication.
#[derive(Debug, Clone)]
pub struct AuthManager {
    realm: String,
    /// Issued nonces, each once, to track use and prevent replay
    nonces: Vec<NonceInfo>,
}

impl AuthManager {
    /// The realm of the manager.
    pub closed spec fn realm_text(&self) -> Seq<char> {
        self.realm@
    }

    /// The nonce table.
    pub closed spec fn table(&self) -> Seq<NonceView> {
        nonce_views(self.nonces@)
    }

    /// No nonce stands twice in the table.
    pub open spec fn wf(&self) -> bool {
        distinct_nonces(self.table())
    }

    /// Create a new authentication manager.
    pub fn new(realm: &str) -> (r: Self)
        ensures
            r.wf(),
            r.realm_text() == realm@,
            r.table() == Seq::<NonceView>::empty(),
    {
        let r = AuthManager { realm: realm.to_owned(), nonces: Vec::new() };
        assert(nonce_views(r.nonces@) =~= Seq::empty());
        r
    }

    /// The realm of the manager.
    pub fn realm(&self) -> (r: &str)
        ensures
            r@ == self.realm_text(),
    {
        self.realm.as_str()
    }

    /// The number of nonces in the table.
    pub fn nonce_count(&self) -> (n: usize)
        ensures
            n == self.table().len(),
    {
        self.nonces.len()
    }

    fn position(&self, nonce: &str) -> (i: usize)
        ensures
            i == find_nonce(self.table(), nonce@, 0),
            i <= self.nonces.len(),
    {
        let mut i: usize = 0;
        while i < self.nonces.len()
            invariant
                i <= self.nonces.len(),
                forall|j: int| 0 <= j < i ==> (#[trigger] self.table()[j]).nonce != nonce@,
            decreases self.nonces.len() - i,
        {
            if str_eq(self.nonces[i].nonce.as_str(), nonce) {
                proof {
                    assert(self.table()[i as int] == self.nonces@[i as int]@);
                    lemma_find_nonce_is(self.table(), nonce@, 0, i as int);
                }
                return i;
            }
            assert(self.table()[i as int] == self.nonces@[i as int]@);
            i += 1;
        }
        proof {
            lemma_find_nonce_is(self.table(), nonce@, 0, i as int);
        }
        i
    }

    /// Issue a challenge at `now` with the random number `random`: the nonce
    /// is recorded as issued at `now` and unused.
    pub fn issue_challenge(&mut self, now: u64, random: u64) -> (c: DigestChallenge)
        requires
            old(self).wf(),
        ensures
            final(self).wf(),
            final(self).realm_text() == old(self).realm_text(),
            final(self).table() == table_insert(old(self).table(), nonce_text(now, random), now),
            c.realm@ == old(self).realm_text(),
            c.nonce@ == nonce_text(now, random),
            c.algorithm@ == "MD5"@,
            opt_text(c.qop) == Some("auth"@),
    {
        let mut text: Vec<char> = Vec::new();
        push_hex(&mut text, now);
        push_hex(&mut text, random);
        assert(text@ =~= nonce_text(now, random));
        let nonce = string_of(&text);
        let i = self.position(nonce.as_str());
        let ghost before = self.table();
        proof {
            lemma_find_nonce(before, nonce@, 0);
        }
        let entry = NonceInfo { nonce: nonce.clone(), timestamp: now, used: false };
        if i < self.nonces.len() {
            self.nonces[i] = entry;
            assert(self.table() =~= before.update(i as int, entry@));
            assert(distinct_nonces(self.table())) by {
                assert forall|a: int, b: int| 0 <= a < b < self.table().len() implies self.table()[a].nonce
                    != self.table()[b].nonce by {
                    assert(self.table()[a].nonce == before[a].nonce);
                    assert(self.table()[b].nonce == before[b].nonce);
                }
            }
        } else {
            self.nonces.push(entry);
            assert(self.table() =~= before.push(entry@));
        }
        DigestChallenge {
            realm: self.realm.clone(),
            nonce,
            algorithm: "MD5".to_owned(),
            qop: Some("auth".to_owned()),
        }
    }

    /// Generate a new digest challenge, with the time of the system clock
    /// and a fresh random number.
    pub fn generate_challenge(&mut self) -> (c: DigestChallenge)
        requires
            old(self).wf(),
        ensures
            final(self).wf(),
            final(self).realm_text() == old(self).realm_text(),
            exists|now: u64, random: u64|
                c.nonce@ == nonce_text(now, random) && final(self).table() == table_insert(
                    old(self).table(),
                    nonce_text(now, random),
                    now,
                ),
            c.realm@ == old(self).realm_text(),
            c.algorithm@ == "MD5"@,
            opt_text(c.qop) == Some("auth"@),
    {
        let now = unix_now();
        let random = random_u64();
        self.issue_challenge(now, random)
    }

    /// Calculate the digest response value.
    pub fn calculate_response(
        &self,
        username: &str,
        password: &str,
        method: &str,
        uri: &str,
        nonce: &str,
        nc: Option<&str>,
        cnonce: Option<&str>,
        qop: Option<&str>,
    ) -> (r: Result<String, AuthError>)
        ensures
            match r {
                Ok(s) => digest_response(
                    username@,
                    self.realm_text(),
                    password@,
                    method@,
                    uri@,
                    nonce@,
                    opt_str(nc),
                    opt_str(cnonce),
                    opt_str(qop),
                ) == Ok::<Seq<char>, AuthError>(s@),
                Err(e) => digest_response(
                    username@,
                    self.realm_text(),
                    password@,
                    method@,
                    uri@,
                    nonce@,
                    opt_str(nc),
                    opt_str(cnonce),
                    opt_str(qop),
                ) == Err::<Seq<char>, AuthError>(e),
            },
    {
        let mut t1: Vec<char> = Vec::new();
        append_str(&mut t1, username);
        t1.push(':');
        append_str(&mut t1, self.realm.as_str());
        t1.push(':');
        append_str(&mut t1, password);
        assert(t1@ =~= username@ + seq![':'] + self.realm@ + seq![':'] + password@);
        let ha1 = md5_hex_of(&t1);

        let mut t2: Vec<char> = Vec::new();
        append_str(&mut t2, method);
        t2.push(':');
        append_str(&mut t2, uri);
        assert(t2@ =~= method@ + seq![':'] + uri@);
        let ha2 = md5_hex_of(&t2);

        let with_auth = match qop {
            Some(q) => str_eq(q, "auth"),
            None => false,
        };
        let mut t3: Vec<char> = Vec::new();
        if with_auth {
            let nc = match nc {
                Some(x) => x,
                None => {
                    return Err(AuthError::MissingNc);
                },
            };
            let cnonce = match cnonce {
                Some(x) => x,
                None => {
                    return Err(AuthError::MissingCnonce);
                },
            };
            append_chars(&mut t3, &ha1);
            t3.push(':');
            append_str(&mut t3, nonce);
            t3.push(':');
            append_str(&mut t3, nc);
            t3.push(':');
            append_str(&mut t3, cnonce);
            append_str(&mut t3, ":auth:");
            append_chars(&mut t3, &ha2);
            assert(t3@ =~= ha1@ + seq![':'] + nonce@ + seq![':'] + nc@ + seq![':'] + cnonce@
                + ":auth:"@ + ha2@);
        } else {
            append_chars(&mut t3, &ha1);
            t3.push(':');
            append_str(&mut t3, nonce);
            t3.push(':');
            append_chars(&mut t3, &ha2);
            assert(t3@ =~= ha1@ + seq![':'] + nonce@ + seq![':'] + ha2@);
        }
        let r = md5_hex_of(&t3);
        Ok(string_of(&r))
    }

    /// Validate a digest response at the time `now`.
    pub fn validate_response_at(
        &mut self,
        response: &DigestResponse,
        password: &str,
        method: &str,
        now: u64,
    ) -> (r: Result<bool, AuthError>)
        requires
            old(self).wf(),
        ensures
            final(self).wf(),
            final(self).realm_text() == old(self).realm_text(),
            (final(self).table(), r) == validate(
                old(self).table(),
                old(self).realm_text(),
                *response,
                password@,
                method@,
                now,
            ),
    {
        let i = self.position(response.nonce.as_str());
        if i >= self.nonces.len() {
            return Err(AuthError::InvalidNonce);
        }
        let ghost before = self.table();
        assert(before[i as int] == self.nonces@[i as int]@);
        let issued = self.nonces[i].timestamp;
        if now >= issued && now - issued > 300 {
            return Err(AuthError::NonceExpired);
        }
        if self.nonces[i].used {
            return Err(AuthError::NonceUsed);
        }
        let entry = NonceInfo { nonce: self.nonces[i].nonce.clone(), timestamp: issued, used: true };
        self.nonces[i] = entry;
        assert(self.table() =~= before.update(
            i as int,
            NonceView { nonce: before[i as int].nonce, timestamp: issued, used: true },
        ));
        assert(distinct_nonces(self.table())) by {
            assert forall|a: int, b: int| 0 <= a < b < self.table().len() implies self.table()[a].nonce
                != self.table()[b].nonce by {
                assert(self.table()[a].nonce == before[a].nonce);
                assert(self.table()[b].nonce == before[b].nonce);
            }
        }
        let nc: Option<&str> = match &response.nc {
            Some(x) => Some(x.as_str()),
            None => None,
        };
        let cnonce: Option<&str> = match &response.cnonce {
            Some(x) => Some(x.as_str()),
            None => None,
        };
        let qop: Option<&str> = match &response.qop {
            Some(x) => Some(x.as_str()),
            None => None,
        };
        match self.calculate_response(
            response.username.as_str(),
            password,
            method,
            response.uri.as_str(),
            response.nonce.as_str(),
            nc,
            cnonce,
            qop,
        ) {
            Err(e) => Err(e),
            Ok(expected) => Ok(constant_time_eq(expected.as_str(), response.response.as_str())),
        }
    }

    /// Validate a digest response, at the time of the system clock.
    pub fn validate_response(&mut self, response: &DigestResponse, password: &str, method: &str) -> (r:
        Result<bool, AuthError>)
        requires
            old(self).wf(),
        ensures
            final(self).wf(),
            final(self).realm_text() == old(self).realm_text(),
            exists|now: u64|
                (final(self).table(), r) == validate(
                    old(self).table(),
                    old(self).realm_text(),
                    *response,
                    password@,
                    method@,
                    now,
                ),
    {
        let now = unix_now();
        self.validate_response_at(response, password, method, now)
    }

    /// Format a challenge as a WWW-Authenticate header value.
    pub fn format_challenge(challenge: &DigestChallenge) -> (s: String)
        ensures
            s@ == challenge_text(
                challenge.realm@,
                challenge.nonce@,
                challenge.algorithm@,
                opt_text(challenge.qop),
            ),
    {
        let mut out: Vec<char> = Vec::new();
        append_str(&mut out, "Digest realm=\"");
        append_str(&mut out, challenge.realm.as_str());
        append_str(&mut out, "\", nonce=\"");
        append_str(&mut out, challenge.nonce.as_str());
        append_str(&mut out, "\", algorithm=");
        append_str(&mut out, challenge.algorithm.as_str());
        match &challenge.qop {
            Some(q) => {
                append_str(&mut out, ", qop=\"");
                append_str(&mut out, q.as_str());
                out.push('"');
            },
            None => {},
        }
        assert(out@ =~= challenge_text(
            challenge.realm@,
            challenge.nonce@,
            challenge.algorithm@,
            opt_text(challenge.qop),
        ));
        string_of(&out)
    }

    /// Parse an Authorization header value.
    pub fn parse_authorization(header: &str) -> (r: Result<DigestResponse, AuthError>)
        ensures
            match r {
                Ok(d) => authorization(header@) == Ok::<_, AuthError>(d.fields()),
                Err(e) => authorization(header@) == Err::<
                    (
                        Seq<char>,
                        Seq<char>,
                        Seq<char>,
                        Seq<char>,
                        Seq<char>,
                        Option<Seq<char>>,
                        Option<Seq<char>>,
                        Option<Seq<char>>,
                        Option<Seq<char>>,
                    ),
                    AuthError,
                >(e),
            },
    {
        let v = chars_of(header);
        let prefix = chars_of("Digest ");
        proof {
            reveal_strlit("Digest ");
        }
        if !matches_at(&v, &prefix, 0) {
            return Err(AuthError::NotDigest);
        }
        let rest = crate::text::string_of_range(&v, 7, v.len());
        assert(v@.subrange(7, v.len() as int) == v@.skip(7));
        let params = parse_auth_params(rest.as_str());
        let username = match lookup(&params, "username") {
            Some(x) => x,
            None => {
                return Err(AuthError::MissingUsername);
            },
        };
        let realm = match lookup(&params, "realm") {
            Some(x) => x,
            None => {
                return Err(AuthError::MissingRealm);
            },
        };
        let nonce = match lookup(&params, "nonce") {
            Some(x) => x,
            None => {
                return Err(AuthError::MissingNonce);
            },
        };
        let uri = match lookup(&params, "uri") {
            Some(x) => x,
            None => {
                return Err(AuthError::MissingUri);
            },
        };
        let response = match lookup(&params, "response") {
            Some(x) => x,
            None => {
                return Err(AuthError::MissingResponse);
            },
        };
        Ok(
            DigestResponse {
                username,
                realm,
                nonce,
                uri,
                response,
                algorithm: lookup(&params, "algorithm"),
                qop: lookup(&params, "qop"),
                nc: lookup(&params, "nc"),
                cnonce: lookup(&params, "cnonce"),
            },
        )
    }

    /// Drop the nonces that are more than 300 seconds old at `now`.
    pub fn cleanup_nonces_at(&mut self, now: u64)
        requires
            old(self).wf(),
        ensures
            final(self).wf(),
            final(self).realm_text() == old(self).realm_text(),
            final(self).table() == sweep(old(self).table(), now),
    {
        let mut rest: Vec<NonceInfo> = Vec::new();
        core::mem::swap(&mut rest, &mut self.nonces);
        let ghost all = nonce_views(rest@);
        let ghost mut k: int = 0;
        assert(all.take(0) =~= Seq::empty());
        assert(nonce_views(self.nonces@) =~= Seq::empty());
        while rest.len() > 0
            invariant
                0 <= k <= all.len(),
                distinct_nonces(all),
                self.realm == old(self).realm,
                nonce_views(rest@) == all.skip(k),
                nonce_views(self.nonces@) == sweep(all.take(k), now),
            decreases rest.len(),
        {
            let ghost rest_before = nonce_views(rest@);
            assert(rest_before.len() == rest.len());
            assert(k < all.len());
            assert(rest_before[0] == all[k]);
            assert(rest_before[0] == rest@[0]@);
            let x = rest.remove(0);
            assert(x@ == all[k]);
            assert(nonce_views(rest@) =~= all.skip(k + 1)) by {
                assert forall|j: int| 0 <= j < rest@.len() implies nonce_views(rest@)[j]
                    == all.skip(k + 1)[j] by {
                    assert(nonce_views(rest@)[j] == rest_before[j + 1]);
                }
            }
            proof {
                assert(all.take(k + 1).drop_last() =~= all.take(k));
                assert(all.take(k + 1).last() == all[k]);
            }
            if !(now >= x.timestamp && now - x.timestamp > 300) {
                let ghost kept = nonce_views(self.nonces@);
                self.nonces.push(x);
                assert(nonce_views(self.nonces@) =~= kept.push(x@));
            }
            proof {
                k = k + 1;
            }
        }
        assert(all.take(all.len() as int) =~= all);
        proof {
            lemma_sweep_distinct(all, now);
        }
    }

    /// Clean up expired nonces, at the time of the system clock.
    pub fn cleanup_nonces(&mut self)
        requires
            old(self).wf(),
        ensures
            final(self).wf(),
            final(self).realm_text() == old(self).realm_text(),
            exists|now: u64| final(self).table() == sweep(old(self).table(), now),
    {
        let now = unix_now();
        self.cleanup_nonces_at(now);
    }
}

/// Every entry that a sweep keeps stood in the table, later entries behind
/// earlier ones; so a swept table holds no nonce twice where the table held
/// none twice.
pub proof fn lemma_sweep_distinct(t: Seq<NonceView>, now: u64)
    requires
        distinct_nonces(t),
    ensures
        distinct_nonces(sweep(t, now)),
        forall|a: int|
            0 <= a < sweep(t, now).len() ==> exists|b: int|
                0 <= b < t.len() && t[b] == #[trigger] sweep(t, now)[a],
    decreases t.len(),
{
    if t.len() > 0 {
        let d = t.drop_last();
        assert(distinct_nonces(d)) by {
            assert forall|i: int, j: int| 0 <= i < j < d.len() implies d[i].nonce != d[j].nonce by {
                assert(d[i] == t[i] && d[j] == t[j]);
            }
        }
        lemma_sweep_distinct(d, now);
        let s = sweep(t, now);
        let sd = sweep(d, now);
        assert forall|a: int| 0 <= a < s.len() implies exists|b: int|
            0 <= b < t.len() && t[b] == #[trigger] s[a] by {
            if a < sd.len() {
                let b = choose|b: int| 0 <= b < d.len() && d[b] == sd[a];
                assert(t[b] == s[a]);
            } else {
                assert(t[t.len() - 1] == s[a]);
            }
        }
        assert forall|i: int, j: int| 0 <= i < j < s.len() implies s[i].nonce != s[j].nonce by {
            if j < sd.len() {
            } else {
                let b = choose|b: int| 0 <= b < d.len() && d[b] == sd[i];
                assert(t[b].nonce != t[t.len() - 1].nonce);
            }
        }
    }
}

} // verus!
